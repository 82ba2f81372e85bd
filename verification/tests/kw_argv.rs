use patch_hub::kw::argv::{build_argv, deploy_argv, merge_extra_args, ReservedOption};


fn extras(tokens: &[&str]) -> Vec<String> {
    tokens.iter().map(|token| token.to_string()).collect()
}

#[test]
fn build_argv_without_extras_is_the_base_command() {
    assert_eq!(vec!["build"], build_argv(&[]));
}

#[test]
fn extras_are_appended_in_order() {
    assert_eq!(
        vec!["build", "--verbose", "--ccache", "-j8"],
        build_argv(&extras(&["--verbose", "--ccache", "-j8"]))
    );
}

#[test]
fn reserved_alert_is_stripped_from_extras() {
    assert_eq!(
        vec!["build", "--verbose"],
        build_argv(&extras(&["--alert=vv", "--verbose"]))
    );
    // Separate-token value form: the value token is consumed too.
    assert_eq!(
        vec!["build", "--verbose"],
        build_argv(&extras(&["--alert", "v", "--verbose"]))
    );
}

#[test]
fn save_log_to_is_reserved_in_both_value_forms() {
    assert_eq!(
        vec!["build"],
        build_argv(&extras(&["--save-log-to=/tmp/x.log"]))
    );
    assert_eq!(
        vec!["build"],
        build_argv(&extras(&["--save-log-to", "/tmp/x.log"]))
    );
}

#[test]
fn similar_prefix_is_not_reserved() {
    // `--alertness` only shares a prefix with `--alert`.
    assert_eq!(
        vec!["build", "--alertness"],
        build_argv(&extras(&["--alertness"]))
    );
}

#[test]
fn trailing_reserved_option_without_value_is_stripped() {
    assert_eq!(vec!["build"], build_argv(&extras(&["--alert"])));
}

#[test]
fn menu_is_stripped_without_eating_the_next_token() {
    // kw build --menu would open menuconfig with the job's stdio
    // redirected to a log file — a hang, not a build.
    assert_eq!(
        vec!["build", "--verbose"],
        build_argv(&extras(&["--menu", "--verbose"]))
    );
}

#[test]
fn tree_mutating_and_hanging_build_flags_are_stripped() {
    assert_eq!(
        vec!["build", "--verbose"],
        build_argv(&extras(&[
            "--clean",
            "--full-cleanup",
            "--doc",
            "--info",
            "--from-sha",
            "abc123",
            "--verbose",
        ]))
    );
    assert_eq!(vec!["build"], build_argv(&extras(&["--from-sha=abc123"])));
}

#[test]
fn boolean_reserved_strips_only_itself_in_all_spellings() {
    // A boolean reserved option must not eat the following token.
    let reserved = [ReservedOption::new(&["--force", "-f"], false)];
    assert_eq!(
        vec!["deploy", "extra"],
        merge_extra_args(&["deploy"], &reserved, &extras(&["--force", "extra"]))
    );
    assert_eq!(
        vec!["deploy", "extra"],
        merge_extra_args(&["deploy"], &reserved, &extras(&["-f", "extra"]))
    );
}

#[test]
fn tokens_after_a_consumed_value_keep_flowing() {
    let reserved = [ReservedOption::new(&["--remote"], true)];
    assert_eq!(
        vec!["deploy", "--no-reboot"],
        merge_extra_args(
            &["deploy"],
            &reserved,
            &extras(&["--remote", "host:22", "--no-reboot"])
        )
    );
}

const ENDPOINT: &str = "root@lima-ph-dut.internal:22";

fn deploy(extra: &[&str]) -> Vec<String> {
    deploy_argv(ENDPOINT, false, true, &extras(extra))
}

#[test]
fn deploy_argv_without_extras_is_remote_no_reboot_force() {
    assert_eq!(
        vec!["deploy", "--remote", ENDPOINT, "--no-reboot", "--force",],
        deploy_argv(ENDPOINT, false, true, &[])
    );
}

#[test]
fn deploy_argv_reboot_and_unforced_swap_the_injected_flags() {
    assert_eq!(
        vec!["deploy", "--remote", ENDPOINT, "--reboot"],
        deploy_argv(ENDPOINT, true, false, &[])
    );
}

#[test]
fn deploy_remote_always_wins_over_user_remote_and_local() {
    assert_eq!(
        vec![
            "deploy",
            "--remote",
            ENDPOINT,
            "--no-reboot",
            "--force",
            "--verbose",
        ],
        deploy(&[
            "--remote",
            "other:22",
            "--local",
            "--remote=evil:1",
            "--verbose",
        ])
    );
}

#[test]
fn deploy_strips_query_modes_setup_and_package_flags() {
    assert_eq!(
        vec![
            "deploy",
            "--remote",
            ENDPOINT,
            "--no-reboot",
            "--force",
            "--verbose",
        ],
        deploy(&[
            "--list",
            "-l",
            "--ls-line",
            "-s",
            "--list-all",
            "-a",
            "--setup",
            "--from-package",
            "kernel.kw.tar",
            "--from-package=other.kw.tar",
            "-F",
            "also.kw.tar",
            "--create-package",
            "-p",
            "--verbose",
        ])
    );
}

#[test]
fn deploy_strips_boot_once_alert_save_log_and_reboot_overrides() {
    assert_eq!(
        vec![
            "deploy",
            "--remote",
            ENDPOINT,
            "--no-reboot",
            "--force",
            "--modules",
        ],
        deploy(&[
            "--boot-into-new-kernel-once",
            "-n",
            "--alert=n",
            "--alert",
            "v",
            "--save-log-to",
            "/tmp/x.log",
            "--reboot",
            "-r",
            "--no-reboot",
            "--force",
            "-f",
            "--modules",
        ])
    );
}

#[test]
fn uninstall_short_flag_does_not_eat_the_next_token() {
    // kw's `-u` takes an optional value (`uninstall::`). Treating it as
    // a boolean reserved option keeps a following extra from vanishing.
    assert_eq!(
        vec![
            "deploy",
            "--remote",
            ENDPOINT,
            "--no-reboot",
            "--force",
            "--verbose",
        ],
        deploy(&["-u", "--verbose"])
    );
    assert_eq!(
        vec![
            "deploy",
            "--remote",
            ENDPOINT,
            "--no-reboot",
            "--force",
            "--verbose",
        ],
        deploy(&["--uninstall", "--verbose"])
    );
    assert_eq!(
        vec!["deploy", "--remote", ENDPOINT, "--no-reboot", "--force",],
        deploy(&["--uninstall=old-kernel"])
    );
}

#[test]
fn deploy_strips_build_only_flags_that_kw_deploy_would_reject() {
    // Shared KwOps extras: --verbose is a real deploy option; the rest
    // are kw build-only (`src/build.sh` 0.10) and would exit 22.
    assert_eq!(
        vec![
            "deploy",
            "--remote",
            ENDPOINT,
            "--no-reboot",
            "--force",
            "--verbose",
        ],
        deploy(&[
            "--ccache",
            "--llvm",
            "--cpu-scaling",
            "50",
            "--warnings=1",
            "--cflags",
            "-O2",
            "--menu",
            "--doc",
            "--info",
            "--clean",
            "--full-cleanup",
            "--from-sha",
            "abc123",
            "--verbose",
        ])
    );
    assert_eq!(
        vec![
            "deploy",
            "--remote",
            ENDPOINT,
            "--no-reboot",
            "--force",
            "--verbose",
        ],
        deploy(&[
            "--cpu-scaling=50",
            "--warnings=1",
            "--cflags=-O2",
            "--from-sha=abc123",
            "-S",
            "25",
            "-w2",
            "-d",
            "-i",
            "-c",
            "--verbose",
        ])
    );
}

#[test]
fn deploy_strips_bundled_reserved_shorts_and_attached_values() {
    // GNU getopt: `-rf` is `--reboot --force`; `-Fpkg` is from-package.
    assert_eq!(
        vec![
            "deploy",
            "--remote",
            ENDPOINT,
            "--no-reboot",
            "--force",
            "--verbose",
        ],
        deploy(&["-rf", "-Fpkg.kw.tar", "-S25", "-w12", "--verbose"])
    );
    // Mixed cluster containing a reserved flag is dropped whole so
    // `-ukernel` cannot be rewritten into leftover `-kernel`.
    assert_eq!(
        vec![
            "deploy",
            "--remote",
            ENDPOINT,
            "--no-reboot",
            "--force",
            "--verbose",
        ],
        deploy(&["-mr", "-ukernel", "--verbose"])
    );
}

#[test]
fn deploy_strips_unique_gnu_getopt_long_abbreviations() {
    assert_eq!(
        vec![
            "deploy",
            "--remote",
            ENDPOINT,
            "--no-reboot",
            "--force",
            "--verbose",
        ],
        deploy(&[
            "--rem",
            "evil:1",
            "--rem=other:1",
            "--reb",
            "--no-r",
            "--boot",
            "--verbose",
        ])
    );
}

#[test]
fn deploy_keeps_modules_abbrev_and_ambiguous_long_prefixes() {
    // `--m` uniquely matches `--modules` on deploy; `--menu` is
    // build-only and must not steal it. `--re` is ambiguous between
    // `--remote` and `--reboot`, so it is left for getopt to reject
    // rather than eating the next token.
    assert_eq!(
        vec![
            "deploy",
            "--remote",
            ENDPOINT,
            "--no-reboot",
            "--force",
            "--m",
            "--re",
            "--verbose",
        ],
        deploy(&["--m", "--re", "--verbose"])
    );
}

#[test]
fn build_strips_unique_long_abbreviations_of_reserved_flags() {
    assert_eq!(
        vec!["build", "--verbose"],
        build_argv(&extras(&["--men", "--from", "abc123", "--verbose"]))
    );
}

#[test]
fn help_is_stripped_from_build_and_deploy_extras() {
    // `kw build --help` exits 0 without compiling, so a D job would
    // otherwise chain into `kw deploy --help` (exit 22).
    assert_eq!(
        vec!["build", "--verbose"],
        build_argv(&extras(&["--help", "-h", "--verbose"]))
    );
    assert_eq!(
        vec![
            "deploy",
            "--remote",
            ENDPOINT,
            "--no-reboot",
            "--force",
            "--verbose",
        ],
        deploy(&["--help", "-h", "--verbose"])
    );
}

#[test]
fn warnings_optional_value_does_not_eat_the_next_token() {
    assert_eq!(
        vec![
            "deploy",
            "--remote",
            ENDPOINT,
            "--no-reboot",
            "--force",
            "--verbose",
        ],
        deploy(&["--warnings", "--verbose"])
    );
}
