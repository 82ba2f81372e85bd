use std::cell::Cell;
use std::collections::{BTreeMap, BTreeSet};

use patch_hub::infra::{EnvTrait, FileSystemTrait, ShellCommand, ShellOutput, ShellTrait};
use patch_hub::kw::history::KwBuildRecord;
use patch_hub::kw::readiness::{
    check_deploy_alone, evaluate_readiness, find_newest_kernel_image, is_kernel_root,
    output_dir_for, parse_kw_config, parse_kw_version, probe_kw_binary, probe_tree,
    read_build_arch, read_kernelrelease, resolve_output_dir, DeployAloneRefusal,
    tree_verdict, KwReadinessError, KwVersionCheck, TreeReadiness,
};

#[derive(Default)]
struct MemFs {
    files: BTreeMap<String, (String, u64)>,
    dirs: BTreeSet<String>,
    unreadable: BTreeSet<String>,
}

impl MemFs {
    fn dir(mut self, path: &str) -> Self {
        self.dirs.insert(path.to_string());
        self
    }

    fn file(mut self, path: &str, content: &str) -> Self {
        self.files.insert(path.to_string(), (content.to_string(), 0));
        self
    }

    fn file_at(mut self, path: &str, mtime: u64) -> Self {
        self.files.insert(path.to_string(), (String::new(), mtime));
        self
    }

    fn without(mut self, path: &str) -> Self {
        self.files.remove(path);
        self.dirs.remove(path);
        self
    }
}

fn parent(path: &str) -> &str {
    match path.rfind('/') {
        Some(0) => "/",
        Some(i) => &path[..i],
        None => "",
    }
}

impl FileSystemTrait for MemFs {
    fn is_file(&self, path: &str) -> bool {
        self.files.contains_key(path)
    }

    fn is_dir(&self, path: &str) -> bool {
        self.dirs.contains(path)
    }

    fn path_exists(&self, path: &str) -> bool {
        self.is_file(path) || self.is_dir(path)
    }

    fn read_to_string(&self, path: &str) -> Option<String> {
        if self.unreadable.contains(path) {
            return None;
        }
        self.files.get(path).map(|(c, _)| c.clone())
    }

    fn read_dir(&self, path: &str) -> Option<Vec<String>> {
        if !self.dirs.contains(path) {
            return None;
        }
        let mut out: Vec<String> = self
            .files
            .keys()
            .chain(self.dirs.iter())
            .filter(|p| parent(p) == path && p.as_str() != path)
            .cloned()
            .collect();
        out.sort();
        Some(out)
    }

    fn modified(&self, path: &str) -> Option<u64> {
        self.files.get(path).map(|(_, t)| *t)
    }

    fn create_dir_all(&self, _path: &str) -> Result<(), String> {
        Ok(())
    }

    fn write(&self, _path: &str, _contents: &[u8]) -> Result<(), String> {
        Ok(())
    }

    fn rename(&self, _from: &str, _to: &str) -> Result<(), String> {
        Err("read-only".to_string())
    }
}

const ROOT_FILES: [&str; 6] = ["COPYING", "CREDITS", "Kbuild", "Makefile", "README", "MAINTAINERS"];
const ROOT_DIRS: [&str; 10] = [
    "Documentation",
    "arch",
    "include",
    "drivers",
    "fs",
    "init",
    "ipc",
    "kernel",
    "lib",
    "scripts",
];

fn kernel_root(path: &str) -> MemFs {
    let mut fs = MemFs::default().dir(path);
    for f in ROOT_FILES {
        fs = fs.file(&format!("{path}/{f}"), "");
    }
    for d in ROOT_DIRS {
        fs = fs.dir(&format!("{path}/{d}"));
    }
    fs
}

fn ready_tree(path: &str) -> MemFs {
    kernel_root(path).dir(&format!("{path}/.kw")).file(&format!("{path}/.config"), "")
}

struct Env {
    which: bool,
    xdg: Option<String>,
    home: Option<String>,
}

impl EnvTrait for Env {
    fn var(&self, key: &str) -> Option<String> {
        match key {
            "XDG_CACHE_HOME" => self.xdg.clone(),
            "HOME" => self.home.clone(),
            _ => None,
        }
    }

    fn which(&self, _program: &str) -> bool {
        self.which
    }
}

fn env_with(xdg: Option<&str>, home: Option<&str>) -> Env {
    Env { which: true, xdg: xdg.map(str::to_string), home: home.map(str::to_string) }
}

struct Shell {
    output: Option<(String, bool)>,
    calls: Cell<usize>,
}

impl Shell {
    fn new(output: Option<(&str, bool)>) -> Self {
        Shell { output: output.map(|(s, b)| (s.to_string(), b)), calls: Cell::new(0) }
    }
}

impl ShellTrait for Shell {
    fn execute(&self, cmd: &ShellCommand) -> Option<ShellOutput> {
        self.calls.set(self.calls.get() + 1);
        assert_eq!("kw", cmd.program);
        assert_eq!(vec!["--version".to_string()], cmd.args);
        self.output.as_ref().map(|(s, ok)| ShellOutput {
            stdout: s.as_bytes().to_vec(),
            stderr: Vec::new(),
            success: *ok,
        })
    }

    fn execute_with_stdin(&self, _cmd: &ShellCommand, _stdin: &[u8]) -> Option<ShellOutput> {
        None
    }
}

fn built_record(tree: &str, branch: &str) -> KwBuildRecord {
    KwBuildRecord {
        kernel_tree_id: "mainline".to_string(),
        tree_path: tree.to_string(),
        message_id: None,
        branch: branch.to_string(),
        arch: Some("x86".to_string()),
        image_path: None,
        output_dir: None,
        kernelrelease: None,
        log_path: String::new(),
        built_at: "2026-08-01T18:10:00Z".to_string(),
        success: true,
    }
}

#[test]
fn parse_kw_config_mirrors_kw_semantics() {
    let content = "\
# a comment line
arch=x86_64

  cpu_scaling_factor  =  100
kernel_img_name=bzImage # trailing comment
dtb_copy_pattern={broadcom,rockchip}#kept
no_equals_line
cross_compile=
last_line_without_newline=yes";
    let parsed = parse_kw_config(content);

    assert_eq!(parsed.get("arch"), Some(&"x86_64".to_string()));
    assert_eq!(parsed.get("cpu_scaling_factor"), Some(&"100".to_string()));
    assert_eq!(parsed.get("kernel_img_name"), Some(&"bzImage".to_string()));
    assert_eq!(parsed.get("dtb_copy_pattern"), Some(&"{broadcom,rockchip}".to_string()));
    assert_eq!(parsed.get("cross_compile"), Some(&String::new()));
    assert_eq!(parsed.get("last_line_without_newline"), Some(&"yes".to_string()));
    assert!(!parsed.contains_key("no_equals_line"));
    assert_eq!(6, parsed.len());
}

#[test]
fn parse_kw_config_keeps_the_last_value_of_a_repeated_key() {
    let parsed = parse_kw_config("arch=x86\narch = arm64\n");
    assert_eq!(parsed.get("arch"), Some(&"arm64".to_string()));
    assert_eq!(1, parsed.len());
}

#[test]
fn is_kernel_root_accepts_complete_fixture() {
    assert!(is_kernel_root(&kernel_root("/t"), "/t"));
}

#[test]
fn is_kernel_root_rejects_any_missing_member() {
    for member in ROOT_FILES.into_iter().chain(ROOT_DIRS) {
        let fs = kernel_root("/t").without(&format!("/t/{member}"));
        assert!(!is_kernel_root(&fs, "/t"), "missing {member} should fail the check");
    }
}

#[test]
fn probe_tree_reports_missing_path() {
    assert_eq!(TreeReadiness::Missing, probe_tree(&MemFs::default(), "/t/nope", None));
}

#[test]
fn probe_tree_reports_non_kernel_root() {
    assert_eq!(
        TreeReadiness::NotAKernelRoot,
        probe_tree(&MemFs::default().dir("/t"), "/t", None)
    );
}

#[test]
fn probe_tree_reports_missing_kw_dir() {
    assert_eq!(TreeReadiness::MissingKwDir, probe_tree(&kernel_root("/t"), "/t", None));
}

#[test]
fn probe_tree_reports_missing_kernel_config() {
    let fs = kernel_root("/t").dir("/t/.kw");
    assert_eq!(TreeReadiness::MissingKernelConfig, probe_tree(&fs, "/t", None));
}

#[test]
fn probe_tree_ready_without_build_config_means_glob_fallback() {
    assert_eq!(TreeReadiness::Ready { arch: None }, probe_tree(&ready_tree("/t"), "/t", None));
}

#[test]
fn probe_tree_ready_reads_arch_from_build_config() {
    let fs = ready_tree("/t").file("/t/.kw/build.config", "arch=arm64\n");
    assert_eq!(
        TreeReadiness::Ready { arch: Some("arm64".to_string()) },
        probe_tree(&fs, "/t", None)
    );
}

#[test]
fn probe_tree_with_active_env_checks_config_in_output_dir() {
    let fs = ready_tree("/t").without("/t/.config").dir("/out");
    assert_eq!(TreeReadiness::MissingKernelConfig, probe_tree(&fs, "/t", Some("/out")));
    let fs = fs.file("/out/.config", "");
    assert!(matches!(probe_tree(&fs, "/t", Some("/out")), TreeReadiness::Ready { .. }));
}

#[test]
fn read_build_arch_reads_literal_value() {
    let fs = ready_tree("/t").file("/t/.kw/build.config", "arch=x86\n");
    assert_eq!(Some("x86".to_string()), read_build_arch(&fs, "/t"));
}

#[test]
fn read_build_arch_unset_means_glob_fallback() {
    assert_eq!(None, read_build_arch(&ready_tree("/t"), "/t"));
    let no_key = ready_tree("/t").file("/t/.kw/build.config", "cpu_scaling_factor=100\n");
    assert_eq!(None, read_build_arch(&no_key, "/t"));
    let commented = ready_tree("/t").file("/t/.kw/build.config", "#arch=riscv\n");
    assert_eq!(None, read_build_arch(&commented, "/t"));
    let empty = ready_tree("/t").file("/t/.kw/build.config", "arch=\n");
    assert_eq!(None, read_build_arch(&empty, "/t"));
}

#[test]
fn resolve_output_dir_without_env_file_is_inactive() {
    let env = env_with(None, None);
    assert_eq!(Ok(None), resolve_output_dir(&ready_tree("/t"), &env, "/t"));
}

#[test]
fn resolve_output_dir_encodes_tree_path_like_kw() {
    let fs = MemFs::default().file("/home/user/linux/.kw/env.current", "minix\n");
    let env = env_with(Some("/xdg"), None);
    assert_eq!(
        Ok(Some("/xdg/kw/envs/L2hvbWUvdXNlci9saW51eA==/minix".to_string())),
        resolve_output_dir(&fs, &env, "/home/user/linux")
    );
}

#[test]
fn resolve_output_dir_falls_back_to_home_cache() {
    let fs = MemFs::default().file("/kernel/.kw/env.current", "minix\n");
    let env = env_with(None, Some("/home/user"));
    assert_eq!(
        Ok(Some("/home/user/.cache/kw/envs/L2tlcm5lbA==/minix".to_string())),
        resolve_output_dir(&fs, &env, "/kernel")
    );
}

#[test]
fn resolve_output_dir_treats_empty_xdg_cache_home_as_unset() {
    let fs = MemFs::default().file("/kernel/.kw/env.current", "minix\n");
    let env = env_with(Some(""), Some("/home/user"));
    assert_eq!(
        Ok(Some("/home/user/.cache/kw/envs/L2tlcm5lbA==/minix".to_string())),
        resolve_output_dir(&fs, &env, "/kernel")
    );
}

#[test]
fn resolve_output_dir_trims_trailing_slashes_before_encoding() {
    let fs = MemFs::default().file("/home/user/linux/.kw/env.current", "minix\n");
    let env = env_with(Some("/xdg"), None);
    assert_eq!(
        Ok(Some("/xdg/kw/envs/L2hvbWUvdXNlci9saW51eA==/minix".to_string())),
        resolve_output_dir(&fs, &env, "/home/user/linux/")
    );
}

#[test]
fn resolve_output_dir_empty_env_file_is_inactive() {
    let fs = MemFs::default().file("/kernel/.kw/env.current", "\n");
    assert_eq!(Ok(None), resolve_output_dir(&fs, &env_with(None, None), "/kernel"));
}

#[test]
fn resolve_output_dir_unreadable_env_file_errors() {
    let mut fs = MemFs::default().file("/kernel/.kw/env.current", "minix\n");
    fs.unreadable.insert("/kernel/.kw/env.current".to_string());
    assert!(matches!(
        resolve_output_dir(&fs, &env_with(None, None), "/kernel"),
        Err(KwReadinessError::Fs(_))
    ));
}

#[test]
fn resolve_output_dir_errors_without_any_cache_base() {
    let fs = MemFs::default().file("/kernel/.kw/env.current", "minix\n");
    assert!(matches!(
        resolve_output_dir(&fs, &env_with(None, None), "/kernel"),
        Err(KwReadinessError::Env(_))
    ));
}

#[test]
fn output_dir_of_the_root_encodes_a_single_slash() {
    assert_eq!(
        Ok(Some("/xdg/kw/envs/Lw==/env".to_string())),
        output_dir_for("env", Some("/xdg".to_string()), None, "///")
    );
}

#[test]
fn find_image_with_arch_picks_newest_image_only() {
    let fs = ready_tree("/t")
        .dir("/t/arch/x86")
        .dir("/t/arch/x86/boot")
        .file_at("/t/arch/x86/boot/bzImage", 100)
        .file_at("/t/arch/x86/boot/Image", 200)
        .file_at("/t/arch/x86/boot/vmlinux", 300)
        .file_at("/t/arch/x86/boot/Image.gz", 400);
    assert_eq!(
        Some("/t/arch/x86/boot/Image".to_string()),
        find_newest_kernel_image(&fs, "/t", Some("x86"))
    );
}

#[test]
fn find_image_without_arch_globs_every_boot_dir() {
    let fs = ready_tree("/t")
        .dir("/t/arch/x86")
        .dir("/t/arch/x86/boot")
        .dir("/t/arch/arm64")
        .dir("/t/arch/arm64/boot")
        .file_at("/t/arch/x86/boot/bzImage", 100)
        .file_at("/t/arch/arm64/boot/Image", 200);
    assert_eq!(
        Some("/t/arch/arm64/boot/Image".to_string()),
        find_newest_kernel_image(&fs, "/t", None)
    );
}

#[test]
fn find_image_tie_breaks_by_path_descending_like_kw() {
    let fs = ready_tree("/t")
        .dir("/t/arch/x86")
        .dir("/t/arch/x86/boot")
        .file_at("/t/arch/x86/boot/zImage", 100)
        .file_at("/t/arch/x86/boot/bzImage", 100);
    assert_eq!(
        Some("/t/arch/x86/boot/zImage".to_string()),
        find_newest_kernel_image(&fs, "/t", Some("x86"))
    );
}

#[test]
fn find_image_missing_or_empty_dirs_return_none() {
    let fs = ready_tree("/t");
    assert_eq!(None, find_newest_kernel_image(&fs, "/t", None));
    assert_eq!(None, find_newest_kernel_image(&fs, "/t", Some("x86")));
    let fs = fs
        .dir("/t/arch/x86")
        .dir("/t/arch/x86/boot")
        .file_at("/t/arch/x86/boot/image", 100)
        .file_at("/t/arch/x86/boot/Image.gz", 200);
    assert_eq!(None, find_newest_kernel_image(&fs, "/t", None));
    assert_eq!(None, find_newest_kernel_image(&fs, "/t", Some("x86")));
}

#[test]
fn kernelrelease_reads_and_trims_the_release_file() {
    let fs = ready_tree("/t").file("/t/include/config/kernel.release", "6.17.0-rc1\n");
    assert_eq!(Some("6.17.0-rc1".to_string()), read_kernelrelease(&fs, "/t"));
}

#[test]
fn kernelrelease_is_none_without_a_release_file() {
    assert_eq!(None, read_kernelrelease(&ready_tree("/t"), "/t"));
    let fs = ready_tree("/t").file("/t/include/config/kernel.release", "\n");
    assert_eq!(None, read_kernelrelease(&fs, "/t"));
}

#[test]
fn kw_probe_missing_binary_never_spawns() {
    let env = Env { which: false, xdg: None, home: None };
    let shell = Shell::new(Some(("0.10.0\n", true)));
    let probe = probe_kw_binary(&env, &shell);
    assert!(!probe.available);
    assert_eq!(None, probe.version_line);
    assert_eq!(KwVersionCheck::Unknown, probe.check);
    assert_eq!(0, shell.calls.get());
}

#[test]
fn kw_probe_compares_version_against_floor() {
    for (stdout, expected) in [
        ("0.10.0\n", KwVersionCheck::Meets),
        ("0.10\n", KwVersionCheck::Meets),
        ("1.0\n", KwVersionCheck::Meets),
        ("0.9.9\n", KwVersionCheck::Below("0.9.9".to_string())),
        (
            "beta-0.9\nBranch: master\nCommit: 3575d38\n",
            KwVersionCheck::Below("beta-0.9".to_string()),
        ),
        ("not a version\n", KwVersionCheck::Unknown),
    ] {
        let env = env_with(None, None);
        let shell = Shell::new(Some((stdout, true)));
        let probe = probe_kw_binary(&env, &shell);
        assert!(probe.available, "for version output {stdout:?}");
        assert_eq!(expected, probe.check, "for version output {stdout:?}");
    }
}

#[test]
fn kw_probe_keeps_the_raw_first_line_verbatim() {
    let env = env_with(None, None);
    let shell = Shell::new(Some(("beta-0.9\nBranch: master\nCommit: 3575d38\n", true)));
    let probe = probe_kw_binary(&env, &shell);
    assert_eq!(Some("beta-0.9".to_string()), probe.version_line);
}

#[test]
fn kw_probe_unknown_when_version_is_unreadable() {
    for shell in [
        Shell::new(None),
        Shell::new(Some(("", true))),
        Shell::new(Some(("0.10.0\n", false))),
    ] {
        let env = env_with(None, None);
        let probe = probe_kw_binary(&env, &shell);
        assert!(probe.available);
        assert_eq!(None, probe.version_line);
        assert_eq!(KwVersionCheck::Unknown, probe.check);
    }
}

#[test]
fn version_pairs_are_read_from_the_first_digits() {
    assert_eq!(Some((0, 10)), parse_kw_version("0.10.0"));
    assert_eq!(Some((0, 9)), parse_kw_version("beta-0.9"));
    assert_eq!(Some((12, 3)), parse_kw_version("v12.3rc"));
    assert_eq!(None, parse_kw_version("7"));
    assert_eq!(None, parse_kw_version("1.x"));
    assert_eq!(None, parse_kw_version("no digits"));
}

#[test]
fn deploy_alone_requires_a_successful_build_record() {
    let image = "/t/arch/x86/boot/bzImage";
    assert_eq!(
        Err(DeployAloneRefusal::NoBuildRecord),
        check_deploy_alone(None, "/t", "patchset-x", None, Some(image))
    );
    let mut failed = built_record("/t", "patchset-x");
    failed.success = false;
    assert_eq!(
        Err(DeployAloneRefusal::LastBuildFailed),
        check_deploy_alone(Some(&failed), "/t", "patchset-x", None, Some(image))
    );
}

#[test]
fn deploy_alone_refuses_frankenstein_combinations() {
    let image = "/t/arch/x86/boot/bzImage";
    let record = built_record("/t", "patchset-x");
    assert_eq!(
        Err(DeployAloneRefusal::HeadMismatch {
            recorded: "patchset-x".to_string(),
            current: "master".to_string(),
        }),
        check_deploy_alone(Some(&record), "/t", "master", None, Some(image))
    );
    assert_eq!(
        Err(DeployAloneRefusal::TreePathDrift {
            recorded: "/t".to_string(),
            current: "/elsewhere/linux".to_string(),
        }),
        check_deploy_alone(Some(&record), "/elsewhere/linux", "patchset-x", None, Some(image))
    );
    assert_eq!(
        Err(DeployAloneRefusal::OutputDirMismatch),
        check_deploy_alone(
            Some(&record),
            "/t",
            "patchset-x",
            Some("/cache/kw/envs/xyz/minix"),
            Some(image),
        )
    );
    assert_eq!(
        Err(DeployAloneRefusal::ImageMissing),
        check_deploy_alone(Some(&record), "/t", "patchset-x", None, None)
    );
    assert_eq!(Ok(()), check_deploy_alone(Some(&record), "/t", "patchset-x", None, Some(image)));
    let mut slashed = built_record("/t", "patchset-x");
    slashed.tree_path = "/t/".to_string();
    assert_eq!(Ok(()), check_deploy_alone(Some(&slashed), "/t", "patchset-x", None, Some(image)));
}

#[test]
fn deploy_alone_checks_failure_before_branch_mismatch() {
    let mut failed = built_record("/t", "patchset-x");
    failed.success = false;
    assert_eq!(
        Err(DeployAloneRefusal::LastBuildFailed),
        check_deploy_alone(Some(&failed), "/t", "master", None, None)
    );
}

#[test]
fn evaluate_readiness_composes_all_probes() {
    let fs = ready_tree("/t")
        .file("/t/.kw/build.config", "arch=x86\n")
        .dir("/t/arch/x86")
        .dir("/t/arch/x86/boot")
        .file_at("/t/arch/x86/boot/bzImage", 100);
    let env = env_with(None, None);
    let shell = Shell::new(Some(("0.10.0\n", true)));
    let record = built_record("/t", "patchset-x");
    let readiness = evaluate_readiness(
        &fs,
        &env,
        &shell,
        "/t",
        "patchset-x",
        Ok((Some(record.clone()), Some(record.clone()))),
    )
    .unwrap();
    assert_eq!(TreeReadiness::Ready { arch: Some("x86".to_string()) }, readiness.tree);
    assert_eq!(Some("/t/arch/x86/boot/bzImage".to_string()), readiness.kernel_image);
    assert_eq!(Some(record.clone()), readiness.build_record);
    assert_eq!(Some(record), readiness.latest_build);
    assert_eq!(Ok(()), readiness.deploy_alone);
    assert_eq!(None, readiness.output_dir);
    assert!(readiness.kw_binary.available);
    assert_eq!(KwVersionCheck::Meets, readiness.kw_binary.check);
}

#[test]
fn evaluate_readiness_missing_tree_short_circuits() {
    let env = Env { which: false, xdg: None, home: None };
    let shell = Shell::new(None);
    let readiness =
        evaluate_readiness(&MemFs::default(), &env, &shell, "/t/nope", "patchset-x", Ok((None, None)))
            .unwrap();
    assert_eq!(TreeReadiness::Missing, readiness.tree);
    assert_eq!(None, readiness.kernel_image);
    assert_eq!(None, readiness.build_record);
    assert_eq!(None, readiness.latest_build);
    assert_eq!(Err(DeployAloneRefusal::TreeNotReady(TreeReadiness::Missing)), readiness.deploy_alone);
    assert_eq!(0, shell.calls.get());
}

#[test]
fn evaluate_readiness_without_build_refuses_deploy_alone() {
    let env = Env { which: false, xdg: None, home: None };
    let shell = Shell::new(None);
    let readiness =
        evaluate_readiness(&ready_tree("/t"), &env, &shell, "/t", "patchset-x", Ok((None, None)))
            .unwrap();
    assert_eq!(TreeReadiness::Ready { arch: None }, readiness.tree);
    assert_eq!(None, readiness.kernel_image);
    assert_eq!(None, readiness.build_record);
    assert_eq!(None, readiness.latest_build);
    assert_eq!(Err(DeployAloneRefusal::NoBuildRecord), readiness.deploy_alone);
    assert!(!readiness.kw_binary.available);
}

#[test]
fn evaluate_readiness_reports_a_history_error() {
    let env = Env { which: false, xdg: None, home: None };
    let shell = Shell::new(None);
    let r = evaluate_readiness(&ready_tree("/t"), &env, &shell, "/t", "b", Err("corrupt".to_string()));
    assert_eq!(Some(KwReadinessError::Fs("corrupt".to_string())), r.err());
}

#[test]
fn readiness_messages_explain_the_verdict() {
    assert_eq!("the configured path is not a directory", TreeReadiness::Missing.message());
    assert_eq!(
        "the kernel tree is not ready: kw init was never run in this tree (no .kw/ directory)",
        DeployAloneRefusal::TreeNotReady(TreeReadiness::MissingKwDir).message()
    );
    assert_eq!(
        "the last build was on branch 'a', but HEAD is 'b'; rebuild on the current branch before deploying",
        DeployAloneRefusal::HeadMismatch { recorded: "a".to_string(), current: "b".to_string() }
            .message()
    );
    assert_eq!(
        "filesystem error: cannot read /x",
        KwReadinessError::Fs("cannot read /x".to_string()).message()
    );
}

#[test]
fn tree_verdict_checks_in_kw_order() {
    assert_eq!(TreeReadiness::Missing, tree_verdict(false, true, true, true, None));
    assert_eq!(TreeReadiness::NotAKernelRoot, tree_verdict(true, false, true, true, None));
    assert_eq!(TreeReadiness::MissingKwDir, tree_verdict(true, true, false, true, None));
    assert_eq!(TreeReadiness::MissingKernelConfig, tree_verdict(true, true, true, false, None));
    assert_eq!(
        TreeReadiness::Ready { arch: Some("arm64".to_string()) },
        tree_verdict(true, true, true, true, Some("arm64".to_string()))
    );
}

struct GitBranch {
    out: Option<(bool, &'static str)>,
    seen: std::cell::RefCell<Vec<Vec<String>>>,
}

impl ShellTrait for GitBranch {
    fn execute(&self, cmd: &ShellCommand) -> Option<ShellOutput> {
        self.seen.borrow_mut().push(cmd.args.clone());
        self.out.map(|(success, text)| ShellOutput {
            stdout: text.as_bytes().to_vec(),
            stderr: vec![],
            success,
        })
    }

    fn execute_with_stdin(&self, cmd: &ShellCommand, _stdin: &[u8]) -> Option<ShellOutput> {
        self.execute(cmd)
    }
}

#[test]
fn head_branch_is_the_trimmed_output_of_a_successful_git() {
    let git = GitBranch { out: Some((true, "for-next\n")), seen: Default::default() };
    assert_eq!("for-next", patch_hub::kw::readiness::head_branch(&git, "/home/user/linux"));
    assert_eq!(
        vec!["-C", "/home/user/linux", "branch", "--show-current"],
        git.seen.borrow()[0]
    );
    let failed = GitBranch { out: Some((false, "main\n")), seen: Default::default() };
    assert_eq!("", patch_hub::kw::readiness::head_branch(&failed, "/t"));
    let missing = GitBranch { out: None, seen: Default::default() };
    assert_eq!("", patch_hub::kw::readiness::head_branch(&missing, "/t"));
}
