use patch_hub::kw::status::{deploy_exit_hint, KwJobKind, KwJobStatus, KwPhase, KwStatusSnapshot};

fn running(branch: &str) -> KwStatusSnapshot {
    KwStatusSnapshot {
        job: KwJobStatus::Running {
            kind: KwJobKind::Build,
            phase: KwPhase::Building,
            kernel_tree_id: "mainline".to_string(),
            branch: branch.to_string(),
            log_path: "/tmp/build.log".to_string(),
        },
        restore_branch: Some("master".to_string()),
    }
}

#[test]
fn running_indicator_names_the_phase_and_branch() {
    assert_eq!(
        Some("kw: building patchset-x".to_string()),
        running("patchset-x").running_indicator()
    );
}

#[test]
fn log_path_is_present_for_jobs_with_a_log() {
    assert_eq!(
        Some("/tmp/build.log"),
        running("patchset-x").job.log_path()
    );
    assert_eq!(None, KwJobStatus::Idle.log_path());
}

#[test]
fn terminal_and_idle_status_have_no_global_indicator() {
    assert_eq!(None, KwStatusSnapshot::idle().running_indicator());
    assert_eq!(
        None,
        KwStatusSnapshot {
            job: KwJobStatus::Succeeded {
                kind: KwJobKind::Build,
                kernel_tree_id: "mainline".to_string(),
                branch: "patchset-x".to_string(),
                log_path: "/tmp/build.log".to_string(),
            },
            restore_branch: Some("master".to_string()),
        }
        .running_indicator()
    );
    assert_eq!(
        None,
        KwStatusSnapshot {
            job: KwJobStatus::Cancelled {
                kind: KwJobKind::Build,
                phase: KwPhase::Building,
                log_path: "/tmp/build.log".to_string(),
            },
            restore_branch: Some("master".to_string()),
        }
        .running_indicator()
    );
}

#[test]
fn deploy_exit_hint_names_the_known_deploy_codes() {
    let cases = [
        (2, "kernel image not found"),
        (22, "invalid option or kernel name"),
        (68, "initramfs generation reported errors"),
        (95, "unsupported bootloader"),
        (101, "SSH unreachable after setup"),
        (103, "passwordless root SSH setup failed"),
        (
            124,
            "deploy cancelled, no valid kernel image, or not a kernel root",
        ),
        (
            125,
            "deploy cancelled, no valid kernel image, or not a kernel root",
        ),
    ];
    for (code, hint) in cases {
        assert_eq!(Some(hint), deploy_exit_hint(code), "code {code}");
    }
}

#[test]
fn deploy_exit_hint_leaves_unknown_codes_unnamed() {
    assert_eq!(None, deploy_exit_hint(30));
    assert_eq!(None, deploy_exit_hint(1));
    assert_eq!(None, deploy_exit_hint(0));
}

#[test]
fn deploying_phase_is_named_in_the_indicator() {
    let snapshot = KwStatusSnapshot {
        job: KwJobStatus::Running {
            kind: KwJobKind::Deploy,
            phase: KwPhase::Deploying,
            kernel_tree_id: "mainline".to_string(),
            branch: "b".to_string(),
            log_path: "/l".to_string(),
        },
        restore_branch: None,
    };
    assert_eq!(Some("kw: deploying b".to_string()), snapshot.running_indicator());
}

#[test]
fn failed_status_keeps_its_log_path() {
    let failed = KwJobStatus::Failed {
        kind: KwJobKind::Build,
        phase: KwPhase::Building,
        exit_code: Some(2),
        log_path: "/tmp/failed.log".to_string(),
    };
    assert_eq!(Some("/tmp/failed.log"), failed.log_path());
}
