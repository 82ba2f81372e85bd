use patch_hub::kw::errors::{KwError, KwStartError};
use patch_hub::kw::job::{build_log_path_for, JobOutcome, KwJobs};
use patch_hub::kw::messages::StartRequest;
use patch_hub::kw::status::{KwJobKind, KwJobStatus, KwPhase};

fn request() -> StartRequest {
    StartRequest {
        kernel_tree_id: "mainline".to_string(),
        tree: "/home/user/linux".to_string(),
        branch: "patchset-2026-08-01-17-30-00".to_string(),
        extra_args: Vec::new(),
    }
}

fn started() -> KwJobs {
    let mut jobs = KwJobs::new();
    assert_eq!(Ok(()), jobs.admit_start(KwJobKind::Build));
    jobs.job_started(KwJobKind::Build, &request(), "/logs/build-1.log".to_string());
    jobs
}

#[test]
fn get_status_reports_idle_before_any_job() {
    let jobs = KwJobs::new();
    assert_eq!(KwJobStatus::Idle, jobs.status().job);
    assert!(!jobs.is_running());
}

#[test]
fn started_build_is_published_as_running() {
    let jobs = started();
    assert!(jobs.is_running());
    assert_eq!(
        KwJobStatus::Running {
            kind: KwJobKind::Build,
            phase: KwPhase::Building,
            kernel_tree_id: "mainline".to_string(),
            branch: "patchset-2026-08-01-17-30-00".to_string(),
            log_path: "/logs/build-1.log".to_string(),
        },
        jobs.status().job
    );
}

#[test]
fn second_start_while_running_is_refused() {
    let jobs = started();
    assert_eq!(
        Err(KwStartError::JobAlreadyRunning),
        jobs.admit_start(KwJobKind::Build)
    );
}

#[test]
fn start_deploy_still_refused_until_the_deploy_step() {
    let jobs = KwJobs::new();
    assert_eq!(
        Err(KwStartError::NotImplemented),
        jobs.admit_start(KwJobKind::Deploy)
    );
    assert_eq!(
        Err(KwStartError::NotImplemented),
        jobs.admit_start(KwJobKind::BuildThenDeploy)
    );
}

#[test]
fn failed_build_reports_exit_code_and_log_path() {
    let mut jobs = started();
    assert!(jobs.finish(JobOutcome::Exited { success: false, code: Some(2) }));
    assert_eq!(
        KwJobStatus::Failed {
            kind: KwJobKind::Build,
            phase: KwPhase::Building,
            exit_code: Some(2),
            log_path: "/logs/build-1.log".to_string(),
        },
        jobs.status().job
    );
    assert!(!jobs.is_running());
    assert_eq!(Ok(()), jobs.admit_start(KwJobKind::Build));
}

#[test]
fn successful_build_reports_succeeded() {
    let mut jobs = started();
    assert!(jobs.finish(JobOutcome::Exited { success: true, code: Some(0) }));
    assert_eq!(
        KwJobStatus::Succeeded {
            kind: KwJobKind::Build,
            kernel_tree_id: "mainline".to_string(),
            branch: "patchset-2026-08-01-17-30-00".to_string(),
            log_path: "/logs/build-1.log".to_string(),
        },
        jobs.status().job
    );
}

#[test]
fn wait_failure_reports_failed_without_exit_code() {
    let mut jobs = started();
    assert!(jobs.finish(JobOutcome::WaitFailed));
    assert_eq!(
        KwJobStatus::Failed {
            kind: KwJobKind::Build,
            phase: KwPhase::Building,
            exit_code: None,
            log_path: "/logs/build-1.log".to_string(),
        },
        jobs.status().job
    );
}

#[test]
fn cancel_kills_process_group_and_reports_cancelled() {
    let mut jobs = started();
    assert_eq!(Ok(true), jobs.request_cancel());
    assert_eq!(Ok(false), jobs.request_cancel());
    assert!(jobs.is_running());
    assert!(jobs.finish(JobOutcome::Cancelled));
    assert_eq!(
        KwJobStatus::Cancelled {
            kind: KwJobKind::Build,
            phase: KwPhase::Building,
            log_path: "/logs/build-1.log".to_string(),
        },
        jobs.status().job
    );
}

#[test]
fn cancel_and_restore_without_job_are_immediate_errors() {
    let mut jobs = KwJobs::new();
    assert_eq!(Err(KwError::NoJobRunning), jobs.request_cancel());
    assert_eq!(Err(KwError::NoRecordedBranch), jobs.restore_previous_branch());
}

#[test]
fn shutdown_kills_running_job() {
    let mut jobs = started();
    assert!(jobs.shutdown());
    assert!(!jobs.shutdown());
    let mut idle = KwJobs::new();
    assert!(!idle.shutdown());
}

#[test]
fn finish_without_job_is_ignored() {
    let mut jobs = KwJobs::new();
    assert!(!jobs.finish(JobOutcome::Cancelled));
    assert_eq!(KwJobStatus::Idle, jobs.status().job);
}

#[test]
fn build_log_is_named_after_its_start_time() {
    assert_eq!(
        "/logs/build-20260801-173000.log",
        build_log_path_for("/logs", "20260801-173000")
    );
    assert_eq!(
        "/logs/build-20260801-173000.log",
        build_log_path_for("/logs/", "20260801-173000")
    );
}

#[test]
fn start_errors_explain_themselves() {
    assert_eq!("a kw job is already running", KwStartError::JobAlreadyRunning.message());
    assert_eq!(
        "failed to spawn the kw process: no such file",
        KwStartError::Spawn("no such file".to_string()).message()
    );
    assert_eq!("no kw job is running", KwError::NoJobRunning.message());
    assert_eq!("history error: disk full", KwError::History("disk full".to_string()).message());
}
