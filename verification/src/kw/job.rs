//! The kw job machine: which requests are accepted, what a running job
//! remembers, and which status each job event leads to.
//!
//! The application runs the loop: it spawns and kills the kw process and
//! reports back how the process ended; every decision is taken here. At
//! most one job runs at a time, and the published status always describes
//! the job that runs.
use vstd::prelude::*;

use crate::kw::errors::{KwError, KwStartError};
use crate::kw::messages::StartRequest;
use crate::kw::status::{KwJobKind, KwJobStatus, KwPhase, KwStatusSnapshot};
use crate::text::path_join;

verus! {

/// How a job's process ended, as observed by whoever owns the process.
#[derive(Debug, Clone, Copy, PartialEq, Eq)]
pub enum JobOutcome {
    /// The process exited; `code` is `None` when it was killed by a signal.
    Exited { success: bool, code: Option<i32> },
    /// Waiting on the process failed.
    WaitFailed,
    /// The process was killed on request.
    Cancelled,
}

/// What the machine remembers about the running job.
#[derive(Debug, Clone)]
pub struct KwJob {
    pub kind: KwJobKind,
    pub phase: KwPhase,
    pub kernel_tree_id: String,
    pub branch: String,
    pub log_path: String,
    /// Whether a cancel has been asked for; a second request is an
    /// idempotent acknowledgement.
    pub cancel_requested: bool,
}

/// The status published while `job` runs.
pub open spec fn running_status(job: KwJob) -> KwJobStatus {
    KwJobStatus::Running {
        kind: job.kind,
        phase: job.phase,
        kernel_tree_id: job.kernel_tree_id,
        branch: job.branch,
        log_path: job.log_path,
    }
}

/// The status a finished job leaves behind.
pub open spec fn finished_status(job: KwJob, outcome: JobOutcome) -> KwJobStatus {
    match outcome {
        JobOutcome::Exited { success, code } => if success {
            KwJobStatus::Succeeded {
                kind: job.kind,
                kernel_tree_id: job.kernel_tree_id,
                branch: job.branch,
                log_path: job.log_path,
            }
        } else {
            KwJobStatus::Failed {
                kind: job.kind,
                phase: job.phase,
                exit_code: code,
                log_path: job.log_path,
            }
        },
        JobOutcome::WaitFailed => KwJobStatus::Failed {
            kind: job.kind,
            phase: job.phase,
            exit_code: None,
            log_path: job.log_path,
        },
        JobOutcome::Cancelled => KwJobStatus::Cancelled {
            kind: job.kind,
            phase: job.phase,
            log_path: job.log_path,
        },
    }
}

/// Which job starts are accepted: only builds for now, and only while no
/// job runs.
pub open spec fn admits(job: Option<KwJob>, kind: KwJobKind, r: Result<(), KwStartError>) -> bool {
    if kind != KwJobKind::Build {
        r matches Err(KwStartError::NotImplemented)
    } else if job is Some {
        r matches Err(KwStartError::JobAlreadyRunning)
    } else {
        r is Ok
    }
}

/// The job after a cancel request.
pub open spec fn after_cancel(job: Option<KwJob>) -> Option<KwJob> {
    match job {
        Some(j) => Some(
            KwJob {
                kind: j.kind,
                phase: j.phase,
                kernel_tree_id: j.kernel_tree_id,
                branch: j.branch,
                log_path: j.log_path,
                cancel_requested: true,
            },
        ),
        None => None,
    }
}

/// The reply to a cancel request: an error without a job; otherwise
/// whether the kill signal must be sent now (only the first time).
pub open spec fn cancel_reply(job: Option<KwJob>, r: Result<bool, KwError>) -> bool {
    match job {
        Some(j) => r == Ok::<bool, KwError>(!j.cancel_requested),
        None => r matches Err(KwError::NoJobRunning),
    }
}

/// The log file of a build started at `timestamp`.
pub open spec fn build_log_path(dir: Seq<char>, timestamp: Seq<char>) -> Seq<char> {
    path_join(dir, "build-"@ + timestamp + ".log"@)
}

/// The published status shows as running exactly the job that runs.
pub open spec fn tracks(job: Option<KwJob>, status: KwStatusSnapshot) -> bool {
    match job {
        Some(j) => status.job == running_status(j),
        None => !(status.job is Running),
    }
}

/// The job machine: the running job, if any, and the published status.
pub struct KwJobs {
    job: Option<KwJob>,
    status: KwStatusSnapshot,
}

impl KwJobs {
    /// A running job is exactly what the status shows as running.
    #[verifier::type_invariant]
    spec fn inv(self) -> bool {
        tracks(self.job, self.status)
    }

    pub closed spec fn job(&self) -> Option<KwJob> {
        self.job
    }

    pub closed spec fn snapshot(&self) -> KwStatusSnapshot {
        self.status
    }

    /// No job, idle status.
    pub fn new() -> (r: Self)
        ensures
            r.job() is None,
            r.snapshot().job is Idle,
            tracks(r.job(), r.snapshot()),
            r.snapshot().restore_branch is None,
    {
        KwJobs { job: None, status: KwStatusSnapshot::idle() }
    }

    /// The published status.
    pub fn status(&self) -> (r: &KwStatusSnapshot)
        ensures
            *r == self.snapshot(),
    {
        &self.status
    }

    pub fn is_running(&self) -> (r: bool)
        ensures
            r == self.job() is Some,
    {
        self.job.is_some()
    }

    /// Whether a start of `kind` is accepted now. Deploys are refused until
    /// they are supported; a build is refused while a job runs.
    pub fn admit_start(&self, kind: KwJobKind) -> (r: Result<(), KwStartError>)
        ensures
            admits(self.job(), kind, r),
    {
        if kind != KwJobKind::Build {
            return Err(KwStartError::NotImplemented);
        }
        if self.job.is_some() {
            return Err(KwStartError::JobAlreadyRunning);
        }
        Ok(())
    }

    /// Records that an admitted job's process was spawned, logging to
    /// `log_path`, and publishes it as running.
    pub fn job_started(&mut self, kind: KwJobKind, request: &StartRequest, log_path: String)
        requires
            old(self).job() is None,
        ensures
            final(self).job() == Some(
                KwJob {
                    kind,
                    phase: KwPhase::Building,
                    kernel_tree_id: request.kernel_tree_id,
                    branch: request.branch,
                    log_path,
                    cancel_requested: false,
                },
            ),
            final(self).snapshot().job == running_status(final(self).job()->0),
            final(self).snapshot().restore_branch == old(self).snapshot().restore_branch,
            tracks(final(self).job(), final(self).snapshot()),
    {
        let job = KwJob {
            kind,
            phase: KwPhase::Building,
            kernel_tree_id: request.kernel_tree_id.clone(),
            branch: request.branch.clone(),
            log_path,
        cancel_requested: false,
        };
        let status = KwJobStatus::Running {
            kind,
            phase: KwPhase::Building,
            kernel_tree_id: request.kernel_tree_id.clone(),
            branch: request.branch.clone(),
            log_path: job.log_path.clone(),
        };
        let restore_branch = match &self.status.restore_branch {
            Some(b) => Some(b.clone()),
            None => None,
        };
        *self = KwJobs { job: Some(job), status: KwStatusSnapshot { job: status, restore_branch } };
    }

    /// A cancel request: refused without a job, otherwise acknowledged.
    /// The result tells whether the kill signal must be sent now: only the
    /// first request of a job sends it.
    pub fn request_cancel(&mut self) -> (r: Result<bool, KwError>)
        ensures
            cancel_reply(old(self).job(), r),
            final(self).job() == after_cancel(old(self).job()),
            final(self).snapshot() == old(self).snapshot(),
            tracks(final(self).job(), final(self).snapshot()),
    {
        proof {
            use_type_invariant(&*self);
        }
        match &self.job {
            None => Err(KwError::NoJobRunning),
            Some(j) => {
                let send = !j.cancel_requested;
                let job = KwJob {
                    kind: j.kind,
                    phase: j.phase,
                    kernel_tree_id: j.kernel_tree_id.clone(),
                    branch: j.branch.clone(),
                    log_path: j.log_path.clone(),
                    cancel_requested: true,
                };
                let status = self.copy_status();
                *self = KwJobs { job: Some(job), status };
                Ok(send)
            },
        }
    }

    fn copy_status(&self) -> (r: KwStatusSnapshot)
        ensures
            r == self.snapshot(),
    {
        let job = match &self.status.job {
            KwJobStatus::Idle => KwJobStatus::Idle,
            KwJobStatus::Running { kind, phase, kernel_tree_id, branch, log_path } =>
                KwJobStatus::Running {
                kind: *kind,
                phase: *phase,
                kernel_tree_id: kernel_tree_id.clone(),
                branch: branch.clone(),
                log_path: log_path.clone(),
            },
            KwJobStatus::Succeeded { kind, kernel_tree_id, branch, log_path } =>
                KwJobStatus::Succeeded {
                kind: *kind,
                kernel_tree_id: kernel_tree_id.clone(),
                branch: branch.clone(),
                log_path: log_path.clone(),
            },
            KwJobStatus::Failed { kind, phase, exit_code, log_path } => KwJobStatus::Failed {
                kind: *kind,
                phase: *phase,
                exit_code: *exit_code,
                log_path: log_path.clone(),
            },
            KwJobStatus::Cancelled { kind, phase, log_path } => KwJobStatus::Cancelled {
                kind: *kind,
                phase: *phase,
                log_path: log_path.clone(),
            },
        };
        let restore_branch = match &self.status.restore_branch {
            Some(b) => Some(b.clone()),
            None => None,
        };
        KwStatusSnapshot { job, restore_branch }
    }

    /// The job's process ended. Without a job the event is ignored and
    /// `false` returned; otherwise the job is gone and the status tells how
    /// it ended.
    pub fn finish(&mut self, outcome: JobOutcome) -> (r: bool)
        ensures
            r == old(self).job() is Some,
            tracks(final(self).job(), final(self).snapshot()),
            old(self).job() is None ==> final(self).job() is None && final(self).snapshot()
                == old(self).snapshot(),
            old(self).job() matches Some(j) ==> final(self).job() is None,
            old(self).job() matches Some(j) ==> final(self).snapshot().job == finished_status(
                j,
                outcome,
            ),
            old(self).job() is Some ==> final(self).snapshot().restore_branch == old(
                self,
            ).snapshot().restore_branch,
    {
        proof {
            use_type_invariant(&*self);
        }
        let mut taken: Option<KwJob> = None;
        let restore_branch = match &self.status.restore_branch {
            Some(b) => Some(b.clone()),
            None => None,
        };
        match &self.job {
            None => {
                return false;
            },
            Some(j) => {
                taken = Some(
                    KwJob {
                        kind: j.kind,
                        phase: j.phase,
                        kernel_tree_id: j.kernel_tree_id.clone(),
                        branch: j.branch.clone(),
                        log_path: j.log_path.clone(),
                        cancel_requested: j.cancel_requested,
                    },
                );
            },
        }
        let job = match taken {
            Some(j) => j,
            None => {
                return false;
            },
        };
        let status = match outcome {
            JobOutcome::Exited { success, code } => if success {
                KwJobStatus::Succeeded {
                    kind: job.kind,
                    kernel_tree_id: job.kernel_tree_id,
                    branch: job.branch,
                    log_path: job.log_path,
                }
            } else {
                KwJobStatus::Failed {
                    kind: job.kind,
                    phase: job.phase,
                    exit_code: code,
                    log_path: job.log_path,
                }
            },
            JobOutcome::WaitFailed => KwJobStatus::Failed {
                kind: job.kind,
                phase: job.phase,
                exit_code: None,
                log_path: job.log_path,
            },
            JobOutcome::Cancelled => KwJobStatus::Cancelled {
                kind: job.kind,
                phase: job.phase,
                log_path: job.log_path,
            },
        };
        *self = KwJobs { job: None, status: KwStatusSnapshot { job: status, restore_branch } };
        true
    }

    /// Shutting down: a running job's process is killed unless that was
    /// already asked for. Returns whether the kill signal must be sent.
    pub fn shutdown(&mut self) -> (r: bool)
        ensures
            r == (old(self).job() matches Some(j) && !j.cancel_requested),
            tracks(final(self).job(), final(self).snapshot()),
            final(self).job() == after_cancel(old(self).job()),
            final(self).snapshot() == old(self).snapshot(),
    {
        match self.request_cancel() {
            Ok(send) => send,
            Err(_) => false,
        }
    }

    /// Restoring the pre-job branch needs the dirty-worktree check and
    /// `git switch`, which no job records yet: refused.
    pub fn restore_previous_branch(&self) -> (r: Result<(), KwError>)
        ensures
            r matches Err(KwError::NoRecordedBranch),
    {
        Err(KwError::NoRecordedBranch)
    }
}

/// The log file of a build started at `timestamp`, under `dir`.
pub fn build_log_path_for(dir: &str, timestamp: &str) -> (r: String)
    ensures
        r@ == build_log_path(dir@, timestamp@),
{
    let mut name = String::from_str("build-");
    name.append(timestamp);
    name.append(".log");
    crate::text::path_join_exec(dir, name.as_str())
}

// ───────────────────────────── laws ─────────────────────────────

/// While a job runs, every further build is refused as already running.
pub proof fn lemma_single_job(job: Option<KwJob>, r: Result<(), KwStartError>)
    requires
        job is Some,
        admits(job, KwJobKind::Build, r),
    ensures
        r matches Err(KwStartError::JobAlreadyRunning),
{
}

/// Asking twice to cancel changes nothing the second time, and only the
/// first request sends the kill signal.
pub proof fn lemma_cancel_idempotent(job: Option<KwJob>, first: Result<bool, KwError>, second: Result<
    bool,
    KwError,
>)
    requires
        job is Some,
        cancel_reply(job, first),
        cancel_reply(after_cancel(job), second),
    ensures
        after_cancel(after_cancel(job)) == after_cancel(job),
        second == Ok::<bool, KwError>(false),
        first == Ok::<bool, KwError>(!job->0.cancel_requested),
{
}

/// A finished job frees the machine: the next build is admitted, and the
/// status is no longer running.
pub proof fn lemma_finish_frees(j: KwJob, outcome: JobOutcome, r: Result<(), KwStartError>)
    requires
        admits(None, KwJobKind::Build, r),
    ensures
        r is Ok,
        !(finished_status(j, outcome) is Running),
        outcome is Cancelled ==> finished_status(j, outcome) is Cancelled,
        outcome matches JobOutcome::Exited { success, .. } && success ==> finished_status(
            j,
            outcome,
        ) is Succeeded,
{
}

} // verus!
