//! Status snapshot projected out of the kw job machine.
//!
//! The application never owns job state; it reads these snapshots and
//! projects them into its view model.
use vstd::prelude::*;

verus! {

#[derive(Debug, Clone, Copy, PartialEq, Eq, Structural)]
pub enum KwJobKind {
    Build,
    Deploy,
    BuildThenDeploy,
}

/// Running phase of a job. `BuildThenDeploy` jobs pass through both.
#[derive(Debug, Clone, Copy, PartialEq, Eq, Structural)]
pub enum KwPhase {
    Building,
    Deploying,
}

#[derive(Debug, Clone, PartialEq, Eq)]
pub enum KwJobStatus {
    Idle,
    Running {
        kind: KwJobKind,
        phase: KwPhase,
        kernel_tree_id: String,
        branch: String,
        log_path: String,
    },
    Succeeded { kind: KwJobKind, kernel_tree_id: String, branch: String, log_path: String },
    Failed { kind: KwJobKind, phase: KwPhase, exit_code: Option<i32>, log_path: String },
    Cancelled { kind: KwJobKind, phase: KwPhase, log_path: String },
}

#[derive(Debug, Clone, PartialEq, Eq)]
pub struct KwStatusSnapshot {
    pub job: KwJobStatus,
    /// Pre-job branch the last accepted job can restore to, if any.
    pub restore_branch: Option<String>,
}

/// The word the navigation bar uses for a phase.
pub open spec fn phase_word(phase: KwPhase) -> Seq<char> {
    match phase {
        KwPhase::Building => "building"@,
        KwPhase::Deploying => "deploying"@,
    }
}

/// The log file of a status, if it has one.
pub open spec fn status_log_path(job: KwJobStatus) -> Option<Seq<char>> {
    match job {
        KwJobStatus::Idle => None,
        KwJobStatus::Running { log_path, .. } => Some(log_path@),
        KwJobStatus::Succeeded { log_path, .. } => Some(log_path@),
        KwJobStatus::Failed { log_path, .. } => Some(log_path@),
        KwJobStatus::Cancelled { log_path, .. } => Some(log_path@),
    }
}

/// The navigation-bar line for a snapshot: only a running job has one.
pub open spec fn indicator_of(job: KwJobStatus) -> Option<Seq<char>> {
    match job {
        KwJobStatus::Running { phase, branch, .. } => Some(
            "kw: "@ + phase_word(phase) + " "@ + branch@,
        ),
        _ => None,
    }
}

pub open spec fn opt_str_view(o: Option<&str>) -> Option<Seq<char>> {
    match o {
        Some(s) => Some(s@),
        None => None,
    }
}

pub open spec fn opt_string_view(o: Option<String>) -> Option<Seq<char>> {
    match o {
        Some(s) => Some(s@),
        None => None,
    }
}

/// The hint for a known `kw deploy` exit code.
pub open spec fn exit_hint(code: int) -> Option<Seq<char>> {
    if code == 2 {
        Some("kernel image not found"@)
    } else if code == 22 {
        Some("invalid option or kernel name"@)
    } else if code == 68 {
        Some("initramfs generation reported errors"@)
    } else if code == 95 {
        Some("unsupported bootloader"@)
    } else if code == 101 {
        Some("SSH unreachable after setup"@)
    } else if code == 103 {
        Some("passwordless root SSH setup failed"@)
    } else if code == 124 || code == 125 {
        Some("deploy cancelled, no valid kernel image, or not a kernel root"@)
    } else {
        None
    }
}

impl KwStatusSnapshot {
    pub fn idle() -> (r: Self)
        ensures
            r.job is Idle,
            r.restore_branch is None,
    {
        KwStatusSnapshot { job: KwJobStatus::Idle, restore_branch: None }
    }

    /// Compact navigation-bar copy for a job that is still running. Terminal
    /// success or failure is not shown globally.
    pub fn running_indicator(&self) -> (r: Option<String>)
        ensures
            opt_string_view(r) == indicator_of(self.job),
    {
        match &self.job {
            KwJobStatus::Running { phase, branch, .. } => {
                let word = match phase {
                    KwPhase::Building => "building",
                    KwPhase::Deploying => "deploying",
                };
                let mut s = String::from_str("kw: ");
                s.append(word);
                s.append(" ");
                s.append(branch.as_str());
                Some(s)
            },
            _ => None,
        }
    }
}

impl KwJobStatus {
    /// Log file for the current or last job, if one was opened.
    pub fn log_path(&self) -> (r: Option<&str>)
        ensures
            opt_str_view(r) == status_log_path(*self),
    {
        match self {
            KwJobStatus::Idle => None,
            KwJobStatus::Running { log_path, .. } => Some(log_path.as_str()),
            KwJobStatus::Succeeded { log_path, .. } => Some(log_path.as_str()),
            KwJobStatus::Failed { log_path, .. } => Some(log_path.as_str()),
            KwJobStatus::Cancelled { log_path, .. } => Some(log_path.as_str()),
        }
    }
}

/// Human-readable hint for a known `kw deploy` exit code. Unknown codes
/// return `None` so the caller can still show the raw number.
pub fn deploy_exit_hint(code: i32) -> (r: Option<&'static str>)
    ensures
        opt_str_view(r) == exit_hint(code as int),
{
    if code == 2 {
        Some("kernel image not found")
    } else if code == 22 {
        Some("invalid option or kernel name")
    } else if code == 68 {
        Some("initramfs generation reported errors")
    } else if code == 95 {
        Some("unsupported bootloader")
    } else if code == 101 {
        Some("SSH unreachable after setup")
    } else if code == 103 {
        Some("passwordless root SSH setup failed")
    } else if code == 124 || code == 125 {
        Some("deploy cancelled, no valid kernel image, or not a kernel root")
    } else {
        None
    }
}

} // verus!
