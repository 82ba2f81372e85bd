//! Errors of the kw job machine and of its requests.
use vstd::prelude::*;

use crate::kw::readiness::{readiness_error_message, KwReadinessError};

verus! {

#[derive(Debug, Clone, PartialEq, Eq)]
pub enum KwError {
    ActorUnavailable(String),
    NoJobRunning,
    NoRecordedBranch,
    History(String),
    Readiness(KwReadinessError),
    Shell(String),
}

/// Accept/refuse verdict for a job start. The verdict is always immediate:
/// an accepted job keeps running after the caller has been answered.
#[derive(Debug, Clone, PartialEq, Eq)]
pub enum KwStartError {
    ActorUnavailable(String),
    JobAlreadyRunning,
    NotImplemented,
    Spawn(String),
    Fs(String),
}

pub open spec fn kw_error_message(e: KwError) -> Seq<char> {
    match e {
        KwError::ActorUnavailable(s) => "kw actor unavailable: "@ + s@,
        KwError::NoJobRunning => "no kw job is running"@,
        KwError::NoRecordedBranch => "no pre-job branch was recorded"@,
        KwError::History(s) => "history error: "@ + s@,
        KwError::Readiness(r) => "readiness error: "@ + readiness_error_message(r),
        KwError::Shell(s) => "shell error: "@ + s@,
    }
}

pub open spec fn start_error_message(e: KwStartError) -> Seq<char> {
    match e {
        KwStartError::ActorUnavailable(s) => "kw actor unavailable: "@ + s@,
        KwStartError::JobAlreadyRunning => "a kw job is already running"@,
        KwStartError::NotImplemented => "kw jobs are not supported yet"@,
        KwStartError::Spawn(s) => "failed to spawn the kw process: "@ + s@,
        KwStartError::Fs(s) => "filesystem error: "@ + s@,
    }
}

fn prefixed(prefix: &str, s: &String) -> (r: String)
    ensures
        r@ == prefix@ + s@,
{
    let mut m = String::from_str(prefix);
    m.append(s.as_str());
    m
}

impl KwError {
    pub fn message(&self) -> (r: String)
        ensures
            r@ == kw_error_message(*self),
    {
        match self {
            KwError::ActorUnavailable(s) => prefixed("kw actor unavailable: ", s),
            KwError::NoJobRunning => String::from_str("no kw job is running"),
            KwError::NoRecordedBranch => String::from_str("no pre-job branch was recorded"),
            KwError::History(s) => prefixed("history error: ", s),
            KwError::Readiness(r) => prefixed("readiness error: ", &r.message()),
            KwError::Shell(s) => prefixed("shell error: ", s),
        }
    }
}

impl KwStartError {
    pub fn message(&self) -> (r: String)
        ensures
            r@ == start_error_message(*self),
    {
        match self {
            KwStartError::ActorUnavailable(s) => prefixed("kw actor unavailable: ", s),
            KwStartError::JobAlreadyRunning => String::from_str("a kw job is already running"),
            KwStartError::NotImplemented => String::from_str("kw jobs are not supported yet"),
            KwStartError::Spawn(s) => prefixed("failed to spawn the kw process: ", s),
            KwStartError::Fs(s) => prefixed("filesystem error: ", s),
        }
    }
}

} // verus!
