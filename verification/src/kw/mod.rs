//! kw integration: argv construction, remote resolution, readiness probes,
//! apply history and the job state machine.
pub mod argv;
pub mod errors;
pub mod history;
pub mod job;
pub mod messages;
pub mod readiness;
pub mod remote;
pub mod status;
