//! What a job start needs.
use vstd::prelude::*;

verus! {

/// Everything needed to start a job. The tree is resolved by the caller
/// from its configuration.
#[derive(Debug, Clone)]
pub struct StartRequest {
    pub kernel_tree_id: String,
    /// Path of the kernel tree.
    pub tree: String,
    /// Branch the job must run on.
    pub branch: String,
    /// Extra kw CLI tokens, already whitespace-split by the caller.
    /// Reserved options are stripped: patch-hub's own argv wins.
    pub extra_args: Vec<String>,
}

} // verus!
