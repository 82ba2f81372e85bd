//! What the lore service hands to the UI.
use vstd::prelude::*;

use crate::lore::domain::patch::{Author, Patch};

verus! {

/// The review trailers of a patch's cover part: who reviewed, tested and
/// acked it, each person once, in order of appearance.
#[derive(Debug, Clone, PartialEq, Eq)]
pub struct PatchTagSummary {
    pub reviewed_by: Vec<Author>,
    pub tested_by: Vec<Author>,
    pub acked_by: Vec<Author>,
}

/// Everything needed to show and act on a patchset.
pub struct PatchsetDetails {
    pub representative_patch: Patch,
    /// Path of the downloaded `.mbx` file (needed for `git am`).
    pub patchset_path: String,
    /// Raw text of each patch (cover letter first, if present).
    pub raw_patches: Vec<String>,
    /// Per-patch tag summary (same length and order as `raw_patches`).
    pub tag_summary: Vec<PatchTagSummary>,
}

} // verus!
