//! What a preview render takes and gives back.
use vstd::prelude::*;

use crate::render_prefs::{CoverRenderer, PatchRenderer};

verus! {

/// Input needed to render all previews for a patchset.
pub struct RenderPatchsetRequest {
    pub raw_patches: Vec<String>,
    pub patch_renderer: PatchRenderer,
    pub cover_renderer: CoverRenderer,
}

impl RenderPatchsetRequest {
    pub fn new(
        raw_patches: Vec<String>,
        patch_renderer: PatchRenderer,
        cover_renderer: CoverRenderer,
    ) -> (r: Self)
        ensures
            r.raw_patches@ == raw_patches@,
            r.patch_renderer == patch_renderer,
            r.cover_renderer == cover_renderer,
    {
        RenderPatchsetRequest { raw_patches, patch_renderer, cover_renderer }
    }
}

/// Rendered previews for a full patchset.
pub struct RenderedPatchsetPreview {
    pub entries: Vec<RenderedPatchPreview>,
}

impl RenderedPatchsetPreview {
    pub fn new(entries: Vec<RenderedPatchPreview>) -> (r: Self)
        ensures
            r.entries@ == entries@,
    {
        RenderedPatchsetPreview { entries }
    }
}

/// The rendered preview of a single patch or cover letter.
pub struct RenderedPatchPreview {
    pub rendered_text: String,
}

impl RenderedPatchPreview {
    pub fn new(rendered_text: String) -> (r: Self)
        ensures
            r.rendered_text == rendered_text,
    {
        RenderedPatchPreview { rendered_text }
    }
}

} // verus!
