//! Which external program renders patch and cover previews.
use vstd::prelude::*;

use crate::text::str_eq;

verus! {

#[derive(Debug, Clone, Copy, PartialEq, Eq, Structural)]
pub enum PatchRenderer {
    Default,
    Bat,
    Delta,
    DiffSoFancy,
}

#[derive(Debug, Clone, Copy, PartialEq, Eq, Structural)]
pub enum CoverRenderer {
    Default,
    Bat,
}

/// The renderer a configuration value names; anything unknown is the
/// default.
pub open spec fn patch_renderer_named(v: Seq<char>) -> PatchRenderer {
    if v == "bat"@ {
        PatchRenderer::Bat
    } else if v == "delta"@ {
        PatchRenderer::Delta
    } else if v == "diff-so-fancy"@ {
        PatchRenderer::DiffSoFancy
    } else {
        PatchRenderer::Default
    }
}

pub open spec fn cover_renderer_named(v: Seq<char>) -> CoverRenderer {
    if v == "bat"@ {
        CoverRenderer::Bat
    } else {
        CoverRenderer::Default
    }
}

pub open spec fn patch_renderer_name(r: PatchRenderer) -> Seq<char> {
    match r {
        PatchRenderer::Default => "default"@,
        PatchRenderer::Bat => "bat"@,
        PatchRenderer::Delta => "delta"@,
        PatchRenderer::DiffSoFancy => "diff-so-fancy"@,
    }
}

pub open spec fn cover_renderer_name(r: CoverRenderer) -> Seq<char> {
    match r {
        CoverRenderer::Default => "default"@,
        CoverRenderer::Bat => "bat"@,
    }
}

/// Naming a renderer and reading the name back gives the same renderer.
pub proof fn lemma_renderer_names_round_trip(p: PatchRenderer, c: CoverRenderer)
    ensures
        patch_renderer_named(patch_renderer_name(p)) == p,
        cover_renderer_named(cover_renderer_name(c)) == c,
{
    reveal_strlit("default");
    reveal_strlit("bat");
    reveal_strlit("delta");
    reveal_strlit("diff-so-fancy");
    assert("default"@.len() == 7 && "bat"@.len() == 3 && "delta"@.len() == 5
        && "diff-so-fancy"@.len() == 13);
    assert("default"@ != "bat"@ && "default"@ != "delta"@ && "default"@ != "diff-so-fancy"@);
    assert("bat"@ != "delta"@ && "bat"@ != "diff-so-fancy"@ && "delta"@ != "diff-so-fancy"@);
}

impl PatchRenderer {
    /// The renderer a configuration value names.
    pub fn from_name(value: &str) -> (r: Self)
        ensures
            r == patch_renderer_named(value@),
    {
        if str_eq(value, "bat") {
            PatchRenderer::Bat
        } else if str_eq(value, "delta") {
            PatchRenderer::Delta
        } else if str_eq(value, "diff-so-fancy") {
            PatchRenderer::DiffSoFancy
        } else {
            PatchRenderer::Default
        }
    }

    /// The configuration value naming the renderer.
    pub fn name(&self) -> (r: &'static str)
        ensures
            r@ == patch_renderer_name(*self),
    {
        match self {
            PatchRenderer::Default => "default",
            PatchRenderer::Bat => "bat",
            PatchRenderer::Delta => "delta",
            PatchRenderer::DiffSoFancy => "diff-so-fancy",
        }
    }
}

impl CoverRenderer {
    /// The renderer a configuration value names.
    pub fn from_name(value: &str) -> (r: Self)
        ensures
            r == cover_renderer_named(value@),
    {
        if str_eq(value, "bat") {
            CoverRenderer::Bat
        } else {
            CoverRenderer::Default
        }
    }

    /// The configuration value naming the renderer.
    pub fn name(&self) -> (r: &'static str)
        ensures
            r@ == cover_renderer_name(*self),
    {
        match self {
            CoverRenderer::Default => "default",
            CoverRenderer::Bat => "bat",
        }
    }
}

impl Default for PatchRenderer {
    fn default() -> (r: Self)
        ensures
            r == PatchRenderer::Default,
    {
        PatchRenderer::Default
    }
}

impl Default for CoverRenderer {
    fn default() -> (r: Self)
        ensures
            r == CoverRenderer::Default,
    {
        CoverRenderer::Default
    }
}

impl<'a> From<&'a str> for PatchRenderer {
    fn from(value: &'a str) -> (r: Self) {
        PatchRenderer::from_name(value)
    }
}

impl<'a> vstd::std_specs::convert::FromSpecImpl<&'a str> for PatchRenderer {
    open spec fn obeys_from_spec() -> bool {
        true
    }

    open spec fn from_spec(v: &'a str) -> Self {
        patch_renderer_named(v@)
    }
}

impl From<String> for PatchRenderer {
    fn from(value: String) -> (r: Self) {
        PatchRenderer::from_name(value.as_str())
    }
}

impl vstd::std_specs::convert::FromSpecImpl<String> for PatchRenderer {
    open spec fn obeys_from_spec() -> bool {
        true
    }

    open spec fn from_spec(v: String) -> Self {
        patch_renderer_named(v@)
    }
}

impl<'a> From<&'a str> for CoverRenderer {
    fn from(value: &'a str) -> (r: Self) {
        CoverRenderer::from_name(value)
    }
}

impl<'a> vstd::std_specs::convert::FromSpecImpl<&'a str> for CoverRenderer {
    open spec fn obeys_from_spec() -> bool {
        true
    }

    open spec fn from_spec(v: &'a str) -> Self {
        cover_renderer_named(v@)
    }
}

impl From<String> for CoverRenderer {
    fn from(value: String) -> (r: Self) {
        CoverRenderer::from_name(value.as_str())
    }
}

impl vstd::std_specs::convert::FromSpecImpl<String> for CoverRenderer {
    open spec fn obeys_from_spec() -> bool {
        true
    }

    open spec fn from_spec(v: String) -> Self {
        cover_renderer_named(v@)
    }
}

} // verus!
