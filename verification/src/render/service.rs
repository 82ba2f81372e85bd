//! The preview service: one preview per raw patch.
use vstd::prelude::*;

use crate::infra::ShellTrait;
use crate::lore::infrastructure::patchset_parser::{split_cover, split_cover_spec};
use crate::render::cover_renderer::render_cover;
use crate::render::dto::{RenderPatchsetRequest, RenderedPatchPreview, RenderedPatchsetPreview};
use crate::render::patch_renderer::render_patch_preview;
use crate::render_prefs::{CoverRenderer, PatchRenderer};
use crate::text::{chars_of, find_sub, find_sub_exec, replace_char, replace_char_exec, string_from_chars};
use crate::render::cover_renderer::cover_renderer_failure;
use crate::render::patch_renderer::renderer_failure;

verus! {

/// Failure while rendering previews.
#[derive(Debug, Clone, PartialEq, Eq)]
pub enum RenderError {
    ActorUnavailable(String),
}

impl RenderError {
    pub fn message(&self) -> (r: String)
        ensures
            match self {
                RenderError::ActorUnavailable(s) => r@ == "render actor unavailable: "@ + s@,
            },
    {
        match self {
            RenderError::ActorUnavailable(s) => {
                let mut m = String::from_str("render actor unavailable: ");
                m.append(s.as_str());
                m
            },
        }
    }
}

/// Renders each raw patch to the format of the patchset details screen:
/// tabs expanded, cover and diff split and rendered, joined by `---\n`.
pub trait RenderServiceApi {
    fn render_patchset_preview(&self, request: RenderPatchsetRequest) -> Result<
        RenderedPatchsetPreview,
        RenderError,
    >;
}

/// A patch with its tabs expanded to eight spaces.
pub open spec fn expand_tabs(raw: Seq<char>) -> Seq<char> {
    replace_char(raw, '\t', "        "@)
}

/// Whether a patch has the `---` separator between its cover and diff.
pub open spec fn has_separator(patch: Seq<char>) -> bool {
    find_sub(patch, "\n---\n"@) is Some
}

/// A cover part and a diff part joined: a cover split at the separator
/// already ends with the `---` line; without one, `---\n` is put between.
pub open spec fn join_parts(has_sep: bool, cover: Seq<char>, diff: Seq<char>) -> Seq<char> {
    if has_sep {
        cover + diff
    } else {
        cover + "---\n"@ + diff
    }
}

/// A part as rendered: the renderer's text, or the plain part when the
/// renderer failed.
pub open spec fn part_of(rendered: Result<Seq<char>, Seq<char>>, plain: Seq<char>) -> Seq<char> {
    match rendered {
        Ok(t) => t,
        Err(_) => plain,
    }
}

/// The preview of a raw patch (tabs expanded) from what its cover and diff
/// renderers gave.
pub open spec fn preview_from(
    raw: Seq<char>,
    cover: Result<Seq<char>, Seq<char>>,
    diff: Result<Seq<char>, Seq<char>>,
) -> Seq<char> {
    let e = expand_tabs(raw);
    let parts = split_cover_spec(e);
    join_parts(has_separator(e), part_of(cover, parts.0), part_of(diff, parts.1))
}

/// The preview of a raw patch rendered as is.
pub open spec fn plain_preview(raw: Seq<char>) -> Seq<char> {
    let e = expand_tabs(raw);
    let parts = split_cover_spec(e);
    join_parts(has_separator(e), parts.0, parts.1)
}

/// `text` is the preview of `raw` for some answers of its renderers: a
/// default renderer gives the plain part, a failing one falls back to the
/// plain part, and each failure is one of the renderer's messages.
pub open spec fn preview_shape(
    raw: Seq<char>,
    text: Seq<char>,
    patch_renderer: PatchRenderer,
    cover_renderer: CoverRenderer,
) -> bool {
    exists|cover: Result<Seq<char>, Seq<char>>, diff: Result<Seq<char>, Seq<char>>|
        #[trigger] preview_from(raw, cover, diff) == text && renderer_answers(
            raw,
            cover,
            diff,
            patch_renderer,
            cover_renderer,
        )
}

/// What the renderers may have answered for `raw`.
pub open spec fn renderer_answers(
    raw: Seq<char>,
    cover: Result<Seq<char>, Seq<char>>,
    diff: Result<Seq<char>, Seq<char>>,
    patch_renderer: PatchRenderer,
    cover_renderer: CoverRenderer,
) -> bool {
    let parts = split_cover_spec(expand_tabs(raw));
    &&& cover_renderer == CoverRenderer::Default ==> cover == Ok::<Seq<char>, Seq<char>>(parts.0)
    &&& patch_renderer == PatchRenderer::Default ==> diff == Ok::<Seq<char>, Seq<char>>(parts.1)
    &&& cover matches Err(m) ==> cover_renderer_failure(m)
    &&& diff matches Err(m) ==> (match patch_renderer {
        PatchRenderer::Bat => renderer_failure("bat"@, m),
        PatchRenderer::Delta => renderer_failure("delta"@, m),
        PatchRenderer::DiffSoFancy => renderer_failure("diff-so-fancy"@, m),
        PatchRenderer::Default => false,
    })
}

/// The preview service backed by a shell.
pub struct ShellRenderService<S: ShellTrait> {
    shell: S,
}

impl<S: ShellTrait> ShellRenderService<S> {
    /// The shell the renderers run in.
    pub closed spec fn spec_shell(&self) -> S {
        self.shell
    }

    pub fn new(shell: S) -> (r: Self)
        ensures
            r.spec_shell() == shell,
    {
        ShellRenderService { shell }
    }

    /// One preview per raw patch, in order: tabs expanded, cover and diff
    /// rendered and joined by the `---` line (the cover carries it when the
    /// patch had one). A renderer that fails leaves its part plain; with
    /// both renderers at their default every preview is the plain one.
    pub fn render_all(&self, request: RenderPatchsetRequest) -> (r: RenderedPatchsetPreview)
        ensures
            r.entries@.len() == request.raw_patches@.len(),
            forall|i: int|
                0 <= i < r.entries@.len() ==> preview_shape(
                    request.raw_patches@[i]@,
                    #[trigger] r.entries@[i].rendered_text@,
                    request.patch_renderer,
                    request.cover_renderer,
                ),
            request.patch_renderer == PatchRenderer::Default && request.cover_renderer
                == CoverRenderer::Default ==> forall|i: int|
                0 <= i < r.entries@.len() ==> #[trigger] r.entries@[i].rendered_text@
                    == plain_preview(request.raw_patches@[i]@),
    {
        let RenderPatchsetRequest { raw_patches, patch_renderer, cover_renderer } = request;
        let mut previews: Vec<RenderedPatchPreview> = Vec::new();
        let spaces = chars_of("        ");
        let sep_line = chars_of("\n---\n");
        let mut i: usize = 0;
        while i < raw_patches.len()
            invariant
                i <= raw_patches@.len(),
                previews@.len() == i,
                spaces@ == "        "@,
                sep_line@ == "\n---\n"@,
                forall|k: int|
                    0 <= k < i ==> preview_shape(
                        raw_patches@[k]@,
                        #[trigger] previews@[k].rendered_text@,
                        patch_renderer,
                        cover_renderer,
                    ),
                patch_renderer == PatchRenderer::Default && cover_renderer
                    == CoverRenderer::Default ==> forall|k: int|
                    0 <= k < i ==> #[trigger] previews@[k].rendered_text@ == plain_preview(
                        raw_patches@[k]@,
                    ),
            decreases raw_patches.len() - i,
        {
            let raw = chars_of(raw_patches[i].as_str());
            let expanded_chars = replace_char_exec(raw.as_slice(), '\t', spaces.as_slice());
            let expanded = string_from_chars(expanded_chars.as_slice());
            let has_sep = find_sub_exec(expanded_chars.as_slice(), sep_line.as_slice()).is_some();
            let (raw_cover, raw_diff) = split_cover(expanded.as_str());
            let cover_answer = render_cover(&self.shell, raw_cover.as_str(), &cover_renderer);
            let patch_answer = render_patch_preview(&self.shell, raw_diff.as_str(), &patch_renderer);
            let ghost ca = match &cover_answer {
                Ok(t) => Ok::<Seq<char>, Seq<char>>(t@),
                Err(m) => Err::<Seq<char>, Seq<char>>(m@),
            };
            let ghost pa = match &patch_answer {
                Ok(t) => Ok::<Seq<char>, Seq<char>>(t@),
                Err(m) => Err::<Seq<char>, Seq<char>>(m@),
            };
            let rendered_cover = match cover_answer {
                Ok(render) => render,
                Err(_) => raw_cover.clone(),
            };
            let rendered_patch = match patch_answer {
                Ok(render) => render,
                Err(_) => raw_diff.clone(),
            };
            let ghost c = rendered_cover@;
            let ghost d = rendered_patch@;
            let mut text = rendered_cover;
            if !has_sep {
                text.append("---\n");
            }
            text.append(rendered_patch.as_str());
            assert(text@ == preview_from(raw_patches@[i as int]@, ca, pa));
            assert(renderer_answers(raw_patches@[i as int]@, ca, pa, patch_renderer, cover_renderer));
            let ghost before = previews@;
            previews.push(RenderedPatchPreview::new(text));
            assert(previews@[i as int].rendered_text@ == preview_from(raw_patches@[i as int]@, ca, pa));
            assert(preview_shape(
                raw_patches@[i as int]@,
                previews@[i as int].rendered_text@,
                patch_renderer,
                cover_renderer,
            ));
            i += 1;
        }
        RenderedPatchsetPreview::new(previews)
    }
}

impl<S: ShellTrait> RenderServiceApi for ShellRenderService<S> {
    fn render_patchset_preview(&self, request: RenderPatchsetRequest) -> (r: Result<
        RenderedPatchsetPreview,
        RenderError,
    >)
        ensures
            r matches Ok(p) && p.entries@.len() == request.raw_patches@.len() && (forall|i: int|
                0 <= i < p.entries@.len() ==> preview_shape(
                    request.raw_patches@[i]@,
                    #[trigger] p.entries@[i].rendered_text@,
                    request.patch_renderer,
                    request.cover_renderer,
                )) && (request.patch_renderer == PatchRenderer::Default && request.cover_renderer
                == CoverRenderer::Default ==> forall|i: int|
                0 <= i < p.entries@.len() ==> #[trigger] p.entries@[i].rendered_text@
                    == plain_preview(request.raw_patches@[i]@)),
    {
        Ok(self.render_all(request))
    }
}

} // verus!
