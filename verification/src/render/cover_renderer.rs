//! Rendering a patch's cover part for preview.
use vstd::prelude::*;

use crate::infra::{ShellCommand, ShellTrait};
use crate::render_prefs::CoverRenderer;
use crate::text::{str_to_string, utf8_string};

verus! {

/// The messages of a cover renderer that cannot be run or whose output is
/// not UTF-8.
pub open spec fn cover_renderer_failure(m: Seq<char>) -> bool {
    m == "invalid utf-8 from bat"@ || m == "Failed to spawn bat for cover preview"@
}

/// Renders a cover with `bat` as an mbox.
fn bat_cover_renderer<S: ShellTrait>(shell: &S, cover: &str) -> (r: Result<String, String>)
    ensures
        r matches Err(m) ==> cover_renderer_failure(m@),
{
    let cmd = ShellCommand::new("bat").arg("-pp").arg("-f").arg("-l").arg("mbx");
    match shell.execute_with_stdin(&cmd, cover.as_bytes()) {
        Some(out) => match utf8_string(out.stdout) {
            Some(text) => Ok(text),
            None => Err(String::from_str("invalid utf-8 from bat")),
        },
        None => Err(String::from_str("Failed to spawn bat for cover preview")),
    }
}

/// The preview of a cover: the default renderer shows it as is.
pub fn render_cover<S: ShellTrait>(shell: &S, raw: &str, renderer: &CoverRenderer) -> (r: Result<
    String,
    String,
>)
    ensures
        *renderer == CoverRenderer::Default ==> (r matches Ok(s) && s@ == raw@),
        *renderer == CoverRenderer::Bat ==> (r matches Err(m) ==> cover_renderer_failure(m@)),
{
    match renderer {
        CoverRenderer::Default => Ok(str_to_string(raw)),
        CoverRenderer::Bat => bat_cover_renderer(shell, raw),
    }
}

} // verus!
