//! Rendering a patch's diff for preview, by an external program or as is.
use vstd::prelude::*;

use crate::infra::{ShellCommand, ShellTrait};
use crate::render_prefs::PatchRenderer;
use crate::text::{
    chars_of, chars_eq, join, join_exec, lines, lines_of, str_to_string, string_from_chars, trim,
    trim_chars, utf8_string,
};

verus! {

/// The index of the last line before `n` that is the signature delimiter
/// `--` (surrounding whitespace aside).
pub open spec fn last_signature_line(ls: Seq<Seq<char>>, n: int) -> Option<int>
    decreases n,
{
    if n <= 0 || n > ls.len() {
        None
    } else if trim(ls[n - 1]) == "--"@ {
        Some(n - 1)
    } else {
        last_signature_line(ls, n - 1)
    }
}

/// A patch ready for a diff renderer: cut before its trailing signature
/// delimiter (the last `--` line), which renderers would show as a
/// deletion; unchanged without one. A removed line that shows as `--`
/// earlier in the diff is kept.
pub open spec fn clean_patch(patch: Seq<char>) -> Seq<char> {
    let ls = lines(patch);
    match last_signature_line(ls, ls.len() as int) {
        Some(k) => join(ls.take(k), "\n"@),
        None => patch,
    }
}

/// Cleans a patch before rendering it for preview.
pub fn clean_patch_for_preview(patch: &str) -> (r: String)
    ensures
        r@ == clean_patch(patch@),
{
    let cs = chars_of(patch);
    let ls = lines_of(cs.as_slice());
    let ghost all = lines(cs@);
    let dashes = chars_of("--");
    let mut i: usize = ls.len();
    let mut found = false;
    while i > 0 && !found
        invariant
            i <= ls@.len(),
            ls@.len() == all.len(),
            forall|k: int| 0 <= k < ls@.len() ==> #[trigger] ls@[k]@ == all[k],
            dashes@ == "--"@,
            !found ==> last_signature_line(all, all.len() as int) == last_signature_line(
                all,
                i as int,
            ),
            found ==> 0 < i <= ls@.len() && last_signature_line(all, all.len() as int) == Some(
                i - 1,
            ),
        decreases i + (if found { 0int } else { 1int }),
    {
        let t = trim_chars(ls[i - 1].as_slice());
        if chars_eq(t.as_slice(), dashes.as_slice()) {
            found = true;
        } else {
            i -= 1;
        }
    }
    if found {
        let k = i - 1;
        let nl = chars_of("\n");
        let joined = join_exec(&ls, k, nl.as_slice());
        assert(ls@.take(k as int).map_values(|v: Vec<char>| v@) =~= all.take(k as int));
        string_from_chars(joined.as_slice())
    } else {
        str_to_string(patch)
    }
}

/// The messages of a renderer that cannot be run or whose output is not
/// UTF-8.
pub open spec fn renderer_failure(program: Seq<char>, m: Seq<char>) -> bool {
    m == "invalid utf-8 from "@ + program || m == "Failed to spawn "@ + program
        + " for patch preview"@
}

/// Runs a renderer on the cleaned patch and takes its output as text.
fn run_renderer<S: ShellTrait>(shell: &S, cmd: ShellCommand, patch: &str, program: &str) -> (r:
    Result<String, String>)
    ensures
        r matches Err(m) ==> renderer_failure(program@, m@),
{
    let cleaned = clean_patch_for_preview(patch);
    match shell.execute_with_stdin(&cmd, cleaned.as_str().as_bytes()) {
        Some(out) => match utf8_string(out.stdout) {
            Some(text) => Ok(text),
            None => {
                let mut m = String::from_str("invalid utf-8 from ");
                m.append(program);
                Err(m)
            },
        },
        None => {
            let mut m = String::from_str("Failed to spawn ");
            m.append(program);
            m.append(" for patch preview");
            Err(m)
        },
    }
}

/// Renders a patch with `bat`.
fn bat_patch_renderer<S: ShellTrait>(shell: &S, patch: &str) -> (r: Result<String, String>)
    ensures
        r matches Err(m) ==> renderer_failure("bat"@, m@),
{
    let cmd = ShellCommand::new("bat").arg("-pp").arg("-f").arg("-l").arg("patch");
    run_renderer(shell, cmd, patch, "bat")
}

/// Renders a patch with `delta`.
fn delta_patch_renderer<S: ShellTrait>(shell: &S, patch: &str) -> (r: Result<String, String>)
    ensures
        r matches Err(m) ==> renderer_failure("delta"@, m@),
{
    let cmd = ShellCommand::new("delta").arg("--pager").arg("less").arg("--no-gitconfig").arg(
        "--paging",
    ).arg("never").arg("-w").arg("130");
    run_renderer(shell, cmd, patch, "delta")
}

/// Renders a patch with `diff-so-fancy`.
fn diff_so_fancy_renderer<S: ShellTrait>(shell: &S, patch: &str) -> (r: Result<String, String>)
    ensures
        r matches Err(m) ==> renderer_failure("diff-so-fancy"@, m@),
{
    let cmd = ShellCommand::new("diff-so-fancy");
    run_renderer(shell, cmd, patch, "diff-so-fancy")
}

/// The preview of a patch's diff: the default renderer shows it as is; the
/// others run their program on the cleaned patch.
pub fn render_patch_preview<S: ShellTrait>(shell: &S, raw: &str, renderer: &PatchRenderer) -> (r:
    Result<String, String>)
    ensures
        *renderer == PatchRenderer::Default ==> (r matches Ok(s) && s@ == raw@),
        *renderer == PatchRenderer::Bat ==> (r matches Err(m) ==> renderer_failure("bat"@, m@)),
        *renderer == PatchRenderer::Delta ==> (r matches Err(m) ==> renderer_failure("delta"@, m@)),
        *renderer == PatchRenderer::DiffSoFancy ==> (r matches Err(m) ==> renderer_failure(
            "diff-so-fancy"@,
            m@,
        )),
{
    match renderer {
        PatchRenderer::Default => Ok(str_to_string(raw)),
        PatchRenderer::Bat => bat_patch_renderer(shell, raw),
        PatchRenderer::Delta => delta_patch_renderer(shell, raw),
        PatchRenderer::DiffSoFancy => diff_so_fancy_renderer(shell, raw),
    }
}

} // verus!
