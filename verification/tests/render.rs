use std::cell::RefCell;

use patch_hub::infra::{ShellCommand, ShellOutput, ShellTrait};
use patch_hub::render::cover_renderer::render_cover;
use patch_hub::render::patch_renderer::{clean_patch_for_preview, render_patch_preview};
use patch_hub::render::{
    RenderError, RenderPatchsetRequest, RenderServiceApi, ShellRenderService,
};
use patch_hub::render_prefs::{CoverRenderer, PatchRenderer};

/// A shell that must not be used.
struct NoSpawn;

impl ShellTrait for NoSpawn {
    fn execute(&self, _cmd: &ShellCommand) -> Option<ShellOutput> {
        panic!("default renderers should not spawn")
    }

    fn execute_with_stdin(&self, _cmd: &ShellCommand, _stdin: &[u8]) -> Option<ShellOutput> {
        panic!("default renderers should not spawn")
    }
}

/// A shell whose programs print what they are fed, upper-cased, and
/// remember the commands.
#[derive(Default)]
struct Upper {
    seen: RefCell<Vec<(String, Vec<String>, String)>>,
}

impl ShellTrait for Upper {
    fn execute(&self, cmd: &ShellCommand) -> Option<ShellOutput> {
        self.execute_with_stdin(cmd, b"")
    }

    fn execute_with_stdin(&self, cmd: &ShellCommand, stdin: &[u8]) -> Option<ShellOutput> {
        let input = String::from_utf8(stdin.to_vec()).unwrap();
        self.seen.borrow_mut().push((cmd.program.clone(), cmd.args.clone(), input.clone()));
        Some(ShellOutput {
            stdout: input.to_uppercase().into_bytes(),
            stderr: vec![],
            success: true,
        })
    }
}

/// A shell where nothing can be spawned.
struct Missing;

impl ShellTrait for Missing {
    fn execute(&self, _cmd: &ShellCommand) -> Option<ShellOutput> {
        None
    }

    fn execute_with_stdin(&self, _cmd: &ShellCommand, _stdin: &[u8]) -> Option<ShellOutput> {
        None
    }
}

#[test]
fn shell_render_service_produces_one_preview_per_patch() {
    let svc = ShellRenderService::new(NoSpawn);
    let raw = vec!["subject\n\nbody\n---\n+line\n".to_string()];
    let request = RenderPatchsetRequest::new(raw, PatchRenderer::Default, CoverRenderer::Default);
    let out = svc.render_patchset_preview(request).expect("default renderers should not spawn");
    assert_eq!(out.entries.len(), 1);
    assert!(out.entries[0].rendered_text.contains("---"));
    assert_eq!("subject\n\nbody\n---\n+line\n", out.entries[0].rendered_text);
}

#[test]
fn default_previews_expand_tabs_and_keep_order() {
    let svc = ShellRenderService::new(NoSpawn);
    let raw = vec!["a\tb\n---\n+\tx\n".to_string(), "no separator".to_string()];
    let out = svc.render_all(RenderPatchsetRequest::new(
        raw,
        PatchRenderer::Default,
        CoverRenderer::Default,
    ));
    assert_eq!(2, out.entries.len());
    assert_eq!("a        b\n---\n+        x\n", out.entries[0].rendered_text);
    assert_eq!("no separator---\n", out.entries[1].rendered_text);
}

#[test]
fn external_renderers_get_the_cleaned_patch() {
    let shell = Upper::default();
    let rendered =
        render_patch_preview(&shell, "+x\n-- \n2.40.0\n", &PatchRenderer::Delta).unwrap();
    assert_eq!("+X", rendered);
    let seen = shell.seen.borrow();
    assert_eq!("delta", seen[0].0);
    assert_eq!(
        vec!["--pager", "less", "--no-gitconfig", "--paging", "never", "-w", "130"],
        seen[0].1
    );
    assert_eq!("+x", seen[0].2);
}

#[test]
fn bat_renders_the_cover_as_mbox() {
    let shell = Upper::default();
    assert_eq!("SUBJECT", render_cover(&shell, "subject", &CoverRenderer::Bat).unwrap());
    assert_eq!(vec!["-pp", "-f", "-l", "mbx"], shell.seen.borrow()[0].1);
}

#[test]
fn failing_renderers_leave_the_part_as_it_was() {
    let svc = ShellRenderService::new(Missing);
    let out = svc.render_all(RenderPatchsetRequest::new(
        vec!["c\n---\nd\n".to_string()],
        PatchRenderer::Bat,
        CoverRenderer::Bat,
    ));
    assert_eq!("c\n---\nd\n", out.entries[0].rendered_text);
    assert_eq!(
        Err("Failed to spawn diff-so-fancy for patch preview".to_string()),
        render_patch_preview(&Missing, "d", &PatchRenderer::DiffSoFancy)
    );
}

#[test]
fn clean_patch_cuts_at_the_signature_delimiter() {
    assert_eq!("a\nb", clean_patch_for_preview("a\nb\n--\nsig\n"));
    assert_eq!("a\n---\nb\n", clean_patch_for_preview("a\n---\nb\n"));
    assert_eq!("", clean_patch_for_preview("  --  \n"));
}

#[test]
fn clean_patch_keeps_removed_lines_that_look_like_the_delimiter() {
    assert_eq!("@@ -1 +1 @@\n--\n+x", clean_patch_for_preview("@@ -1 +1 @@\n--\n+x\n--\n"));
    assert_eq!("+x\n--\n+y", clean_patch_for_preview("+x\n--\n+y\n-- \n2.40.0\n"));
}

#[test]
fn renderer_names_round_trip() {
    for r in [PatchRenderer::Default, PatchRenderer::Bat, PatchRenderer::Delta, PatchRenderer::DiffSoFancy]
    {
        assert_eq!(r, PatchRenderer::from_name(r.name()));
        assert_eq!(r, PatchRenderer::from(r.name().to_string()));
    }
    for r in [CoverRenderer::Default, CoverRenderer::Bat] {
        assert_eq!(r, CoverRenderer::from(r.name()));
    }
    assert_eq!(PatchRenderer::Default, PatchRenderer::from("vim"));
    assert_eq!(CoverRenderer::Default, CoverRenderer::default());
    assert_eq!("render actor unavailable: gone", RenderError::ActorUnavailable("gone".into()).message());
}
