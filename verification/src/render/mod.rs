//! Patch and cover previews, rendered by external programs (`bat`,
//! `delta`, `diff-so-fancy`) or shown as they are.
pub mod cover_renderer;
pub mod dto;
pub mod patch_renderer;
pub mod service;

pub use dto::{RenderPatchsetRequest, RenderedPatchPreview, RenderedPatchsetPreview};
pub use service::{RenderError, RenderServiceApi, ShellRenderService};
