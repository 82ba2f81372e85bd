//! patch-hub's core logic: kw job orchestration rules, kw config parsing,
//! lore patch metadata and feed pagination, and the text processing they
//! share, each stated and proved with Verus.
use vstd::prelude::*;

pub mod infra;
pub mod kw;
pub mod logger;
pub mod lore;
pub mod lore_api_client;
pub mod lore_response;
pub mod lore_session;
pub mod mailing_list;
pub mod model;
pub mod patch;
pub mod pattern;
pub mod render;
pub mod render_prefs;
pub mod text;

verus! {
} // verus!
