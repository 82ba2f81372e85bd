//! Per-screen state.
pub mod bookmarked;
