//! The lore domain: patches, their metadata, and the patch feed index.
pub mod ids;
pub mod patch;
pub mod patchset;
