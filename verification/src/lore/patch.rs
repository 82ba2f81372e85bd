//! Patches of lore's feed with native-width series numbers.
pub use crate::lore::domain::patch::{Author, MessageID, Patch, PatchFeed, PatchRegex};
