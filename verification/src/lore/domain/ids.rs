//! Identifiers of lore messages.
use vstd::prelude::*;

verus! {

/// A lore message's link.
#[derive(Debug, Clone, PartialEq, Eq)]
pub struct MessageID {
    pub href: String,
}

} // verus!
