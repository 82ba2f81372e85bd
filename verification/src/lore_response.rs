//! The patch feed as lore answers it.
use vstd::prelude::*;

use crate::patch::Patch;

verus! {

#[derive(Debug)]
pub struct LoreResponse {
    patches: Vec<Patch>,
}

impl LoreResponse {
    pub fn new(patches: Vec<Patch>) -> (r: LoreResponse)
        ensures
            r.spec_patches() == patches@,
    {
        LoreResponse { patches }
    }

    pub closed spec fn spec_patches(&self) -> Seq<Patch> {
        self.patches@
    }

    /// The patches of the response, in feed order.
    pub fn get_patches(self) -> (r: Vec<Patch>)
        ensures
            r@ == self.spec_patches(),
    {
        self.patches
    }
}

} // verus!
