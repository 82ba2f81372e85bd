//! Patches of lore's Atom feed with 32-bit series numbers, and the feed
//! page they come in.
use vstd::prelude::*;

use crate::kw::status::opt_string_view;
use crate::lore::domain::ids::MessageID as DomainMessageID;
use crate::lore::domain::patch::{
    number_digits, number_or, read_number, read_patch_tag, stripped_title, tag_numbers_fit, tag_of,
    total_digits, version_digits, Author as DomainAuthor, Patch as DomainPatch, PatchModel,
    PatchRegex,
};

verus! {

/// A page of lore's patch feed.
#[derive(Debug, Clone)]
pub struct PatchFeed {
    patches: Vec<Patch>,
}

impl PatchFeed {
    pub fn new(patches: Vec<Patch>) -> (r: PatchFeed)
        ensures
            r.spec_patches() == patches@,
    {
        PatchFeed { patches }
    }

    pub closed spec fn spec_patches(&self) -> Seq<Patch> {
        self.patches@
    }

    /// The patches of the page, in feed order.
    pub fn get_patches(self) -> (r: Vec<Patch>)
        ensures
            r@ == self.spec_patches(),
    {
        self.patches
    }
}

#[derive(Debug, Clone, PartialEq, Eq)]
pub struct Author {
    pub name: String,
    pub email: String,
}

#[derive(Debug, Clone, PartialEq, Eq)]
pub struct MessageID {
    pub href: String,
}

/// A patch as lore's feed lists it. A missing version or series position
/// reads as 1.
#[derive(Debug, Clone, PartialEq)]
pub struct Patch {
    title: String,
    version: u32,
    number_in_series: u32,
    total_in_series: u32,
    author: Author,
    message_id: MessageID,
    in_reply_to: Option<MessageID>,
    updated: String,
}

impl Patch {
    pub closed spec fn spec_title(&self) -> Seq<char> {
        self.title@
    }

    pub closed spec fn spec_version(&self) -> nat {
        self.version as nat
    }

    pub closed spec fn spec_number_in_series(&self) -> nat {
        self.number_in_series as nat
    }

    pub closed spec fn spec_total_in_series(&self) -> nat {
        self.total_in_series as nat
    }

    pub closed spec fn spec_author(&self) -> Author {
        self.author
    }

    pub closed spec fn spec_message_id(&self) -> MessageID {
        self.message_id
    }

    pub closed spec fn spec_in_reply_to(&self) -> Option<MessageID> {
        self.in_reply_to
    }

    pub closed spec fn spec_updated(&self) -> Seq<char> {
        self.updated@
    }

    /// Everything that tells two patches apart, as for lore's domain
    /// patches.
    pub open spec fn model(&self) -> PatchModel {
        (
            self.spec_title(),
            self.spec_version(),
            self.spec_number_in_series(),
            self.spec_total_in_series(),
            self.spec_author().name@,
            self.spec_author().email@,
            self.spec_message_id().href@,
            match self.spec_in_reply_to() {
                Some(m) => Some(m.href@),
                None => None,
            },
            self.spec_updated(),
        )
    }

    /// The numbers of a patch fit in 32 bits.
    pub proof fn lemma_model_fits_u32(&self)
        ensures
            self.model().1 <= u32::MAX,
            self.model().2 <= u32::MAX,
            self.model().3 <= u32::MAX,
    {
    }

    /// The same patch with native-width numbers.
    pub fn to_domain(&self) -> (r: DomainPatch)
        ensures
            r.model() == self.model(),
    {
        DomainPatch::from_parts(
            self.title.clone(),
            self.version as usize,
            self.number_in_series as usize,
            self.total_in_series as usize,
            DomainAuthor { name: self.author.name.clone(), email: self.author.email.clone() },
            DomainMessageID { href: self.message_id.href.clone() },
            match &self.in_reply_to {
                Some(m) => Some(DomainMessageID { href: m.href.clone() }),
                None => None,
            },
            self.updated.clone(),
        )
    }

    /// The same patch with 32-bit numbers, for one whose numbers fit.
    pub fn from_domain(p: &DomainPatch) -> (r: Patch)
        requires
            p.model().1 <= u32::MAX,
            p.model().2 <= u32::MAX,
            p.model().3 <= u32::MAX,
        ensures
            r.model() == p.model(),
    {
        Patch {
            title: p.title().clone(),
            version: p.version() as u32,
            number_in_series: p.number_in_series() as u32,
            total_in_series: p.total_in_series() as u32,
            author: Author { name: p.author().name.clone(), email: p.author().email.clone() },
            message_id: MessageID { href: p.message_id().href.clone() },
            in_reply_to: match p.in_reply_to() {
                Some(m) => Some(MessageID { href: m.href.clone() }),
                None => None,
            },
            updated: p.updated().clone(),
        }
    }

    /// A patch that is the only one of its series, in version 1.
    pub fn new(
        title: String,
        author: Author,
        message_id: MessageID,
        in_reply_to: Option<MessageID>,
        updated: String,
    ) -> (r: Patch)
        ensures
            r.spec_title() == title@,
            r.spec_version() == 1,
            r.spec_number_in_series() == 1,
            r.spec_total_in_series() == 1,
            r.spec_author() == author,
            r.spec_message_id() == message_id,
            r.spec_in_reply_to() == in_reply_to,
            r.spec_updated() == updated@,
    {
        Patch {
            title,
            author,
            version: 1,
            number_in_series: 1,
            total_in_series: 1,
            message_id,
            in_reply_to,
            updated,
        }
    }

    /// A patch with every field given; a feed entry read elsewhere is
    /// turned into one by this.
    pub fn from_parts(
        title: String,
        version: u32,
        number_in_series: u32,
        total_in_series: u32,
        author: Author,
        message_id: MessageID,
        in_reply_to: Option<MessageID>,
        updated: String,
    ) -> (r: Patch)
        ensures
            r.spec_title() == title@,
            r.spec_version() == version,
            r.spec_number_in_series() == number_in_series,
            r.spec_total_in_series() == total_in_series,
            r.spec_author() == author,
            r.spec_message_id() == message_id,
            r.spec_in_reply_to() == in_reply_to,
            r.spec_updated() == updated@,
    {
        Patch {
            title,
            version,
            number_in_series,
            total_in_series,
            author,
            message_id,
            in_reply_to,
            updated,
        }
    }

    pub fn get_title(&self) -> (r: &str)
        ensures
            r@ == self.spec_title(),
    {
        self.title.as_str()
    }

    pub fn get_version(&self) -> (r: u32)
        ensures
            r == self.spec_version(),
    {
        self.version
    }

    pub fn get_number_in_series(&self) -> (r: u32)
        ensures
            r == self.spec_number_in_series(),
    {
        self.number_in_series
    }

    pub fn get_total_in_series(&self) -> (r: u32)
        ensures
            r == self.spec_total_in_series(),
    {
        self.total_in_series
    }

    pub fn get_author(&self) -> (r: &Author)
        ensures
            *r == self.spec_author(),
    {
        &self.author
    }

    pub fn get_in_reply_to(&self) -> (r: &Option<MessageID>)
        ensures
            *r == self.spec_in_reply_to(),
    {
        &self.in_reply_to
    }

    pub fn get_updated(&self) -> (r: &str)
        ensures
            r@ == self.spec_updated(),
    {
        self.updated.as_str()
    }

    pub fn get_message_id(&self) -> (r: &MessageID)
        ensures
            *r == self.spec_message_id(),
    {
        &self.message_id
    }

    /// Moves the metadata of the title's tag into the patch: the tag leaves
    /// the title, and the version and series position are read from it
    /// where it has them. A title without a tag changes nothing.
    pub fn update_patch_metadata(&mut self, patch_regex: &PatchRegex)
        requires
            tag_numbers_fit(patch_regex, old(self).spec_title(), u32::MAX as nat),
        ensures
            tag_of(patch_regex, old(self).spec_title()) is None ==> *final(self) == *old(self),
            tag_of(patch_regex, old(self).spec_title()) matches Some(tag) ==> {
                &&& final(self).spec_title() == stripped_title(old(self).spec_title(), tag)
                &&& final(self).spec_version() == number_or(
                    version_digits(patch_regex, tag),
                    old(self).spec_version(),
                )
                &&& final(self).spec_number_in_series() == number_or(
                    number_digits(patch_regex, tag),
                    old(self).spec_number_in_series(),
                )
                &&& final(self).spec_total_in_series() == number_or(
                    total_digits(patch_regex, tag),
                    old(self).spec_total_in_series(),
                )
                &&& final(self).spec_author() == old(self).spec_author()
                &&& final(self).spec_message_id() == old(self).spec_message_id()
                &&& final(self).spec_in_reply_to() == old(self).spec_in_reply_to()
                &&& final(self).spec_updated() == old(self).spec_updated()
            },
    {
        let tag = match read_patch_tag(patch_regex, self.title.as_str()) {
            Some(t) => t,
            None => {
                return;
            },
        };
        let max = u32::MAX as u64;
        let version = read_number(&tag.version, self.version as u64, max);
        let number = read_number(&tag.number_in_series, self.number_in_series as u64, max);
        let total = read_number(&tag.total_in_series, self.total_in_series as u64, max);
        match (version, number, total) {
            (Some(v), Some(n), Some(t)) => {
                self.title = tag.stripped_title;
                self.version = v as u32;
                self.number_in_series = n as u32;
                self.total_in_series = t as u32;
            },
            _ => {},
        }
    }

    /// The metadata update where every number of the tag fits in 32 bits;
    /// otherwise the patch is left as it is and `false` returned.
    pub fn try_update_patch_metadata(&mut self, patch_regex: &PatchRegex) -> (r: bool)
        ensures
            r == tag_numbers_fit(patch_regex, old(self).spec_title(), u32::MAX as nat),
            !r ==> *final(self) == *old(self),
    {
        let fits_all = match read_patch_tag(patch_regex, self.title.as_str()) {
            Some(tag) => {
                let max = u32::MAX as u64;
                read_number(&tag.version, 0, max).is_some() && read_number(
                    &tag.number_in_series,
                    0,
                    max,
                ).is_some() && read_number(&tag.total_in_series, 0, max).is_some()
            },
            None => true,
        };
        if fits_all {
            self.update_patch_metadata(patch_regex);
        }
        fits_all
    }
}

} // verus!
