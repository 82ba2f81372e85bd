//! Patches as lore's feed lists them, and the metadata carried in the
//! `[PATCH vN M/T]` tag of their titles.
//!
//! The tag is found, and its numbers picked out, by regular expressions of
//! the `regex` crate; what a match is, is named below and not restated.
//! What the library does with the matches is stated exactly.
use vstd::prelude::*;

pub use crate::lore::domain::ids::MessageID;
use crate::pattern::{
    capture_group, compile_regex, regex_captures, regex_compiles, regex_find, regex_find_text,
    group_of, PatternRegex,
};
use crate::kw::status::opt_string_view;
use crate::text::{
    chars_of, parse_u64, parse_unsigned, replace_all, replace_all_exec, string_from_chars, trim,
    trim_chars,
};

verus! {

// ───────────────────────────── the tag expressions ─────────────────────────────

/// A patch tag: `[...PATCH...]` or `[...RFC...]`, case-insensitively.
pub open spec fn tag_pattern() -> Seq<char> {
    "(?i)\\[[^\\]]*(PATCH|RFC)[^\\[]*\\]"@
}

/// The version in a tag: `v7`, `V 7`.
pub open spec fn version_pattern() -> Seq<char> {
    "[v|V] *(\\d+)"@
}

/// The position in a series: `3/42`, `3 / 42`.
pub open spec fn series_pattern() -> Seq<char> {
    "(\\d+) */ *(\\d+)"@
}

/// The three expressions that read a patch title's tag.
pub struct PatchRegex {
    pub re_patch_tag: PatternRegex,
    pub re_patch_version: PatternRegex,
    pub re_patch_series: PatternRegex,
}

/// Whether the regex crate accepts the tag, version and series
/// expressions.
pub open spec fn patch_regexes_compile() -> bool {
    regex_compiles(tag_pattern()) && regex_compiles(version_pattern()) && regex_compiles(
        series_pattern(),
    )
}

impl PatchRegex {
    /// Compiles the tag, version and series expressions; `None` if the
    /// regex crate refuses one of them.
    pub fn new() -> (r: Option<PatchRegex>)
        ensures
            r is Some <==> regex_compiles(tag_pattern()) && regex_compiles(version_pattern())
                && regex_compiles(series_pattern()),
            r matches Some(x) ==> x.re_patch_tag@ == tag_pattern() && x.re_patch_version@
                == version_pattern() && x.re_patch_series@ == series_pattern(),
    {
        let tag = match compile_regex("(?i)\\[[^\\]]*(PATCH|RFC)[^\\[]*\\]") {
            Some(t) => t,
            None => {
                return None;
            },
        };
        let version = match compile_regex("[v|V] *(\\d+)") {
            Some(v) => v,
            None => {
                return None;
            },
        };
        let series = match compile_regex("(\\d+) */ *(\\d+)") {
            Some(s) => s,
            None => {
                return None;
            },
        };
        Some(PatchRegex { re_patch_tag: tag, re_patch_version: version, re_patch_series: series })
    }
}

// ───────────────────────────── reading the tag ─────────────────────────────

/// The tag of a title, if it has one.
pub open spec fn tag_of(rx: &PatchRegex, title: Seq<char>) -> Option<Seq<char>> {
    regex_find(rx.re_patch_tag@, title)
}

/// The title without its tag: every occurrence of the tag text removed,
/// then trimmed.
pub open spec fn stripped_title(title: Seq<char>, tag: Seq<char>) -> Seq<char> {
    trim(replace_all(title, tag, seq![]))
}

pub open spec fn version_digits(rx: &PatchRegex, tag: Seq<char>) -> Option<Seq<char>> {
    group_of(regex_captures(rx.re_patch_version@, tag), 1)
}

pub open spec fn number_digits(rx: &PatchRegex, tag: Seq<char>) -> Option<Seq<char>> {
    group_of(regex_captures(rx.re_patch_series@, tag), 1)
}

pub open spec fn total_digits(rx: &PatchRegex, tag: Seq<char>) -> Option<Seq<char>> {
    group_of(regex_captures(rx.re_patch_series@, tag), 2)
}

/// What a title's tag says: the title without it, and the digit groups of
/// the version and the series position, where the tag has them.
pub struct PatchTag {
    pub stripped_title: String,
    pub version: Option<String>,
    pub number_in_series: Option<String>,
    pub total_in_series: Option<String>,
}

/// Reads the tag of `title`, if it has one.
pub fn read_patch_tag(rx: &PatchRegex, title: &str) -> (r: Option<PatchTag>)
    ensures
        tag_of(rx, title@) is None ==> r is None,
        tag_of(rx, title@) matches Some(tag) ==> r matches Some(t) && t.stripped_title@
            == stripped_title(title@, tag) && opt_string_view(t.version) == version_digits(rx, tag)
            && opt_string_view(t.number_in_series) == number_digits(rx, tag) && opt_string_view(
            t.total_in_series,
        ) == total_digits(rx, tag),
{
    let tag = match regex_find_text(&rx.re_patch_tag, title) {
        Some(t) => t,
        None => {
            return None;
        },
    };
    let tc = chars_of(title);
    let pc = chars_of(tag.as_str());
    let none: Vec<char> = Vec::new();
    let removed = replace_all_exec(tc.as_slice(), pc.as_slice(), none.as_slice());
    assert(none@ =~= seq![]);
    let trimmed = trim_chars(removed.as_slice());
    let version = capture_group(&rx.re_patch_version, tag.as_str(), 1);
    let number = capture_group(&rx.re_patch_series, tag.as_str(), 1);
    let total = capture_group(&rx.re_patch_series, tag.as_str(), 2);
    Some(
        PatchTag {
            stripped_title: string_from_chars(trimmed.as_slice()),
            version,
            number_in_series: number,
            total_in_series: total,
        },
    )
}

/// A digit group, where present, reads as a number of the given bound.
pub open spec fn fits(g: Option<Seq<char>>, max: nat) -> bool {
    match g {
        Some(d) => parse_unsigned(d) matches Some(n) && n <= max,
        None => true,
    }
}

/// The numbers of a tag all read within `max`: the metadata update does
/// not fail on this title.
pub open spec fn tag_numbers_fit(rx: &PatchRegex, title: Seq<char>, max: nat) -> bool {
    match tag_of(rx, title) {
        Some(tag) => fits(version_digits(rx, tag), max) && fits(number_digits(rx, tag), max) && fits(
            total_digits(rx, tag),
            max,
        ),
        None => true,
    }
}

/// The number a digit group reads as, or `old` when the group is absent.
pub open spec fn number_or(g: Option<Seq<char>>, old: nat) -> nat {
    match g {
        Some(d) => match parse_unsigned(d) {
            Some(n) => n,
            None => old,
        },
        None => old,
    }
}

/// Reads a digit group as a number no greater than `max`.
pub fn read_number(g: &Option<String>, old: u64, max: u64) -> (r: Option<u64>)
    ensures
        r matches Some(v) ==> fits(opt_string_view(*g), max as nat) && v == number_or(
            opt_string_view(*g),
            old as nat,
        ),
        r is None ==> !fits(opt_string_view(*g), max as nat),
{
    match g {
        Some(d) => {
            let dc = chars_of(d.as_str());
            match parse_u64(dc.as_slice()) {
                Some(v) => if v <= max {
                    Some(v)
                } else {
                    None
                },
                None => None,
            }
        },
        None => Some(old),
    }
}

/// A patch's fields after its tag's metadata moved in: the title loses the
/// tag, and the numbers the tag has replace the patch's.
pub open spec fn metadata_model(rx: &PatchRegex, m: PatchModel) -> PatchModel {
    match tag_of(rx, m.0) {
        Some(tag) => (
            stripped_title(m.0, tag),
            number_or(version_digits(rx, tag), m.1),
            number_or(number_digits(rx, tag), m.2),
            number_or(total_digits(rx, tag), m.3),
            m.4,
            m.5,
            m.6,
            m.7,
            m.8,
        ),
        None => m,
    }
}

// ───────────────────────────── patches ─────────────────────────────

#[derive(Debug, Clone, PartialEq, Eq, Hash)]
pub struct Author {
    pub name: String,
    pub email: String,
}

impl Author {
    /// `Name <email>`.
    pub fn display(&self) -> (r: String)
        ensures
            r@ == self.name@ + " <"@ + self.email@ + ">"@,
    {
        let mut s = self.name.clone();
        s.append(" <");
        s.append(self.email.as_str());
        s.append(">");
        s
    }
}

/// The fields of a patch, as text and numbers.
pub type PatchModel = (
    Seq<char>,
    nat,
    nat,
    nat,
    Seq<char>,
    Seq<char>,
    Seq<char>,
    Option<Seq<char>>,
    Seq<char>,
);

/// A patch as lore's Atom feed lists it. A missing version or series
/// position reads as 1.
#[derive(Debug, Clone, PartialEq)]
pub struct Patch {
    title: String,
    version: usize,
    number_in_series: usize,
    total_in_series: usize,
    author: Author,
    message_id: MessageID,
    in_reply_to: Option<MessageID>,
    updated: String,
}

impl Patch {
    pub closed spec fn spec_title(&self) -> Seq<char> {
        self.title@
    }

    pub closed spec fn spec_version(&self) -> nat {
        self.version as nat
    }

    pub closed spec fn spec_number_in_series(&self) -> nat {
        self.number_in_series as nat
    }

    pub closed spec fn spec_total_in_series(&self) -> nat {
        self.total_in_series as nat
    }

    pub closed spec fn spec_author(&self) -> Author {
        self.author
    }

    pub closed spec fn spec_message_id(&self) -> MessageID {
        self.message_id
    }

    pub closed spec fn spec_in_reply_to(&self) -> Option<MessageID> {
        self.in_reply_to
    }

    pub closed spec fn spec_updated(&self) -> Seq<char> {
        self.updated@
    }

    /// Everything that tells two patches apart: title, version, series
    /// position, author's name and email, link, reply link and update time.
    pub open spec fn model(&self) -> PatchModel {
        (
            self.spec_title(),
            self.spec_version(),
            self.spec_number_in_series(),
            self.spec_total_in_series(),
            self.spec_author().name@,
            self.spec_author().email@,
            self.spec_message_id().href@,
            match self.spec_in_reply_to() {
                Some(m) => Some(m.href@),
                None => None,
            },
            self.spec_updated(),
        )
    }

    /// Whether two patches are the same patch, field by field.
    pub fn same_patch(&self, other: &Patch) -> (r: bool)
        ensures
            r == (self.model() == other.model()),
    {
        let reply_same = match (&self.in_reply_to, &other.in_reply_to) {
            (Some(a), Some(b)) => a.href == b.href,
            (None, None) => true,
            _ => false,
        };
        self.title == other.title && self.version == other.version && self.number_in_series
            == other.number_in_series && self.total_in_series == other.total_in_series
            && self.author.name == other.author.name && self.author.email == other.author.email
            && self.message_id.href == other.message_id.href && reply_same && self.updated
            == other.updated
    }

    /// A copy of the patch.
    pub fn duplicate(&self) -> (r: Patch)
        ensures
            r.model() == self.model(),
            r.spec_title() == self.spec_title(),
            r.spec_version() == self.spec_version(),
            r.spec_message_id() == self.spec_message_id(),
    {
        Patch {
            title: self.title.clone(),
            version: self.version,
            number_in_series: self.number_in_series,
            total_in_series: self.total_in_series,
            author: Author { name: self.author.name.clone(), email: self.author.email.clone() },
            message_id: MessageID { href: self.message_id.href.clone() },
            in_reply_to: match &self.in_reply_to {
                Some(m) => Some(MessageID { href: m.href.clone() }),
                None => None,
            },
            updated: self.updated.clone(),
        }
    }

    /// A patch with every field given; a feed entry read elsewhere is
    /// turned into one by this.
    pub fn from_parts(
        title: String,
        version: usize,
        number_in_series: usize,
        total_in_series: usize,
        author: Author,
        message_id: MessageID,
        in_reply_to: Option<MessageID>,
        updated: String,
    ) -> (r: Patch)
        ensures
            r.spec_title() == title@,
            r.spec_version() == version,
            r.spec_number_in_series() == number_in_series,
            r.spec_total_in_series() == total_in_series,
            r.spec_author() == author,
            r.spec_message_id() == message_id,
            r.spec_in_reply_to() == in_reply_to,
            r.spec_updated() == updated@,
    {
        Patch {
            title,
            version,
            number_in_series,
            total_in_series,
            author,
            message_id,
            in_reply_to,
            updated,
        }
    }

    pub fn title(&self) -> (r: &String)
        ensures
            r@ == self.spec_title(),
    {
        &self.title
    }

    pub fn version(&self) -> (r: usize)
        ensures
            r == self.spec_version(),
    {
        self.version
    }

    pub fn number_in_series(&self) -> (r: usize)
        ensures
            r == self.spec_number_in_series(),
    {
        self.number_in_series
    }

    pub fn total_in_series(&self) -> (r: usize)
        ensures
            r == self.spec_total_in_series(),
    {
        self.total_in_series
    }

    pub fn author(&self) -> (r: &Author)
        ensures
            *r == self.spec_author(),
    {
        &self.author
    }

    pub fn message_id(&self) -> (r: &MessageID)
        ensures
            *r == self.spec_message_id(),
    {
        &self.message_id
    }

    pub fn in_reply_to(&self) -> (r: &Option<MessageID>)
        ensures
            *r == self.spec_in_reply_to(),
    {
        &self.in_reply_to
    }

    pub fn updated(&self) -> (r: &String)
        ensures
            r@ == self.spec_updated(),
    {
        &self.updated
    }

    /// Moves the metadata of the title's tag into the patch: the tag leaves
    /// the title, and the version and series position are read from it
    /// where it has them. A title without a tag changes nothing.
    pub fn update_patch_metadata(&mut self, patch_regex: &PatchRegex)
        requires
            tag_numbers_fit(patch_regex, old(self).spec_title(), usize::MAX as nat),
        ensures
            tag_of(patch_regex, old(self).spec_title()) is None ==> *final(self) == *old(self),
            tag_of(patch_regex, old(self).spec_title()) matches Some(tag) ==> {
                &&& final(self).spec_title() == stripped_title(old(self).spec_title(), tag)
                &&& final(self).spec_version() == number_or(
                    version_digits(patch_regex, tag),
                    old(self).spec_version(),
                )
                &&& final(self).spec_number_in_series() == number_or(
                    number_digits(patch_regex, tag),
                    old(self).spec_number_in_series(),
                )
                &&& final(self).spec_total_in_series() == number_or(
                    total_digits(patch_regex, tag),
                    old(self).spec_total_in_series(),
                )
                &&& final(self).spec_author() == old(self).spec_author()
                &&& final(self).spec_message_id() == old(self).spec_message_id()
                &&& final(self).spec_in_reply_to() == old(self).spec_in_reply_to()
                &&& final(self).spec_updated() == old(self).spec_updated()
            },
            final(self).model() == metadata_model(patch_regex, old(self).model()),
    {
        let tag = match read_patch_tag(patch_regex, self.title.as_str()) {
            Some(t) => t,
            None => {
                return;
            },
        };
        let max = usize::MAX as u64;
        let version = read_number(&tag.version, self.version as u64, max);
        let number = read_number(&tag.number_in_series, self.number_in_series as u64, max);
        let total = read_number(&tag.total_in_series, self.total_in_series as u64, max);
        match (version, number, total) {
            (Some(v), Some(n), Some(t)) => {
                self.title = tag.stripped_title;
                self.version = v as usize;
                self.number_in_series = n as usize;
                self.total_in_series = t as usize;
            },
            _ => {},
        }
    }

    /// The metadata update where every number of the tag fits; otherwise
    /// the patch is left as it is and `false` returned.
    pub fn try_update_patch_metadata(&mut self, patch_regex: &PatchRegex) -> (r: bool)
        ensures
            r == tag_numbers_fit(patch_regex, old(self).spec_title(), usize::MAX as nat),
            !r ==> *final(self) == *old(self),
            r ==> final(self).model() == metadata_model(patch_regex, old(self).model()),
    {
        let fits_all = match read_patch_tag(patch_regex, self.title.as_str()) {
            Some(tag) => {
                let max = usize::MAX as u64;
                read_number(&tag.version, 0, max).is_some() && read_number(
                    &tag.number_in_series,
                    0,
                    max,
                ).is_some() && read_number(&tag.total_in_series, 0, max).is_some()
            },
            None => true,
        };
        if fits_all {
            self.update_patch_metadata(patch_regex);
        }
        fits_all
    }
}

/// A page of lore's patch feed.
#[derive(Debug, Clone)]
pub struct PatchFeed {
    patches: Vec<Patch>,
}

impl PatchFeed {
    pub fn new(patches: Vec<Patch>) -> (r: PatchFeed)
        ensures
            r.spec_patches() == patches@,
    {
        PatchFeed { patches }
    }

    pub closed spec fn spec_patches(&self) -> Seq<Patch> {
        self.patches@
    }

    pub fn patches(&self) -> (r: &Vec<Patch>)
        ensures
            r@ == self.spec_patches(),
    {
        &self.patches
    }
}

} // verus!
