//! Reading lore's responses: the page listing the archived mailing lists,
//! and the Atom feed of a list.
use vstd::prelude::*;

use crate::lore::domain::patch::PatchFeed;
use crate::mailing_list::{lists_view, sort_by_name, MailingList};
use crate::pattern::{
    compile_regex, group_of, regex_captures_all, regex_captures_all_text, regex_compiles,
};
use crate::text::{chars_of, chars_eq, string_from_chars, trim, trim_chars};

verus! {

/// Reads an Atom feed into a feed page; the error is the reader's message.
pub trait FeedParser {
    fn parse_patch_feed(&self, xml: &str) -> Result<PatchFeed, String>;
}

pub open spec fn pre_block_pattern() -> Seq<char> {
    "(?s)<pre>(.*?)</pre>"@
}

pub open spec fn list_name_pattern() -> Seq<char> {
    "(?s)<a\\s*href=\".*?\">(.*?)</a>"@
}

pub open spec fn list_description_pattern() -> Seq<char> {
    "(?s)</a>\\s*(.*?)\\s*\\*"@
}

/// Group 1 of every match, `None` if one of them lacks it.
pub open spec fn firsts(caps: Seq<Seq<Option<Seq<char>>>>) -> Option<Seq<Seq<char>>>
    decreases caps.len(),
{
    if caps.len() == 0 {
        Some(seq![])
    } else {
        match (firsts(caps.drop_last()), group_of(Some(caps.last()), 1)) {
            (Some(f), Some(g)) => Some(f.push(g)),
            _ => None,
        }
    }
}

/// The first `n` names paired with their descriptions, both trimmed, the
/// catch-all list `all` left out.
pub open spec fn paired_lists(names: Seq<Seq<char>>, descs: Seq<Seq<char>>, n: int) -> Seq<
    (Seq<char>, Seq<char>),
>
    decreases n,
{
    if n <= 0 {
        seq![]
    } else {
        let r = paired_lists(names, descs, n - 1);
        if trim(names[n - 1]) == "all"@ {
            r
        } else {
            r.push((trim(names[n - 1]), trim(descs[n - 1])))
        }
    }
}

/// The mailing lists of lore's list page: in the third `<pre>` block, the
/// text of each link is a list's name and the text after it, up to a `*`,
/// its description. A page with fewer blocks lists nothing.
pub open spec fn available_lists_spec(html: Seq<char>) -> Option<Seq<(Seq<char>, Seq<char>)>> {
    match firsts(regex_captures_all(pre_block_pattern(), html)) {
        None => None,
        Some(blocks) => if blocks.len() < 3 {
            Some(seq![])
        } else {
            match (
                firsts(regex_captures_all(list_name_pattern(), blocks[2])),
                firsts(regex_captures_all(list_description_pattern(), blocks[2])),
            ) {
                (Some(ns), Some(ds)) => Some(
                    paired_lists(ns, ds, if ns.len() < ds.len() {
                        ns.len() as int
                    } else {
                        ds.len() as int
                    }),
                ),
                _ => None,
            }
        },
    }
}

fn firsts_exec(caps: Vec<Vec<Option<String>>>) -> (r: Option<Vec<String>>)
    ensures
        match r {
            Some(v) => firsts(crate::pattern::all_groups_view(caps@)) == Some(
                v@.map_values(|s: String| s@),
            ),
            None => firsts(crate::pattern::all_groups_view(caps@)) is None,
        },
{
    let ghost cv = crate::pattern::all_groups_view(caps@);
    let mut out: Vec<String> = Vec::new();
    let mut i: usize = 0;
    assert(cv.take(0) =~= seq![]);
    assert(out@.map_values(|s: String| s@) =~= seq![]);
    while i < caps.len()
        invariant
            i <= caps@.len(),
            cv == crate::pattern::all_groups_view(caps@),
            firsts(cv.take(i as int)) == Some(out@.map_values(|s: String| s@)),
        decreases caps.len() - i,
    {
        assert(cv.take(i + 1).drop_last() =~= cv.take(i as int));
        assert(cv.take(i + 1).last() == cv[i as int]);
        let c = &caps[i];
        let g: Option<String> = if 1 < c.len() {
            match &c[1] {
                Some(s) => Some(s.clone()),
                None => None,
            }
        } else {
            None
        };
        assert(crate::kw::status::opt_string_view(g) == group_of(Some(cv[i as int]), 1));
        match g {
            Some(s) => {
                let ghost before = out@;
                let ghost sv = s@;
                out.push(s);
                assert(out@.map_values(|s: String| s@) =~= before.map_values(|s: String| s@).push(
                    sv,
                ));
            },
            None => {
                proof {
                    lemma_firsts_none(cv, i as int);
                }
                return None;
            },
        }
        i += 1;
    }
    assert(cv.take(i as int) =~= cv);
    Some(out)
}

proof fn lemma_firsts_none(cv: Seq<Seq<Option<Seq<char>>>>, i: int)
    requires
        0 <= i < cv.len(),
        firsts(cv.take(i + 1)) is None,
    ensures
        firsts(cv) is None,
    decreases cv.len() - i,
{
    if i + 1 < cv.len() {
        assert(cv.take(i + 2).drop_last() =~= cv.take(i + 1));
        lemma_firsts_none(cv, i + 1);
    } else {
        assert(cv.take(i + 1) =~= cv);
    }
}

fn is_all(name: &[char]) -> (r: bool)
    ensures
        r == (name@ == "all"@),
{
    let a = chars_of("all");
    chars_eq(name, a.as_slice())
}

/// The lists of pages fetched one after another, in order; `None` when a
/// page cannot be read.
pub open spec fn concat_pages(pages: Seq<Seq<char>>) -> Option<Seq<(Seq<char>, Seq<char>)>>
    decreases pages.len(),
{
    if pages.len() == 0 {
        Some(seq![])
    } else {
        match (concat_pages(pages.drop_last()), available_lists_spec(pages.last())) {
            (Some(a), Some(b)) => Some(a + b),
            _ => None,
        }
    }
}

/// `v` is what paging through lore's list gives: the pages fetched list
/// some lists each, up to a last page that lists none, and `v` is all
/// their lists ordered by name.
pub open spec fn pages_listing(pages: Seq<Seq<char>>, v: Seq<(Seq<char>, Seq<char>)>) -> bool {
    &&& pages.len() >= 1
    &&& available_lists_spec(pages.last()) == Some(Seq::<(Seq<char>, Seq<char>)>::empty())
    &&& forall|i: int|
        0 <= i < pages.len() - 1 ==> (available_lists_spec(#[trigger] pages[i]) matches Some(l)
            && l.len() > 0)
    &&& concat_pages(pages) matches Some(all) && v == sort_by_name(all)
}

/// Parses lore's list page into its mailing lists, in page order; `None`
/// when the regex crate refuses one of the expressions, or when a match
/// lacks the group that holds its text.
pub fn parse_available_lists(html: &str) -> (r: Option<Vec<MailingList>>)
    ensures
        r matches Some(v) ==> available_lists_spec(html@) == Some(lists_view(v@)),
        r is None ==> !regex_compiles(pre_block_pattern()) || !regex_compiles(list_name_pattern())
            || !regex_compiles(list_description_pattern()) || available_lists_spec(html@) is None,
{
    let pre = match compile_regex("(?s)<pre>(.*?)</pre>") {
        Some(re) => re,
        None => {
            return None;
        },
    };
    let name_re = match compile_regex("(?s)<a\\s*href=\".*?\">(.*?)</a>") {
        Some(re) => re,
        None => {
            return None;
        },
    };
    let desc_re = match compile_regex("(?s)</a>\\s*(.*?)\\s*\\*") {
        Some(re) => re,
        None => {
            return None;
        },
    };
    let blocks = match firsts_exec(regex_captures_all_text(&pre, html)) {
        Some(b) => b,
        None => {
            return None;
        },
    };
    let mut lists: Vec<MailingList> = Vec::new();
    if blocks.len() < 3 {
        assert(lists_view(lists@) =~= seq![]);
        return Some(lists);
    }
    let block = blocks[2].as_str();
    let names = match firsts_exec(regex_captures_all_text(&name_re, block)) {
        Some(n) => n,
        None => {
            return None;
        },
    };
    let descs = match firsts_exec(regex_captures_all_text(&desc_re, block)) {
        Some(d) => d,
        None => {
            return None;
        },
    };
    let ghost nv = names@.map_values(|s: String| s@);
    let ghost dv = descs@.map_values(|s: String| s@);
    let n = if names.len() < descs.len() {
        names.len()
    } else {
        descs.len()
    };
    let mut i: usize = 0;
    assert(lists_view(lists@) =~= seq![]);
    while i < n
        invariant
            i <= n,
            n <= names@.len(),
            n <= descs@.len(),
            nv == names@.map_values(|s: String| s@),
            dv == descs@.map_values(|s: String| s@),
            lists_view(lists@) == paired_lists(nv, dv, i as int),
        decreases n - i,
    {
        let nc = chars_of(names[i].as_str());
        let name = trim_chars(nc.as_slice());
        assert(nv[i as int] == names@[i as int]@);
        assert(dv[i as int] == descs@[i as int]@);
        if !is_all(name.as_slice()) {
            let dc = chars_of(descs[i].as_str());
            let desc = trim_chars(dc.as_slice());
            let ns = string_from_chars(name.as_slice());
            let ds = string_from_chars(desc.as_slice());
            let ghost before = lists@;
            lists.push(MailingList::new(ns.as_str(), ds.as_str()));
            assert(lists_view(lists@) =~= lists_view(before).push((trim(nv[i as int]), trim(dv[i as int]))));
        }
        i += 1;
    }
    Some(lists)
}

} // verus!
