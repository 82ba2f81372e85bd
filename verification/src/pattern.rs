//! Regular expressions of the `regex` crate, used by the parsers. What a
//! match is, is the crate's business and is named here, not restated; the
//! library states what it does with the matches.
use vstd::prelude::*;

use crate::kw::status::opt_string_view;

verus! {

#[verifier::external_type_specification]
#[verifier::external_body]
pub struct ExRegex(regex::Regex);

/// A compiled regular expression, together with the pattern it was
/// compiled from.
pub struct PatternRegex {
    pattern: String,
    re: regex::Regex,
}

impl View for PatternRegex {
    type V = Seq<char>;

    closed spec fn view(&self) -> Seq<char> {
        self.pattern@
    }
}

/// Whether `regex::Regex::new` accepts the pattern (with the default size
/// limit).
pub uninterp spec fn regex_compiles(pattern: Seq<char>) -> bool;

/// The text of the leftmost-first match of the pattern in the haystack, as
/// `regex::Regex::find` reports it.
pub uninterp spec fn regex_find(pattern: Seq<char>, haystack: Seq<char>) -> Option<Seq<char>>;

/// The capture groups of the leftmost-first match, as
/// `regex::Regex::captures` reports them: group `i` is `None` when it did
/// not take part in the match.
pub uninterp spec fn regex_captures(pattern: Seq<char>, haystack: Seq<char>) -> Option<
    Seq<Option<Seq<char>>>,
>;

pub open spec fn groups_view(g: Seq<Option<String>>) -> Seq<Option<Seq<char>>> {
    g.map_values(|o: Option<String>| opt_string_view(o))
}

/// `regex::Regex::new`: the compiled pattern, or `None` when the crate
/// refuses it. Claims nothing but that the result is a function of the
/// pattern.
#[verifier::external_body]
pub(crate) fn compile_regex(pattern: &str) -> (r: Option<PatternRegex>)
    ensures
        r is Some <==> regex_compiles(pattern@),
        r matches Some(x) ==> x@ == pattern@,
{
    match regex::Regex::new(pattern) {
        Ok(re) => Some(PatternRegex { pattern: pattern.to_string(), re }),
        Err(_) => None,
    }
}

/// `regex::Regex::find`, giving the matched text.
#[verifier::external_body]
pub(crate) fn regex_find_text(re: &PatternRegex, haystack: &str) -> (r: Option<String>)
    ensures
        opt_string_view(r) == regex_find(re@, haystack@),
{
    match re.re.find(haystack) {
        Some(m) => Some(m.as_str().to_string()),
        None => None,
    }
}

/// `regex::Regex::captures`, giving the text of each group.
#[verifier::external_body]
pub(crate) fn regex_captures_text(re: &PatternRegex, haystack: &str) -> (r: Option<Vec<Option<String>>>)
    ensures
        match r {
            Some(g) => regex_captures(re@, haystack@) == Some(groups_view(g@)),
            None => regex_captures(re@, haystack@) is None,
        },
{
    match re.re.captures(haystack) {
        Some(c) => Some(c.iter().map(|g| g.map(|m| m.as_str().to_string())).collect()),
        None => None,
    }
}

/// Group `i` of a match, `None` when there is no match or the group did
/// not take part (`Captures::get`).
pub open spec fn group_of(caps: Option<Seq<Option<Seq<char>>>>, i: int) -> Option<Seq<char>> {
    match caps {
        Some(g) => if 0 <= i < g.len() {
            g[i]
        } else {
            None
        },
        None => None,
    }
}

pub fn capture_group(re: &PatternRegex, haystack: &str, i: usize) -> (r: Option<String>)
    ensures
        opt_string_view(r) == group_of(regex_captures(re@, haystack@), i as int),
{
    match regex_captures_text(re, haystack) {
        Some(g) => {
            if i < g.len() {
                match &g[i] {
                    Some(s) => Some(s.clone()),
                    None => None,
                }
            } else {
                None
            }
        },
        None => None,
    }
}


/// The capture groups of every successive non-overlapping match, as
/// `regex::Regex::captures_iter` yields them.
pub uninterp spec fn regex_captures_all(pattern: Seq<char>, haystack: Seq<char>) -> Seq<
    Seq<Option<Seq<char>>>,
>;

/// The text of every successive non-overlapping match, as
/// `regex::Regex::find_iter` yields them.
pub uninterp spec fn regex_find_all(pattern: Seq<char>, haystack: Seq<char>) -> Seq<Seq<char>>;

pub open spec fn all_groups_view(g: Seq<Vec<Option<String>>>) -> Seq<Seq<Option<Seq<char>>>> {
    g.map_values(|c: Vec<Option<String>>| groups_view(c@))
}

/// `regex::Regex::captures_iter`, giving the text of each group of each
/// match.
#[verifier::external_body]
pub(crate) fn regex_captures_all_text(re: &PatternRegex, haystack: &str) -> (r: Vec<Vec<Option<String>>>)
    ensures
        all_groups_view(r@) == regex_captures_all(re@, haystack@),
{
    re.re.captures_iter(haystack).map(|c| c.iter().map(|g| g.map(|m| m.as_str().to_string())).collect()).collect()
}

/// `regex::Regex::find_iter`, giving the text of each match.
#[verifier::external_body]
pub(crate) fn regex_find_all_text(re: &PatternRegex, haystack: &str) -> (r: Vec<String>)
    ensures
        r@.map_values(|s: String| s@) == regex_find_all(re@, haystack@),
{
    re.re.find_iter(haystack).map(|m| m.as_str().to_string()).collect()
}

} // verus!
