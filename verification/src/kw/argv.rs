//! kw argv construction: patch-hub's base command lines plus the user
//! extra-args merge in which reserved options always win.
use vstd::prelude::*;

use crate::text::{
    chars_eq, chars_of, find_char, find_char_exec, has_char, has_char_exec, slice_range,
    starts_with, starts_with_chars, str_to_string,
};

verus! {

/// A CLI option patch-hub controls: user-supplied extra args that set it
/// are stripped, so the occurrence on patch-hub's own base argv wins.
pub struct ReservedOption {
    /// Every spelling of the option, e.g. `&["--force", "-f"]`.
    spellings: &'static [&'static str],
    /// Whether the option takes a value (`--name=value`, or `--name value`
    /// as a separate token).
    takes_value: bool,
    /// When true, GNU getopt unique prefixes of this option's long
    /// spellings are stripped too.
    match_abbrev: bool,
}

/// The model of a reserved option: its spellings, whether it takes a value,
/// and whether unique long abbreviations of it are matched.
impl View for ReservedOption {
    type V = (Seq<Seq<char>>, bool, bool);

    closed spec fn view(&self) -> (Seq<Seq<char>>, bool, bool) {
        (self.spellings@.map_values(|s: &str| s@), self.takes_value, self.match_abbrev)
    }
}

/// The models of a table of reserved options.
pub open spec fn table_view(r: Seq<ReservedOption>) -> Seq<(Seq<Seq<char>>, bool, bool)> {
    r.map_values(|o: ReservedOption| o@)
}

/// An optional index as a mathematical integer.
pub open spec fn opt_int(o: Option<usize>) -> Option<int> {
    match o {
        Some(i) => Some(i as int),
        None => None,
    }
}

/// The character sequences of a list of strings.
pub open spec fn strings_view(v: Seq<String>) -> Seq<Seq<char>> {
    v.map_values(|s: String| s@)
}

/// The character sequences of a list of string slices.
pub open spec fn strs_view(v: Seq<&str>) -> Seq<Seq<char>> {
    v.map_values(|s: &str| s@)
}

impl ReservedOption {
    pub fn new(spellings: &'static [&'static str], takes_value: bool) -> (r: Self)
        ensures
            r@ == (strs_view(spellings@), takes_value, false),
    {
        Self { spellings, takes_value, match_abbrev: false }
    }

    /// Like [`Self::new`], and also strip unambiguous GNU getopt long
    /// abbreviations of this option.
    pub fn gnu_abbrev(spellings: &'static [&'static str], takes_value: bool) -> (r: Self)
        ensures
            r@ == (strs_view(spellings@), takes_value, true),
    {
        Self { spellings, takes_value, match_abbrev: true }
    }
}

// ───────────────────────────── specification ─────────────────────────────

pub open spec fn dash_dash() -> Seq<char> {
    seq!['-', '-']
}

/// A token or spelling in long form (`--name`).
pub open spec fn is_long(t: Seq<char>) -> bool {
    starts_with(t, dash_dash())
}

/// The option name of a long token: everything before the first `=`.
pub open spec fn long_name(t: Seq<char>) -> Seq<char> {
    match find_char(t, '=') {
        Some(i) => t.take(i),
        None => t,
    }
}

/// The option has a long spelling equal to `name`.
pub open spec fn exact_long(o: (Seq<Seq<char>>, bool, bool), name: Seq<char>) -> bool {
    exists|j: int| 0 <= j < o.0.len() && is_long(o.0[j]) && o.0[j] == name
}

/// The option opted into abbreviation matching and `name` is a prefix of
/// one of its long spellings.
pub open spec fn abbrev_matches(o: (Seq<Seq<char>>, bool, bool), name: Seq<char>) -> bool {
    o.2 && exists|j: int| 0 <= j < o.0.len() && is_long(o.0[j]) && starts_with(o.0[j], name)
}

/// The option has `sp` among its spellings.
pub open spec fn has_spelling(o: (Seq<Seq<char>>, bool, bool), sp: Seq<char>) -> bool {
    exists|j: int| 0 <= j < o.0.len() && o.0[j] == sp
}

pub open spec fn exact_long_pred(name: Seq<char>) -> spec_fn((Seq<Seq<char>>, bool, bool)) -> bool {
    |o: (Seq<Seq<char>>, bool, bool)| exact_long(o, name)
}

pub open spec fn abbrev_pred(name: Seq<char>) -> spec_fn((Seq<Seq<char>>, bool, bool)) -> bool {
    |o: (Seq<Seq<char>>, bool, bool)| abbrev_matches(o, name)
}

pub open spec fn spelling_pred(sp: Seq<char>) -> spec_fn((Seq<Seq<char>>, bool, bool)) -> bool {
    |o: (Seq<Seq<char>>, bool, bool)| has_spelling(o, sp)
}

/// First index `>= i` of the table whose option satisfies `p`.
pub open spec fn first_option(
    r: Seq<(Seq<Seq<char>>, bool, bool)>,
    p: spec_fn((Seq<Seq<char>>, bool, bool)) -> bool,
    i: int,
) -> Option<int>
    decreases r.len() - i,
{
    if i < 0 || i >= r.len() {
        None
    } else if p(r[i]) {
        Some(i)
    } else {
        first_option(r, p, i + 1)
    }
}

/// Number of options in `r[0..n)` that `name` abbreviates.
pub open spec fn abbrev_count(r: Seq<(Seq<Seq<char>>, bool, bool)>, name: Seq<char>, n: int) -> nat
    decreases n,
{
    if n <= 0 || n > r.len() {
        0
    } else {
        abbrev_count(r, name, n - 1) + if abbrev_matches(r[n - 1], name) {
            1nat
        } else {
            0nat
        }
    }
}

/// GNU getopt unique-prefix match among options that opted into it: the
/// one option `name` abbreviates, when there is exactly one.
pub open spec fn unique_long_abbrev(r: Seq<(Seq<Seq<char>>, bool, bool)>, name: Seq<char>) -> Option<
    int,
> {
    if name.len() < 3 || !is_long(name) {
        None
    } else if abbrev_count(r, name, r.len() as int) == 1 {
        first_option(r, abbrev_pred(name), 0)
    } else {
        None
    }
}

/// The reserved option a long token sets: an exact long spelling of its
/// name, else a unique abbreviation.
pub open spec fn reserved_long_option(r: Seq<(Seq<Seq<char>>, bool, bool)>, t: Seq<char>) -> Option<
    int,
> {
    let name = long_name(t);
    match first_option(r, exact_long_pred(name), 0) {
        Some(i) => Some(i),
        None => unique_long_abbrev(r, name),
    }
}

/// The option that spells exactly `sp`.
pub open spec fn exact_short(r: Seq<(Seq<Seq<char>>, bool, bool)>, sp: Seq<char>) -> Option<int> {
    first_option(r, spelling_pred(sp), 0)
}

/// Walk over the letters of a short cluster from position `i`, remembering
/// the last reserved flag hit; a value-taking flag ends the walk.
pub open spec fn short_scan(
    r: Seq<(Seq<Seq<char>>, bool, bool)>,
    body: Seq<char>,
    i: int,
    hit: Option<int>,
) -> Option<int>
    decreases body.len() - i,
{
    if i < 0 || i >= body.len() {
        hit
    } else {
        match exact_short(r, seq!['-', body[i]]) {
            Some(k) => if 0 <= k < r.len() && r[k].1 {
                Some(k)
            } else {
                short_scan(r, body, i + 1, Some(k))
            },
            None => short_scan(r, body, i + 1, hit),
        }
    }
}

/// A short token that contains any reserved flag: `-f`, `-rf`, `-Fpkg`.
pub open spec fn reserved_short_cluster(r: Seq<(Seq<Seq<char>>, bool, bool)>, t: Seq<char>) -> Option<
    int,
> {
    if t.len() == 0 || t[0] != '-' {
        None
    } else {
        let body = t.drop_first();
        if body.len() == 0 || body[0] == '-' {
            None
        } else {
            short_scan(r, body, 0, None)
        }
    }
}

/// The reserved option a token sets, if any.
pub open spec fn reserved_option_for(r: Seq<(Seq<Seq<char>>, bool, bool)>, t: Seq<char>) -> Option<
    int,
> {
    if is_long(t) {
        reserved_long_option(r, t)
    } else {
        reserved_short_cluster(r, t)
    }
}

/// The first letter of a short cluster that spells the option decides:
/// the value is attached when more letters follow it.
pub open spec fn attached_scan(o: (Seq<Seq<char>>, bool, bool), body: Seq<char>, j: int) -> bool
    decreases body.len() - j,
{
    if j < 0 || j >= body.len() {
        false
    } else if has_spelling(o, seq!['-', body[j]]) {
        j + 1 < body.len()
    } else {
        attached_scan(o, body, j + 1)
    }
}

/// Whether the token already carries the option's value (`--name=value`,
/// or letters after a value-taking short flag).
pub open spec fn value_is_attached(t: Seq<char>, o: (Seq<Seq<char>>, bool, bool)) -> bool {
    if has_char(t, '=') {
        true
    } else if !o.1 {
        false
    } else if t.len() == 0 || t[0] != '-' || (t.len() >= 2 && t[1] == '-') {
        false
    } else {
        attached_scan(o, t.drop_first(), 0)
    }
}

/// The extras that survive the merge, in order: tokens setting a reserved
/// option are dropped, together with their separate value token.
pub open spec fn merge_tail(r: Seq<(Seq<Seq<char>>, bool, bool)>, extras: Seq<Seq<char>>) -> Seq<
    Seq<char>,
>
    decreases extras.len(),
{
    if extras.len() == 0 {
        seq![]
    } else {
        let t = extras[0];
        match reserved_option_for(r, t) {
            Some(k) => if 0 <= k < r.len() && r[k].1 && !value_is_attached(t, r[k]) {
                if extras.len() >= 2 {
                    merge_tail(r, extras.skip(2))
                } else {
                    seq![]
                }
            } else {
                merge_tail(r, extras.skip(1))
            },
            None => seq![t] + merge_tail(r, extras.skip(1)),
        }
    }
}

/// Reserved for `kw build`.
pub open spec fn build_reserved_model() -> Seq<(Seq<Seq<char>>, bool, bool)> {
    seq![
        (seq!["--help"@, "-h"@], false, true),
        (seq!["--alert"@], true, true),
        (seq!["--save-log-to"@], true, true),
        (seq!["--menu"@], false, true),
        (seq!["--clean"@], false, true),
        (seq!["--full-cleanup"@], false, true),
        (seq!["--doc"@], false, true),
        (seq!["--info"@], false, true),
        (seq!["--from-sha"@], true, true),
    ]
}

/// Reserved for `kw deploy`.
pub open spec fn deploy_reserved_model() -> Seq<(Seq<Seq<char>>, bool, bool)> {
    seq![
        (seq!["--remote"@], true, true),
        (seq!["--local"@], false, true),
        (seq!["--reboot"@, "-r"@], false, true),
        (seq!["--no-reboot"@], false, true),
        (seq!["--force"@, "-f"@], false, true),
        (seq!["--list"@, "-l"@], false, true),
        (seq!["--ls-line"@, "-s"@], false, true),
        (seq!["--list-all"@, "-a"@], false, true),
        (seq!["--setup"@], false, true),
        (seq!["--uninstall"@, "-u"@], false, true),
        (seq!["--from-package"@, "-F"@], true, true),
        (seq!["--create-package"@, "-p"@], false, true),
        (seq!["--boot-into-new-kernel-once"@, "-n"@], false, true),
        (seq!["--help"@, "-h"@], false, false),
        (seq!["--save-log-to"@], true, false),
        (seq!["--alert"@], true, false),
        (seq!["--ccache"@], false, false),
        (seq!["--llvm"@], false, false),
        (seq!["--cpu-scaling"@, "-S"@], true, false),
        (seq!["--warnings"@, "-w"@], false, false),
        (seq!["--cflags"@], true, false),
        (seq!["--menu"@], false, false),
        (seq!["--doc"@, "-d"@], false, false),
        (seq!["--info"@, "-i"@], false, false),
        (seq!["--clean"@, "-c"@], false, false),
        (seq!["--full-cleanup"@], false, false),
        (seq!["--from-sha"@], true, false),
    ]
}

/// The base argv of a deploy job.
pub open spec fn deploy_base(endpoint: Seq<char>, reboot: bool, force: bool) -> Seq<Seq<char>> {
    let base = seq![
        "deploy"@,
        "--remote"@,
        endpoint,
        if reboot {
            "--reboot"@
        } else {
            "--no-reboot"@
        },
    ];
    if force {
        base.push("--force"@)
    } else {
        base
    }
}

// ───────────────────────────── lemmas ─────────────────────────────

proof fn lemma_abbrev_count_mono(r: Seq<(Seq<Seq<char>>, bool, bool)>, name: Seq<char>, m: int, n: int)
    requires
        0 <= m <= n <= r.len(),
    ensures
        abbrev_count(r, name, m) <= abbrev_count(r, name, n),
    decreases n - m,
{
    if m < n {
        lemma_abbrev_count_mono(r, name, m, n - 1);
    }
}

/// `first_option` over a prefix: once no option of `r[0..i)` matched, the
/// first match at or after `i` is the first match at all.
proof fn lemma_first_option_none_prefix(
    r: Seq<(Seq<Seq<char>>, bool, bool)>,
    p: spec_fn((Seq<Seq<char>>, bool, bool)) -> bool,
    i: int,
)
    requires
        0 <= i <= r.len(),
        forall|k: int| 0 <= k < i ==> !p(r[k]),
    ensures
        first_option(r, p, 0) == first_option(r, p, i),
    decreases i,
{
    if i > 0 {
        lemma_first_option_none_prefix(r, p, i - 1);
    }
}

// ───────────────────────────── executable ─────────────────────────────

fn is_long_exec(t: &[char]) -> (b: bool)
    ensures
        b == is_long(t@),
{
    let dd = vec!['-', '-'];
    assert(dd@ =~= dash_dash());
    starts_with_chars(t, dd.as_slice())
}

fn long_name_exec(t: &[char]) -> (r: Vec<char>)
    ensures
        r@ == long_name(t@),
{
    match find_char_exec(t, '=') {
        Some(i) => {
            let r = slice_range(t, 0, i);
            assert(r@ =~= t@.take(i as int));
            r
        },
        None => slice_range(t, 0, t.len()),
    }
}

impl ReservedOption {
    fn exact_long_exec(&self, name: &[char]) -> (b: bool)
        ensures
            b == exact_long(self@, name@),
    {
        let mut j: usize = 0;
        while j < self.spellings.len()
            invariant
                j <= self.spellings@.len(),
                forall|k: int|
                    0 <= k < j ==> !(is_long(self@.0[k]) && #[trigger] self@.0[k] == name@),
            decreases self.spellings.len() - j,
        {
            let sp = chars_of(self.spellings[j]);
            assert(self@.0[j as int] == sp@);
            if is_long_exec(sp.as_slice()) && chars_eq(sp.as_slice(), name) {
                return true;
            }
            j += 1;
        }
        false
    }

    fn abbrev_matches_exec(&self, name: &[char]) -> (b: bool)
        ensures
            b == abbrev_matches(self@, name@),
    {
        if !self.match_abbrev {
            return false;
        }
        let mut j: usize = 0;
        while j < self.spellings.len()
            invariant
                self@.2,
                j <= self.spellings@.len(),
                forall|k: int|
                    0 <= k < j ==> !(is_long(self@.0[k]) && starts_with(#[trigger] self@.0[k], name@)),
            decreases self.spellings.len() - j,
        {
            let sp = chars_of(self.spellings[j]);
            assert(self@.0[j as int] == sp@);
            if is_long_exec(sp.as_slice()) && starts_with_chars(sp.as_slice(), name) {
                return true;
            }
            j += 1;
        }
        false
    }

    fn has_spelling_exec(&self, spelling: &[char]) -> (b: bool)
        ensures
            b == has_spelling(self@, spelling@),
    {
        let mut j: usize = 0;
        while j < self.spellings.len()
            invariant
                j <= self.spellings@.len(),
                forall|k: int| 0 <= k < j ==> #[trigger] self@.0[k] != spelling@,
            decreases self.spellings.len() - j,
        {
            let sp = chars_of(self.spellings[j]);
            assert(self@.0[j as int] == sp@);
            if chars_eq(sp.as_slice(), spelling) {
                return true;
            }
            j += 1;
        }
        false
    }

    fn takes_value_exec(&self) -> (b: bool)
        ensures
            b == self@.1,
    {
        self.takes_value
    }
}

fn first_exact_long(reserved: &[ReservedOption], name: &[char]) -> (r: Option<usize>)
    ensures
        r matches Some(i) ==> i < reserved@.len(),
        opt_int(r) == first_option(table_view(reserved@), exact_long_pred(name@), 0),
{
    let ghost t = table_view(reserved@);
    let ghost p = exact_long_pred(name@);
    let mut i: usize = 0;
    while i < reserved.len()
        invariant
            i <= reserved@.len(),
            t == table_view(reserved@),
            p == exact_long_pred(name@),
            first_option(t, p, 0) == first_option(t, p, i as int),
        decreases reserved.len() - i,
    {
        assert(t[i as int] == reserved@[i as int]@);
        if reserved[i].exact_long_exec(name) {
            return Some(i);
        }
        i += 1;
    }
    None
}

fn unique_long_abbrev_exec(reserved: &[ReservedOption], name: &[char]) -> (r: Option<usize>)
    ensures
        r matches Some(i) ==> i < reserved@.len(),
        opt_int(r) == unique_long_abbrev(table_view(reserved@), name@),
{
    let ghost t = table_view(reserved@);
    let ghost p = abbrev_pred(name@);
    if name.len() < 3 || !is_long_exec(name) {
        return None;
    }
    let mut found: Option<usize> = None;
    let mut i: usize = 0;
    while i < reserved.len()
        invariant
            i <= reserved@.len(),
            t == table_view(reserved@),
            p == abbrev_pred(name@),
            abbrev_count(t, name@, i as int) <= 1,
            found is None ==> abbrev_count(t, name@, i as int) == 0 && forall|k: int|
                0 <= k < i ==> !p(t[k]),
            found matches Some(f) ==> abbrev_count(t, name@, i as int) == 1 && f < i && first_option(
                t,
                p,
                0,
            ) == Some(f as int),
        decreases reserved.len() - i,
    {
        let m = reserved[i].abbrev_matches_exec(name);
        assert(t[i as int] == reserved@[i as int]@);
        assert(m == p(t[i as int]));
        assert(abbrev_count(t, name@, i + 1) == abbrev_count(t, name@, i as int) + if m {
            1nat
        } else {
            0nat
        });
        if m {
            match found {
                None => {
                    proof {
                        lemma_first_option_none_prefix(t, p, i as int);
                    }
                    found = Some(i);
                },
                Some(_) => {
                    proof {
                        lemma_abbrev_count_mono(t, name@, i + 1, t.len() as int);
                    }
                    return None;
                },
            }
        } else {
            proof {
                if found is None {
                    assert forall|k: int| 0 <= k < i + 1 implies !p(t[k]) by {
                        if k < i {
                        } else {
                            assert(k == i);
                        }
                    }
                }
            }
        }
        i += 1;
    }
    match found {
        None => None,
        Some(f) => Some(f),
    }
}

fn reserved_long_option_exec(reserved: &[ReservedOption], token: &[char]) -> (r: Option<usize>)
    ensures
        r matches Some(i) ==> i < reserved@.len(),
        opt_int(r) == reserved_long_option(table_view(reserved@), token@),
{
    let name = long_name_exec(token);
    match first_exact_long(reserved, name.as_slice()) {
        Some(i) => Some(i),
        None => unique_long_abbrev_exec(reserved, name.as_slice()),
    }
}

fn exact_short_exec(reserved: &[ReservedOption], spelling: &[char]) -> (r: Option<usize>)
    ensures
        r matches Some(i) ==> i < reserved@.len(),
        opt_int(r) == exact_short(table_view(reserved@), spelling@),
{
    let ghost t = table_view(reserved@);
    let ghost p = spelling_pred(spelling@);
    let mut i: usize = 0;
    while i < reserved.len()
        invariant
            i <= reserved@.len(),
            t == table_view(reserved@),
            p == spelling_pred(spelling@),
            first_option(t, p, 0) == first_option(t, p, i as int),
        decreases reserved.len() - i,
    {
        assert(t[i as int] == reserved@[i as int]@);
        if reserved[i].has_spelling_exec(spelling) {
            return Some(i);
        }
        i += 1;
    }
    None
}

fn reserved_short_cluster_exec(reserved: &[ReservedOption], token: &[char]) -> (r: Option<usize>)
    ensures
        r matches Some(i) ==> i < reserved@.len(),
        opt_int(r) == reserved_short_cluster(table_view(reserved@), token@),
{
    let ghost t = table_view(reserved@);
    if token.len() == 0 || token[0] != '-' {
        return None;
    }
    let body = slice_range(token, 1, token.len());
    assert(body@ =~= token@.drop_first());
    if body.len() == 0 || body[0] == '-' {
        return None;
    }
    let mut i: usize = 0;
    let mut hit: Option<usize> = None;
    while i < body.len()
        invariant
            i <= body@.len(),
            t == table_view(reserved@),
            body@ == token@.drop_first(),
            token@.len() > 0 && token@[0] == '-',
            body@.len() > 0 && body@[0] != '-',
            hit matches Some(h) ==> h < reserved@.len(),
            short_scan(t, body@, 0, None) == short_scan(t, body@, i as int, opt_int(hit)),
        decreases body.len() - i,
    {
        let spelling = vec!['-', body[i]];
        assert(spelling@ =~= seq!['-', body@[i as int]]);
        match exact_short_exec(reserved, spelling.as_slice()) {
            Some(k) => {
                assert(t[k as int] == reserved@[k as int]@);
                hit = Some(k);
                if reserved[k].takes_value_exec() {
                    return hit;
                }
            },
            None => {},
        }
        i += 1;
    }
    hit
}

fn reserved_option_for_exec(reserved: &[ReservedOption], token: &[char]) -> (r: Option<usize>)
    ensures
        r matches Some(i) ==> i < reserved@.len(),
        opt_int(r) == reserved_option_for(table_view(reserved@), token@),
{
    if is_long_exec(token) {
        reserved_long_option_exec(reserved, token)
    } else {
        reserved_short_cluster_exec(reserved, token)
    }
}

fn value_is_attached_exec(token: &[char], option: &ReservedOption) -> (b: bool)
    ensures
        b == value_is_attached(token@, option@),
{
    if has_char_exec(token, '=') {
        return true;
    }
    if !option.takes_value_exec() {
        return false;
    }
    if token.len() == 0 || token[0] != '-' || (token.len() >= 2 && token[1] == '-') {
        return false;
    }
    let body = slice_range(token, 1, token.len());
    assert(body@ =~= token@.drop_first());
    let mut j: usize = 0;
    while j < body.len()
        invariant
            j <= body@.len(),
            body@ == token@.drop_first(),
            !has_char(token@, '='),
            option@.1,
            token@.len() > 0 && token@[0] == '-' && !(token@.len() >= 2 && token@[1] == '-'),
            attached_scan(option@, body@, 0) == attached_scan(option@, body@, j as int),
        decreases body.len() - j,
    {
        let spelling = vec!['-', body[j]];
        assert(spelling@ =~= seq!['-', body@[j as int]]);
        if option.has_spelling_exec(spelling.as_slice()) {
            return j + 1 < body.len();
        }
        j += 1;
    }
    false
}

/// The strings of a list of string slices.
fn to_strings(base: &[&str]) -> (r: Vec<String>)
    ensures
        strings_view(r@) == strs_view(base@),
{
    let mut out: Vec<String> = Vec::new();
    let mut i: usize = 0;
    while i < base.len()
        invariant
            i <= base@.len(),
            out@.len() == i,
            forall|k: int| 0 <= k < i ==> #[trigger] out@[k]@ == base@[k]@,
        decreases base.len() - i,
    {
        let s = str_to_string(base[i]);
        out.push(s);
        i += 1;
    }
    assert(strings_view(out@) =~= strs_view(base@));
    out
}

/// Appends user-supplied extra args to `base`, stripping every token that
/// would override a reserved option. GNU getopt forms are stripped too:
/// `--name=value`, `--name value`, unique long abbreviations, bundled
/// shorts (`-rf`), and attached short values (`-Fpkg.kw.tar`). A mixed
/// short cluster that contains any reserved flag is dropped whole. All
/// other extras pass through in order.
pub fn merge_extra_args(base: &[&str], reserved: &[ReservedOption], extra_args: &[String]) -> (r: Vec<
    String,
>)
    ensures
        strings_view(r@) == strs_view(base@) + merge_tail(
            table_view(reserved@),
            strings_view(extra_args@),
        ),
{
    let ghost t = table_view(reserved@);
    let ghost ex = strings_view(extra_args@);
    let mut argv = to_strings(base);
    let mut i: usize = 0;
    assert(ex.skip(0) =~= ex);
    while i < extra_args.len()
        invariant
            i <= extra_args@.len(),
            t == table_view(reserved@),
            ex == strings_view(extra_args@),
            strs_view(base@) + merge_tail(t, ex) == strings_view(argv@) + merge_tail(
                t,
                ex.skip(i as int),
            ),
        decreases extra_args.len() - i,
    {
        let ghost rest = ex.skip(i as int);
        let token = chars_of(extra_args[i].as_str());
        assert(token@ == rest[0]);
        assert(rest.skip(1) =~= ex.skip(i + 1));
        match reserved_option_for_exec(reserved, token.as_slice()) {
            Some(k) => {
                assert(t[k as int] == reserved@[k as int]@);
                if reserved[k].takes_value_exec() && !value_is_attached_exec(
                    token.as_slice(),
                    &reserved[k],
                ) {
                    if i + 1 < extra_args.len() {
                        assert(rest.skip(2) =~= ex.skip(i + 2));
                        i += 2;
                    } else {
                        assert(ex.skip(i + 1) =~= seq![]);
                        i += 1;
                    }
                } else {
                    i += 1;
                }
            },
            None => {
                let ghost before = strings_view(argv@);
                argv.push(extra_args[i].clone());
                assert(strings_view(argv@) =~= before + seq![token@]);
                assert(before + (seq![token@] + merge_tail(t, ex.skip(i + 1))) =~= (before
                    + seq![token@]) + merge_tail(t, ex.skip(i + 1)));
                i += 1;
            },
        }
    }
    assert(ex.skip(i as int) =~= seq![]);
    assert(strings_view(argv@) + seq![] =~= strings_view(argv@));
    argv
}

/// Reserved for `kw build`: patch-hub owns the job's log file and never
/// runs hanging or tree-mutating modes from automation.
pub fn build_reserved() -> (r: Vec<ReservedOption>)
    ensures
        table_view(r@) == build_reserved_model(),
{
    let mut v: Vec<ReservedOption> = Vec::new();
    v.push(ReservedOption::gnu_abbrev(&["--help", "-h"], false));
    v.push(ReservedOption::gnu_abbrev(&["--alert"], true));
    v.push(ReservedOption::gnu_abbrev(&["--save-log-to"], true));
    v.push(ReservedOption::gnu_abbrev(&["--menu"], false));
    v.push(ReservedOption::gnu_abbrev(&["--clean"], false));
    v.push(ReservedOption::gnu_abbrev(&["--full-cleanup"], false));
    v.push(ReservedOption::gnu_abbrev(&["--doc"], false));
    v.push(ReservedOption::gnu_abbrev(&["--info"], false));
    v.push(ReservedOption::gnu_abbrev(&["--from-sha"], true));
    assert(table_view(v@) =~~= build_reserved_model());
    v
}


/// Reserved for `kw deploy`: the injected remote, reboot and force knobs
/// win; local, list/uninstall, interactive setup, boot-once and build-only
/// flags are stripped.
pub fn deploy_reserved() -> (r: Vec<ReservedOption>)
    ensures
        table_view(r@) == deploy_reserved_model(),
{
    let mut v: Vec<ReservedOption> = Vec::new();
    v.push(ReservedOption::gnu_abbrev(&["--remote"], true));
    v.push(ReservedOption::gnu_abbrev(&["--local"], false));
    v.push(ReservedOption::gnu_abbrev(&["--reboot", "-r"], false));
    v.push(ReservedOption::gnu_abbrev(&["--no-reboot"], false));
    v.push(ReservedOption::gnu_abbrev(&["--force", "-f"], false));
    v.push(ReservedOption::gnu_abbrev(&["--list", "-l"], false));
    v.push(ReservedOption::gnu_abbrev(&["--ls-line", "-s"], false));
    v.push(ReservedOption::gnu_abbrev(&["--list-all", "-a"], false));
    v.push(ReservedOption::gnu_abbrev(&["--setup"], false));
    v.push(ReservedOption::gnu_abbrev(&["--uninstall", "-u"], false));
    v.push(ReservedOption::gnu_abbrev(&["--from-package", "-F"], true));
    v.push(ReservedOption::gnu_abbrev(&["--create-package", "-p"], false));
    v.push(ReservedOption::gnu_abbrev(&["--boot-into-new-kernel-once", "-n"], false));
    v.push(ReservedOption::new(&["--help", "-h"], false));
    v.push(ReservedOption::new(&["--save-log-to"], true));
    v.push(ReservedOption::new(&["--alert"], true));
    v.push(ReservedOption::new(&["--ccache"], false));
    v.push(ReservedOption::new(&["--llvm"], false));
    v.push(ReservedOption::new(&["--cpu-scaling", "-S"], true));
    v.push(ReservedOption::new(&["--warnings", "-w"], false));
    v.push(ReservedOption::new(&["--cflags"], true));
    v.push(ReservedOption::new(&["--menu"], false));
    v.push(ReservedOption::new(&["--doc", "-d"], false));
    v.push(ReservedOption::new(&["--info", "-i"], false));
    v.push(ReservedOption::new(&["--clean", "-c"], false));
    v.push(ReservedOption::new(&["--full-cleanup"], false));
    v.push(ReservedOption::new(&["--from-sha"], true));
    assert(table_view(v@) =~~= deploy_reserved_model());
    v
}

/// The argv for a build job: `kw build <extras>` (reserved extras stripped).
pub fn build_argv(extra_args: &[String]) -> (r: Vec<String>)
    ensures
        strings_view(r@) == seq!["build"@] + merge_tail(
            build_reserved_model(),
            strings_view(extra_args@),
        ),
{
    let reserved = build_reserved();
    let base: [&str; 1] = ["build"];
    let r = merge_extra_args(&base, reserved.as_slice(), extra_args);
    assert(strs_view(base@) =~= seq!["build"@]);
    r
}

/// The argv for a deploy job: `kw deploy --remote <endpoint>
/// --no-reboot|--reboot [--force] <extras>`. Reserved extras are stripped
/// so the injected remote, reboot, and force flags win. `--force` is
/// omitted entirely when `force` is false.
pub fn deploy_argv(endpoint: &str, reboot: bool, force: bool, extra_args: &[String]) -> (r: Vec<
    String,
>)
    ensures
        strings_view(r@) == deploy_base(endpoint@, reboot, force) + merge_tail(
            deploy_reserved_model(),
            strings_view(extra_args@),
        ),
{
    let reserved = deploy_reserved();
    let mut base: Vec<&str> = Vec::new();
    base.push("deploy");
    base.push("--remote");
    base.push(endpoint);
    base.push(
        if reboot {
            "--reboot"
        } else {
            "--no-reboot"
        },
    );
    if force {
        base.push("--force");
    }
    let r = merge_extra_args(base.as_slice(), reserved.as_slice(), extra_args);
    assert(strs_view(base@) =~= deploy_base(endpoint@, reboot, force));
    r
}

// ───────────────────────────── laws ─────────────────────────────

/// Extras that set no reserved option pass through the merge unchanged.
pub proof fn lemma_unreserved_extras_pass_through(
    r: Seq<(Seq<Seq<char>>, bool, bool)>,
    extras: Seq<Seq<char>>,
)
    requires
        forall|i: int| 0 <= i < extras.len() ==> reserved_option_for(r, #[trigger] extras[i]) is None,
    ensures
        merge_tail(r, extras) == extras,
    decreases extras.len(),
{
    if extras.len() > 0 {
        assert(reserved_option_for(r, extras[0]) is None);
        let rest = extras.skip(1);
        assert forall|i: int| 0 <= i < rest.len() implies reserved_option_for(
            r,
            #[trigger] rest[i],
        ) is None by {
            assert(rest[i] == extras[i + 1]);
        }
        lemma_unreserved_extras_pass_through(r, rest);
        assert(seq![extras[0]] + rest =~= extras);
    }
}

/// Reserved options always win: no extra that survives the merge sets a
/// reserved option, and every survivor is one of the user's extras.
pub proof fn lemma_merge_strips_every_reserved_token(
    r: Seq<(Seq<Seq<char>>, bool, bool)>,
    extras: Seq<Seq<char>>,
)
    ensures
        forall|i: int|
            0 <= i < merge_tail(r, extras).len() ==> reserved_option_for(
                r,
                #[trigger] merge_tail(r, extras)[i],
            ) is None && extras.contains(merge_tail(r, extras)[i]),
    decreases extras.len(),
{
    if extras.len() > 0 {
        let t = extras[0];
        lemma_merge_strips_every_reserved_token(r, extras.skip(1));
        let m1 = merge_tail(r, extras.skip(1));
        assert forall|i: int| 0 <= i < m1.len() implies extras.contains(#[trigger] m1[i]) by {
            let w = choose|j: int| 0 <= j < extras.skip(1).len() && extras.skip(1)[j] == m1[i];
            assert(extras[w + 1] == m1[i]);
        }
        if extras.len() >= 2 {
            lemma_merge_strips_every_reserved_token(r, extras.skip(2));
            let m2 = merge_tail(r, extras.skip(2));
            assert forall|i: int| 0 <= i < m2.len() implies extras.contains(#[trigger] m2[i]) by {
                let w = choose|j: int| 0 <= j < extras.skip(2).len() && extras.skip(2)[j] == m2[i];
                assert(extras[w + 2] == m2[i]);
            }
        }
        match reserved_option_for(r, t) {
            Some(k) => {},
            None => {
                let m = merge_tail(r, extras);
                assert forall|i: int| 0 <= i < m.len() implies reserved_option_for(
                    r,
                    #[trigger] m[i],
                ) is None && extras.contains(m[i]) by {
                    if i == 0 {
                        assert(m[0] == t);
                        assert(extras[0] == t);
                    } else {
                        assert(m[i] == m1[i - 1]);
                    }
                }
            },
        }
    }
}

/// Merging is idempotent: feeding the surviving extras through the merge
/// again changes nothing.
pub proof fn lemma_merge_idempotent(r: Seq<(Seq<Seq<char>>, bool, bool)>, extras: Seq<Seq<char>>)
    ensures
        merge_tail(r, merge_tail(r, extras)) == merge_tail(r, extras),
{
    lemma_merge_strips_every_reserved_token(r, extras);
    lemma_unreserved_extras_pass_through(r, merge_tail(r, extras));
}

} // verus!
