//! Readiness probes for running `kw build` / `kw deploy` on a configured
//! kernel tree.
//!
//! The probes mirror kw's own discovery logic so that "ready" here means
//! what kw will actually do. Every decision is a function of plain values
//! with an exact contract; the functions that ask the file system, the
//! environment or the shell hand those answers to them.
use vstd::prelude::*;

use crate::infra::{EnvTrait, FileSystemTrait, ShellCommand, ShellOutput, ShellTrait};
use crate::kw::history::KwBuildRecord;
use crate::kw::status::{opt_str_view, opt_string_view};
use crate::text::{
    base_name, base_name_exec, chars_eq, chars_of, ends_with, ends_with_chars, find_char, find_char_exec, is_ascii_digit, is_digit, is_whitespace, is_ws, lines,
    lex_lt, lex_lt_exec, lines_of, parse_u64, path_join, path_join_exec, parse_unsigned, rfind_char, rfind_char_exec, slice_range, str_eq,
    str_to_string, string_from_chars, trim, trim_chars, trim_end_char, trim_end_char_exec,
    utf8_lossy, utf8_lossy_string, utf8_string,
};

verus! {

// ───────────────────────────── kw config files ─────────────────────────────

/// `s` without any whitespace character.
pub open spec fn remove_ws(s: Seq<char>) -> Seq<char>
    decreases s.len(),
{
    if s.len() == 0 {
        s
    } else if is_ws(s.last()) {
        remove_ws(s.drop_last())
    } else {
        remove_ws(s.drop_last()).push(s.last())
    }
}

/// One line of a kw config file: blank lines and lines starting with `#`
/// carry nothing; everything from the last `#` on is a comment; the key is
/// what precedes the first `=`, with all whitespace removed, and the value
/// is what follows it, trimmed. A line without `=` carries nothing.
pub open spec fn config_line(line: Seq<char>) -> Option<(Seq<char>, Seq<char>)> {
    if line.len() == 0 || line[0] == '#' {
        None
    } else {
        let unc = match rfind_char(line, '#') {
            Some(i) => line.take(i),
            None => line,
        };
        match find_char(unc, '=') {
            Some(j) => Some((remove_ws(unc.take(j)), trim(unc.skip(j + 1)))),
            None => None,
        }
    }
}

/// The entries of a kw config file read line by line: a later line with
/// the same key replaces the earlier value.
pub open spec fn config_fold(ls: Seq<Seq<char>>) -> Map<Seq<char>, Seq<char>>
    decreases ls.len(),
{
    if ls.len() == 0 {
        Map::empty()
    } else {
        let m = config_fold(ls.drop_last());
        match config_line(ls.last()) {
            Some((k, v)) => m.insert(k, v),
            None => m,
        }
    }
}

pub open spec fn parse_kw_config_spec(content: Seq<char>) -> Map<Seq<char>, Seq<char>> {
    config_fold(lines(content))
}

/// The map that a list of entries denotes: a later entry wins.
pub open spec fn entries_map(s: Seq<(String, String)>) -> Map<Seq<char>, Seq<char>>
    decreases s.len(),
{
    if s.len() == 0 {
        Map::empty()
    } else {
        entries_map(s.drop_last()).insert(s.last().0@, s.last().1@)
    }
}

pub open spec fn keys_distinct(s: Seq<(String, String)>) -> bool {
    forall|i: int, j: int| 0 <= i < j < s.len() ==> s[i].0@ != s[j].0@
}

/// The `key=value` entries of a kw config file.
pub struct KwConfig {
    entries: Vec<(String, String)>,
}

impl View for KwConfig {
    type V = Map<Seq<char>, Seq<char>>;

    closed spec fn view(&self) -> Map<Seq<char>, Seq<char>> {
        entries_map(self.entries@)
    }
}

proof fn lemma_entries_map_finite_len(s: Seq<(String, String)>)
    requires
        keys_distinct(s),
    ensures
        entries_map(s).dom().finite(),
        entries_map(s).dom().len() == s.len(),
        forall|i: int| 0 <= i < s.len() ==> #[trigger] entries_map(s).dom().contains(s[i].0@),
        forall|i: int| 0 <= i < s.len() ==> #[trigger] entries_map(s)[s[i].0@] == s[i].1@,
        forall|k: Seq<char>| #[trigger] entries_map(s).dom().contains(k) ==> exists|i: int|
            0 <= i < s.len() && s[i].0@ == k,
    decreases s.len(),
{
    if s.len() > 0 {
        let d = s.drop_last();
        assert(keys_distinct(d));
        lemma_entries_map_finite_len(d);
        assert forall|i: int| 0 <= i < d.len() implies d[i].0@ != s.last().0@ by {
            assert(d[i] == s[i]);
        }
        assert(!entries_map(d).dom().contains(s.last().0@));
        assert forall|i: int| 0 <= i < s.len() implies #[trigger] entries_map(s)[s[i].0@] == s[i].1@ by {
            if i < s.len() - 1 {
                assert(s[i] == d[i]);
            }
        }
        assert forall|i: int| 0 <= i < s.len() implies #[trigger] entries_map(s).dom().contains(
            s[i].0@,
        ) by {
            if i < s.len() - 1 {
                assert(s[i] == d[i]);
            }
        }
        assert forall|k: Seq<char>| #[trigger] entries_map(s).dom().contains(k) implies exists|i: int|
            0 <= i < s.len() && s[i].0@ == k by {
            if k != s.last().0@ {
                let i = choose|i: int| 0 <= i < d.len() && d[i].0@ == k;
                assert(s[i] == d[i]);
            } else {
                assert(s[s.len() - 1].0@ == k);
            }
        }
    }
}

proof fn lemma_entries_map_update(s: Seq<(String, String)>, i: int, e: (String, String))
    requires
        0 <= i < s.len(),
        s[i].0@ == e.0@,
        keys_distinct(s),
    ensures
        entries_map(s.update(i, e)) == entries_map(s).insert(e.0@, e.1@),
    decreases s.len(),
{
    let u = s.update(i, e);
    let d = s.drop_last();
    if i == s.len() - 1 {
        assert(u.drop_last() =~= d);
        assert(entries_map(u) =~= entries_map(s).insert(e.0@, e.1@));
    } else {
        assert(u.drop_last() =~= d.update(i, e));
        assert(keys_distinct(d));
        lemma_entries_map_update(d, i, e);
        assert(s[i] == d[i]);
        assert(s.last().0@ != e.0@);
        assert(entries_map(u) =~= entries_map(s).insert(e.0@, e.1@));
    }
}

impl KwConfig {
    #[verifier::type_invariant]
    spec fn inv(self) -> bool {
        keys_distinct(self.entries@)
    }

    fn empty() -> (r: Self)
        ensures
            r@ == Map::<Seq<char>, Seq<char>>::empty(),
    {
        KwConfig { entries: Vec::new() }
    }

    /// Sets `key` to `value`, replacing an earlier value.
    fn insert(&mut self, key: String, value: String)
        ensures
            final(self)@ == old(self)@.insert(key@, value@),
    {
        proof {
            use_type_invariant(&*self);
        }
        let mut es: Vec<(String, String)> = Vec::new();
        std::mem::swap(&mut es, &mut self.entries);
        let ghost s = es@;
        let mut i: usize = 0;
        while i < es.len()
            invariant
                i <= es@.len(),
                es@ == s,
                s == old(self).entries@,
                keys_distinct(s),
                forall|k: int| 0 <= k < i ==> s[k].0@ != key@,
            decreases es.len() - i,
        {
            if es[i].0 == key {
                let e = (key, value);
                proof {
                    lemma_entries_map_update(s, i as int, e);
                    assert forall|a: int, b: int| 0 <= a < b < s.len() implies s.update(
                        i as int,
                        e,
                    )[a].0@ != s.update(i as int, e)[b].0@ by {}
                }
                es.set(i, e);
                self.entries = es;
                return;
            }
            i += 1;
        }
        es.push((key, value));
        proof {
            assert(es@.drop_last() =~= s);
        }
        self.entries = es;
    }

    /// The value of `key`, if the file set it.
    pub fn get(&self, key: &str) -> (r: Option<&String>)
        ensures
            r is Some <==> self@.dom().contains(key@),
            r matches Some(v) ==> v@ == self@[key@],
    {
        proof {
            use_type_invariant(self);
            lemma_entries_map_finite_len(self.entries@);
        }
        let mut i: usize = 0;
        while i < self.entries.len()
            invariant
                i <= self.entries@.len(),
                keys_distinct(self.entries@),
                forall|k: int| 0 <= k < i ==> self.entries@[k].0@ != key@,
            decreases self.entries.len() - i,
        {
            if str_eq(self.entries[i].0.as_str(), key) {
                proof {
                    lemma_entries_map_finite_len(self.entries@);
                }
                return Some(&self.entries[i].1);
            }
            i += 1;
        }
        None
    }

    pub fn contains_key(&self, key: &str) -> (r: bool)
        ensures
            r == self@.dom().contains(key@),
    {
        self.get(key).is_some()
    }

    /// The number of distinct keys.
    pub fn len(&self) -> (r: usize)
        ensures
            r == self@.dom().len(),
    {
        proof {
            use_type_invariant(self);
            lemma_entries_map_finite_len(self.entries@);
        }
        self.entries.len()
    }
}

/// `s` without whitespace characters.
fn remove_ws_exec(s: &[char]) -> (r: Vec<char>)
    ensures
        r@ == remove_ws(s@),
{
    let mut out: Vec<char> = Vec::new();
    let mut i: usize = 0;
    assert(s@.take(0) =~= seq![]);
    while i < s.len()
        invariant
            i <= s@.len(),
            out@ == remove_ws(s@.take(i as int)),
        decreases s.len() - i,
    {
        assert(s@.take(i + 1).drop_last() =~= s@.take(i as int));
        if !is_whitespace(s[i]) {
            out.push(s[i]);
        }
        i += 1;
    }
    assert(s@.take(i as int) =~= s@);
    out
}

fn config_line_exec(line: &[char]) -> (r: Option<(String, String)>)
    ensures
        r matches Some(kv) ==> config_line(line@) == Some((kv.0@, kv.1@)),
        r is None ==> config_line(line@) is None,
{
    if line.len() == 0 || line[0] == '#' {
        return None;
    }
    let unc = match rfind_char_exec(line, '#') {
        Some(i) => slice_range(line, 0, i),
        None => slice_range(line, 0, line.len()),
    };
    assert(unc@ =~= (match rfind_char(line@, '#') {
        Some(i) => line@.take(i),
        None => line@,
    }));
    match find_char_exec(unc.as_slice(), '=') {
        Some(j) => {
            let k = slice_range(unc.as_slice(), 0, j);
            let key = remove_ws_exec(k.as_slice());
            let v = slice_range(unc.as_slice(), j + 1, unc.len());
            let value = trim_chars(v.as_slice());
            assert(k@ =~= unc@.take(j as int));
            assert(v@ =~= unc@.skip(j + 1));
            Some((string_from_chars(key.as_slice()), string_from_chars(value.as_slice())))
        },
        None => None,
    }
}

/// Parses kw's `key=value` config format (`.kw/build.config`,
/// `.kw/deploy.config`, ...) the way kw's own reader does: blank lines and
/// lines starting with `#` are skipped, everything from the last `#` on is
/// a trailing comment, the key loses all whitespace and the value is
/// trimmed. Lines without `=` are ignored; a final line without a newline
/// still counts; a repeated key keeps its last value.
pub fn parse_kw_config(content: &str) -> (r: KwConfig)
    ensures
        r@ == parse_kw_config_spec(content@),
{
    let cs = chars_of(content);
    let ls = lines_of(cs.as_slice());
    let ghost all = lines(cs@);
    let mut cfg = KwConfig::empty();
    assert(all.take(0) =~= seq![]);
    let mut i: usize = 0;
    while i < ls.len()
        invariant
            i <= ls@.len(),
            ls@.len() == all.len(),
            forall|k: int| 0 <= k < ls@.len() ==> #[trigger] ls@[k]@ == all[k],
            cfg@ == config_fold(all.take(i as int)),
        decreases ls.len() - i,
    {
        assert(all.take(i + 1).drop_last() =~= all.take(i as int));
        assert(all.take(i + 1).last() == all[i as int]);
        match config_line_exec(ls[i].as_slice()) {
            Some(kv) => {
                let (k, v) = kv;
                cfg.insert(k, v);
            },
            None => {},
        }
        i += 1;
    }
    assert(all.take(i as int) =~= all);
    cfg
}

// ───────────────────────────── errors and verdicts ─────────────────────────────

/// Errors from probes for states where "absent" is not a normal situation
/// (unlike a missing `.kw` dir, which is a readiness verdict).
#[derive(Debug, Clone, PartialEq, Eq)]
pub enum KwReadinessError {
    /// A file that should be readable was not; the text says what failed.
    Fs(String),
    /// The kw cache dir could not be resolved; the text names what was
    /// missing.
    Env(String),
}

pub open spec fn readiness_error_message(e: KwReadinessError) -> Seq<char> {
    match e {
        KwReadinessError::Fs(s) => "filesystem error: "@ + s@,
        KwReadinessError::Env(s) => "cannot resolve the kw cache dir: "@ + s@,
    }
}

impl KwReadinessError {
    pub fn message(&self) -> (r: String)
        ensures
            r@ == readiness_error_message(*self),
    {
        match self {
            KwReadinessError::Fs(s) => {
                let mut m = String::from_str("filesystem error: ");
                m.append(s.as_str());
                m
            },
            KwReadinessError::Env(s) => {
                let mut m = String::from_str("cannot resolve the kw cache dir: ");
                m.append(s.as_str());
                m
            },
        }
    }
}

/// Readiness of a configured kernel tree for kw operations.
#[derive(Debug, Clone, PartialEq, Eq)]
pub enum TreeReadiness {
    /// Kernel root, kw-initialized, with a `.config`. `arch` is the literal
    /// `arch=` value from `.kw/build.config`; `None` means the key is unset
    /// and image discovery globs `arch/*/boot/` instead.
    Ready { arch: Option<String> },
    /// The configured path is not a directory.
    Missing,
    /// The directory lacks the files and directories kw expects at a
    /// kernel tree root.
    NotAKernelRoot,
    /// No `.kw/` directory: `kw init` was never run in this tree.
    MissingKwDir,
    /// No `.config` at the build root (the tree itself, or the kw env's
    /// output dir when one is active).
    MissingKernelConfig,
}

pub open spec fn tree_readiness_message(t: TreeReadiness) -> Seq<char> {
    match t {
        TreeReadiness::Ready { .. } => "ready"@,
        TreeReadiness::Missing => "the configured path is not a directory"@,
        TreeReadiness::NotAKernelRoot =>
            "the directory is not a kernel tree root (missing files like Makefile or dirs like arch/)"@,
        TreeReadiness::MissingKwDir => "kw init was never run in this tree (no .kw/ directory)"@,
        TreeReadiness::MissingKernelConfig =>
            "no .config at the build root (the tree, or the kw env's O=)"@,
    }
}

impl TreeReadiness {
    /// The user-facing explanation of the verdict.
    pub fn message(&self) -> (r: &'static str)
        ensures
            r@ == tree_readiness_message(*self),
    {
        match self {
            TreeReadiness::Ready { .. } => "ready",
            TreeReadiness::Missing => "the configured path is not a directory",
            TreeReadiness::NotAKernelRoot =>
                "the directory is not a kernel tree root (missing files like Makefile or dirs like arch/)",
            TreeReadiness::MissingKwDir => "kw init was never run in this tree (no .kw/ directory)",
            TreeReadiness::MissingKernelConfig =>
                "no .config at the build root (the tree, or the kw env's O=)",
        }
    }
}

/// The `arch=` value of a build config, if set and not empty: kw treats
/// an empty value as unset.
pub open spec fn arch_of(content: Option<Seq<char>>) -> Option<Seq<char>> {
    match content {
        Some(c) => {
            let m = parse_kw_config_spec(c);
            if m.dom().contains("arch"@) && m["arch"@].len() > 0 {
                Some(m["arch"@])
            } else {
                None
            }
        },
        None => None,
    }
}

/// The `arch=` value in the text of `.kw/build.config` (`None` when the
/// file could not be read).
pub fn arch_from_build_config(content: Option<String>) -> (r: Option<String>)
    ensures
        opt_string_view(r) == arch_of(opt_string_view(content)),
{
    match content {
        Some(c) => {
            let cfg = parse_kw_config(c.as_str());
            match cfg.get("arch") {
                Some(a) => {
                    if a.as_str().is_empty() {
                        None
                    } else {
                        Some(a.clone())
                    }
                },
                None => None,
            }
        },
        None => None,
    }
}

/// The release string of a built kernel: the trimmed text of
/// `include/config/kernel.release`, unless it is empty.
pub open spec fn release_of(content: Option<Seq<char>>) -> Option<Seq<char>> {
    match content {
        Some(c) => if trim(c).len() > 0 {
            Some(trim(c))
        } else {
            None
        },
        None => None,
    }
}

pub fn release_from(content: Option<String>) -> (r: Option<String>)
    ensures
        opt_string_view(r) == release_of(opt_string_view(content)),
{
    match content {
        Some(c) => {
            let cs = chars_of(c.as_str());
            let t = trim_chars(cs.as_slice());
            if t.len() == 0 {
                None
            } else {
                Some(string_from_chars(t.as_slice()))
            }
        },
        None => None,
    }
}

// ───────────────────────────── the kw binary ─────────────────────────────

/// Minimum kw version this integration is verified against.
pub const KW_MIN_MAJOR: u32 = 0;

pub const KW_MIN_MINOR: u32 = 10;

/// Result of comparing the version kw reports against the minimum.
///
/// Advisory only: kw's shipped VERSION file can be stale, so `Below` may
/// fire on a recent kw and must never gate functionality; the raw line is
/// carried verbatim so the UI can show exactly what kw reported.
#[derive(Debug, Clone, PartialEq, Eq)]
pub enum KwVersionCheck {
    Meets,
    Below(String),
    /// The version output could not be obtained or parsed.
    Unknown,
}

/// Probe of the kw binary on `PATH`.
#[derive(Debug, Clone, PartialEq, Eq)]
pub struct KwBinaryProbe {
    pub available: bool,
    /// First line of `kw --version` output, verbatim.
    pub version_line: Option<String>,
    pub check: KwVersionCheck,
}

/// The first index at or after `from` holding an ASCII digit.
pub open spec fn find_digit_from(s: Seq<char>, from: int) -> Option<int>
    decreases s.len() - from,
{
    if from < 0 || from >= s.len() {
        None
    } else if is_ascii_digit(s[from]) {
        Some(from)
    } else {
        find_digit_from(s, from + 1)
    }
}

/// The leading run of ASCII digits of `s`.
pub open spec fn digit_prefix(s: Seq<char>) -> Seq<char>
    decreases s.len(),
{
    if s.len() > 0 && is_ascii_digit(s[0]) {
        seq![s[0]] + digit_prefix(s.drop_first())
    } else {
        seq![]
    }
}

/// `str::parse::<u32>`.
pub open spec fn parse_u32_spec(s: Seq<char>) -> Option<nat> {
    match parse_unsigned(s) {
        Some(n) => if n <= u32::MAX {
            Some(n)
        } else {
            None
        },
        None => None,
    }
}

/// The first `X.Y` pair of a version line: from the first digit on, `X` is
/// what precedes the next `.` and `Y` the digits right after it. Both
/// `0.10.0` and the stale `beta-0.9` parse.
pub open spec fn parse_kw_version_spec(line: Seq<char>) -> Option<(nat, nat)> {
    match find_digit_from(line, 0) {
        Some(start) => {
            let rest = line.skip(start);
            match find_char(rest, '.') {
                Some(d) => match (parse_u32_spec(rest.take(d)), parse_u32_spec(
                    digit_prefix(rest.skip(d + 1)),
                )) {
                    (Some(major), Some(minor)) => Some((major, minor)),
                    _ => None,
                },
                None => None,
            }
        },
        None => None,
    }
}

pub open spec fn meets_minimum(v: (nat, nat)) -> bool {
    v.0 > KW_MIN_MAJOR || (v.0 == KW_MIN_MAJOR && v.1 >= KW_MIN_MINOR)
}

fn parse_u32_chars(s: &[char]) -> (r: Option<u32>)
    ensures
        r matches Some(v) ==> parse_u32_spec(s@) == Some(v as nat),
        r is None ==> parse_u32_spec(s@) is None,
{
    match parse_u64(s) {
        Some(v) => if v <= u32::MAX as u64 {
            Some(v as u32)
        } else {
            None
        },
        None => None,
    }
}

fn digit_prefix_exec(s: &[char]) -> (r: Vec<char>)
    ensures
        r@ == digit_prefix(s@),
{
    let mut i: usize = 0;
    assert(s@.skip(0) =~= s@);
    while i < s.len() && is_digit(s[i])
        invariant
            i <= s@.len(),
            forall|k: int| 0 <= k < i ==> is_ascii_digit(#[trigger] s@[k]),
            digit_prefix(s@) == s@.take(i as int) + digit_prefix(s@.skip(i as int)),
        decreases s.len() - i,
    {
        assert(s@.skip(i as int).drop_first() =~= s@.skip(i + 1));
        assert(s@.take(i as int) + seq![s@[i as int]] =~= s@.take(i + 1));
        i += 1;
    }
    let r = slice_range(s, 0, i);
    assert(r@ =~= s@.take(i as int));
    assert(s@.take(i as int) + seq![] =~= s@.take(i as int));
    r
}

/// Extracts the first `X.Y[.Z]` pair from a version line.
pub fn parse_kw_version(line: &str) -> (r: Option<(u32, u32)>)
    ensures
        r matches Some(v) ==> parse_kw_version_spec(line@) == Some((v.0 as nat, v.1 as nat)),
        r is None ==> parse_kw_version_spec(line@) is None,
{
    let cs = chars_of(line);
    let mut start: usize = 0;
    while start < cs.len() && !is_digit(cs[start])
        invariant
            start <= cs@.len(),
            find_digit_from(cs@, 0) == find_digit_from(cs@, start as int),
        decreases cs.len() - start,
    {
        start += 1;
    }
    if start >= cs.len() {
        return None;
    }
    let rest = slice_range(cs.as_slice(), start, cs.len());
    assert(rest@ =~= cs@.skip(start as int));
    let d = match find_char_exec(rest.as_slice(), '.') {
        Some(d) => d,
        None => {
            return None;
        },
    };
    let major_part = slice_range(rest.as_slice(), 0, d);
    assert(major_part@ =~= rest@.take(d as int));
    let after = slice_range(rest.as_slice(), d + 1, rest.len());
    assert(after@ =~= rest@.skip(d + 1));
    let minor_part = digit_prefix_exec(after.as_slice());
    match (parse_u32_chars(major_part.as_slice()), parse_u32_chars(minor_part.as_slice())) {
        (Some(major), Some(minor)) => Some((major, minor)),
        _ => None,
    }
}

/// The advisory verdict for a version line.
pub open spec fn version_check_holds(line: Seq<char>, c: KwVersionCheck) -> bool {
    match parse_kw_version_spec(line) {
        Some(v) => if meets_minimum(v) {
            c is Meets
        } else {
            c matches KwVersionCheck::Below(l) && l@ == line
        },
        None => c is Unknown,
    }
}

pub fn check_kw_version(version_line: &str) -> (r: KwVersionCheck)
    ensures
        version_check_holds(version_line@, r),
{
    match parse_kw_version(version_line) {
        Some(v) => {
            let (major, minor) = v;
            if major > KW_MIN_MAJOR || (major == KW_MIN_MAJOR && minor >= KW_MIN_MINOR) {
                KwVersionCheck::Meets
            } else {
                KwVersionCheck::Below(str_to_string(version_line))
            }
        },
        None => KwVersionCheck::Unknown,
    }
}

/// The version line in `kw --version` output: its first line, when the
/// output is text and that line is not empty.
pub open spec fn version_line_of(stdout: Seq<u8>) -> Option<Seq<char>> {
    if vstd::utf8::valid_utf8(stdout) {
        let ls = lines(vstd::utf8::decode_utf8(stdout));
        if ls.len() > 0 && ls[0].len() > 0 {
            Some(ls[0])
        } else {
            None
        }
    } else {
        None
    }
}

pub fn version_line_from(stdout: Vec<u8>) -> (r: Option<String>)
    ensures
        opt_string_view(r) == version_line_of(stdout@),
{
    match utf8_string(stdout) {
        Some(text) => {
            let cs = chars_of(text.as_str());
            let ls = lines_of(cs.as_slice());
            if ls.len() > 0 && ls[0].len() > 0 {
                Some(string_from_chars(ls[0].as_slice()))
            } else {
                None
            }
        },
        None => None,
    }
}

/// What a finished command reported, as plain values: whether it
/// succeeded, and its standard output.
pub open spec fn output_view(out: Option<ShellOutput>) -> Option<(bool, Seq<u8>)> {
    match out {
        Some(o) => Some((o.success, o.stdout@)),
        None => None,
    }
}

/// The probe made of what was found: whether `which kw` found kw, and
/// what `kw --version` reported (`None` when it could not be run). An
/// absent binary has no version; a present one has the first line of a
/// successful run's output, checked against kw's floor.
pub open spec fn probe_holds(found: bool, out: Option<(bool, Seq<u8>)>, r: KwBinaryProbe) -> bool {
    if !found {
        !r.available && r.version_line is None && r.check is Unknown
    } else {
        &&& r.available
        &&& opt_string_view(r.version_line) == match out {
            Some((true, stdout)) => version_line_of(stdout),
            _ => None,
        }
        &&& match r.version_line {
            Some(l) => version_check_holds(l@, r.check),
            None => r.check is Unknown,
        }
    }
}

/// The probe from the answers of `which kw` and `kw --version`.
pub fn probe_from(found: bool, out: Option<ShellOutput>) -> (r: KwBinaryProbe)
    ensures
        probe_holds(found, output_view(out), r),
{
    if !found {
        return KwBinaryProbe { available: false, version_line: None, check: KwVersionCheck::Unknown };
    }
    let version_line = match out {
        Some(o) => if o.success {
            version_line_from(o.stdout)
        } else {
            None
        },
        None => None,
    };
    let check = match &version_line {
        Some(line) => check_kw_version(line.as_str()),
        None => KwVersionCheck::Unknown,
    };
    KwBinaryProbe { available: true, version_line, check }
}

/// The command that reads kw's version: `kw --version`.
pub fn kw_version_command() -> (r: ShellCommand)
    ensures
        r.program@ == "kw"@,
        r.args@.len() == 1,
        r.args@[0]@ == "--version"@,
{
    let mut args: Vec<String> = Vec::new();
    args.push(String::from_str("--version"));
    ShellCommand { program: String::from_str("kw"), args }
}

/// Probes for the kw binary (`which kw`) and, when present, its version
/// (`kw --version` from [`kw_version_command`], whose first line is the
/// version string); the command is only run when kw was found. The probe
/// is [`probe_from`] of the two answers.
pub fn probe_kw_binary<E: EnvTrait, S: ShellTrait>(env: &E, shell: &S) -> (r: KwBinaryProbe)
    ensures
        exists|found: bool, out: Option<(bool, Seq<u8>)>| probe_holds(found, out, r),
        !r.available ==> r.version_line is None && r.check is Unknown,
        r.version_line matches Some(l) ==> l@.len() > 0 && version_check_holds(l@, r.check),
        r.version_line is None ==> r.check is Unknown,
{
    if !env.which("kw") {
        return probe_from(false, None);
    }
    let cmd = kw_version_command();
    let out = shell.execute(&cmd);
    probe_from(true, out)
}

// ───────────────────────────── deploy without a build ─────────────────────────────

/// Why a deploy without a preceding build was refused. Each variant's
/// message is the actionable explanation.
#[derive(Debug, Clone, PartialEq, Eq)]
pub enum DeployAloneRefusal {
    TreeNotReady(TreeReadiness),
    NoBuildRecord,
    LastBuildFailed,
    HeadMismatch { recorded: String, current: String },
    TreePathDrift { recorded: String, current: String },
    OutputDirMismatch,
    ImageMissing,
}

pub open spec fn refusal_message(r: DeployAloneRefusal) -> Seq<char> {
    match r {
        DeployAloneRefusal::TreeNotReady(t) => "the kernel tree is not ready: "@
            + tree_readiness_message(t),
        DeployAloneRefusal::NoBuildRecord =>
            "no build recorded for this tree and branch; run a build first"@,
        DeployAloneRefusal::LastBuildFailed =>
            "the last build of this branch failed; rebuild before deploying"@,
        DeployAloneRefusal::HeadMismatch { recorded, current } => "the last build was on branch '"@
            + recorded@ + "', but HEAD is '"@ + current@
            + "'; rebuild on the current branch before deploying"@,
        DeployAloneRefusal::TreePathDrift { recorded, current } => "the kernel tree moved from '"@
            + recorded@ + "' to '"@ + current@ + "' since the last build; rebuild before deploying"@,
        DeployAloneRefusal::OutputDirMismatch =>
            "the last build ran with a different kw env (O=) than the active one; rebuild in the active env before deploying"@,
        DeployAloneRefusal::ImageMissing =>
            "no kernel image (*Image) found under arch/*/boot; rebuild before deploying (with no arch= in .kw/build.config, kw probes arch/x86_64/boot/, which does not exist in kernel trees \u{2014} set arch= explicitly)"@,
    }
}

impl DeployAloneRefusal {
    pub fn message(&self) -> (r: String)
        ensures
            r@ == refusal_message(*self),
    {
        match self {
            DeployAloneRefusal::TreeNotReady(t) => {
                let mut m = String::from_str("the kernel tree is not ready: ");
                m.append(t.message());
                m
            },
            DeployAloneRefusal::NoBuildRecord => String::from_str(
                "no build recorded for this tree and branch; run a build first",
            ),
            DeployAloneRefusal::LastBuildFailed => String::from_str(
                "the last build of this branch failed; rebuild before deploying",
            ),
            DeployAloneRefusal::HeadMismatch { recorded, current } => {
                let mut m = String::from_str("the last build was on branch '");
                m.append(recorded.as_str());
                m.append("', but HEAD is '");
                m.append(current.as_str());
                m.append("'; rebuild on the current branch before deploying");
                m
            },
            DeployAloneRefusal::TreePathDrift { recorded, current } => {
                let mut m = String::from_str("the kernel tree moved from '");
                m.append(recorded.as_str());
                m.append("' to '");
                m.append(current.as_str());
                m.append("' since the last build; rebuild before deploying");
                m
            },
            DeployAloneRefusal::OutputDirMismatch => String::from_str(
                "the last build ran with a different kw env (O=) than the active one; rebuild in the active env before deploying",
            ),
            DeployAloneRefusal::ImageMissing => String::from_str(
                "no kernel image (*Image) found under arch/*/boot; rebuild before deploying (with no arch= in .kw/build.config, kw probes arch/x86_64/boot/, which does not exist in kernel trees \u{2014} set arch= explicitly)",
            ),
        }
    }
}

/// The record-matching half of the deploy-alone gate, checked in order: a
/// record exists, it succeeded, it was built on the current HEAD, on the
/// same tree path (trailing slashes aside), in the same kw env, and an
/// image is still there.
pub open spec fn deploy_alone_holds(
    record: Option<KwBuildRecord>,
    tree_path: Seq<char>,
    head: Seq<char>,
    output_dir: Option<Seq<char>>,
    has_image: bool,
    r: Result<(), DeployAloneRefusal>,
) -> bool {
    match record {
        None => r matches Err(DeployAloneRefusal::NoBuildRecord),
        Some(rec) => if !rec.success {
            r matches Err(DeployAloneRefusal::LastBuildFailed)
        } else if rec.branch@ != head {
            r matches Err(DeployAloneRefusal::HeadMismatch { recorded, current }) && recorded@
                == rec.branch@ && current@ == head
        } else if trim_end_char(rec.tree_path@, '/') != trim_end_char(tree_path, '/') {
            r matches Err(DeployAloneRefusal::TreePathDrift { recorded, current }) && recorded@
                == rec.tree_path@ && current@ == tree_path
        } else if opt_string_view(rec.output_dir) != output_dir {
            r matches Err(DeployAloneRefusal::OutputDirMismatch)
        } else if !has_image {
            r matches Err(DeployAloneRefusal::ImageMissing)
        } else {
            r is Ok
        },
    }
}

fn opt_eq(a: &Option<String>, b: Option<&str>) -> (r: bool)
    ensures
        r == (opt_string_view(*a) == opt_str_view(b)),
{
    match (a, b) {
        (Some(x), Some(y)) => str_eq(x.as_str(), y),
        (None, None) => true,
        _ => false,
    }
}

/// Deploy-alone gate: a deploy without a preceding build is only allowed
/// when a successful build record exists for the tree and current HEAD,
/// written against the same tree path and kw env, and a kernel image is
/// still discoverable.
pub fn check_deploy_alone(
    record: Option<&KwBuildRecord>,
    tree_path: &str,
    head_branch: &str,
    output_dir: Option<&str>,
    image: Option<&str>,
) -> (r: Result<(), DeployAloneRefusal>)
    ensures
        deploy_alone_holds(
            match record {
                Some(x) => Some(*x),
                None => None,
            },
            tree_path@,
            head_branch@,
            opt_str_view(output_dir),
            image is Some,
            r,
        ),
{
    let rec = match record {
        Some(rec) => rec,
        None => {
            return Err(DeployAloneRefusal::NoBuildRecord);
        },
    };
    if !rec.success {
        return Err(DeployAloneRefusal::LastBuildFailed);
    }
    if !str_eq(rec.branch.as_str(), head_branch) {
        return Err(
            DeployAloneRefusal::HeadMismatch {
                recorded: rec.branch.clone(),
                current: str_to_string(head_branch),
            },
        );
    }
    let rp = chars_of(rec.tree_path.as_str());
    let tp = chars_of(tree_path);
    let rt = trim_end_char_exec(rp.as_slice(), '/');
    let tt = trim_end_char_exec(tp.as_slice(), '/');
    if !chars_eq(rt.as_slice(), tt.as_slice()) {
        return Err(
            DeployAloneRefusal::TreePathDrift {
                recorded: rec.tree_path.clone(),
                current: str_to_string(tree_path),
            },
        );
    }
    if !opt_eq(&rec.output_dir, output_dir) {
        return Err(DeployAloneRefusal::OutputDirMismatch);
    }
    if image.is_none() {
        return Err(DeployAloneRefusal::ImageMissing);
    }
    Ok(())
}

// ───────────────────────────── the tree's branch ─────────────────────────────

/// `git -C <tree> branch --show-current`.
pub fn head_branch_command(tree_path: &str) -> (r: ShellCommand)
    ensures
        r.program@ == "git"@,
        r.args@.map_values(|a: String| a@) == seq!["-C"@, tree_path@, "branch"@, "--show-current"@],
{
    let cmd = ShellCommand::new("git").arg("-C").arg(tree_path).arg("branch").arg(
        "--show-current",
    );
    assert(cmd.args@.map_values(|a: String| a@) =~= seq![
        "-C"@,
        tree_path@,
        "branch"@,
        "--show-current"@,
    ]);
    cmd
}

/// The current branch as `git branch --show-current` printed it: the
/// output read leniently and trimmed, when git ran and succeeded; nothing
/// otherwise (no repository, or a detached HEAD, for which git prints
/// nothing). No build record matches an empty branch, so an unknown HEAD
/// refuses deploying alone.
pub open spec fn head_branch_of(run: Option<(bool, Seq<u8>)>) -> Seq<char> {
    match run {
        Some((true, out)) => trim(utf8_lossy(out)),
        _ => seq![],
    }
}

pub fn head_branch_from(run: Option<ShellOutput>) -> (r: String)
    ensures
        r@ == head_branch_of(match run {
            Some(o) => Some((o.success, o.stdout@)),
            None => None,
        }),
{
    match run {
        Some(o) => {
            if o.success {
                let text = utf8_lossy_string(&o.stdout);
                let cs = chars_of(text.as_str());
                let t = trim_chars(cs.as_slice());
                string_from_chars(t.as_slice())
            } else {
                String::new()
            }
        },
        None => String::new(),
    }
}

/// The tree's current branch, probed with git.
pub fn head_branch<S: ShellTrait>(shell: &S, tree_path: &str) -> (r: String)
    ensures
        exists|run: Option<(bool, Seq<u8>)>| r@ == head_branch_of(run),
{
    let cmd = head_branch_command(tree_path);
    let run = shell.execute(&cmd);
    let ghost seen = match &run {
        Some(o) => Some((o.success, o.stdout@)),
        None => None,
    };
    let r = head_branch_from(run);
    assert(r@ == head_branch_of(seen));
    r
}

// ───────────────────────────── the kw env's output dir ─────────────────────────────

/// The standard base64 alphabet's character for a six-bit value.
pub open spec fn base64_digit(v: int) -> char {
    "ABCDEFGHIJKLMNOPQRSTUVWXYZabcdefghijklmnopqrstuvwxyz0123456789+/"@[v]
}

/// Standard base64 of bytes (RFC 4648 alphabet, `=` padding, no line
/// wrapping): each group of three bytes gives four digits; a last group
/// of one or two bytes gives two or three digits and `=` padding.
pub open spec fn base64_bytes(b: Seq<u8>) -> Seq<char>
    decreases b.len(),
{
    if b.len() == 0 {
        seq![]
    } else if b.len() == 1 {
        seq![base64_digit((b[0] / 4) as int), base64_digit((b[0] % 4) * 16), '=', '=']
    } else if b.len() == 2 {
        seq![
            base64_digit((b[0] / 4) as int),
            base64_digit((b[0] % 4) * 16 + b[1] / 16),
            base64_digit((b[1] % 16) * 4),
            '=',
        ]
    } else {
        seq![
            base64_digit((b[0] / 4) as int),
            base64_digit((b[0] % 4) * 16 + b[1] / 16),
            base64_digit((b[1] % 16) * 4 + b[2] / 64),
            base64_digit((b[2] % 64) as int),
        ] + base64_bytes(b.skip(3))
    }
}

/// What standard base64 (with padding, no line wrapping) makes of the UTF-8
/// bytes of a text.
pub open spec fn base64_standard(text: Seq<char>) -> Seq<char> {
    base64_bytes(vstd::utf8::encode_utf8(text))
}

/// `base64::engine::general_purpose::STANDARD.encode`, on a text's bytes.
#[verifier::external_body]
fn base64_encode(text: &str) -> (r: String)
    ensures
        r@ == base64_standard(text@),
{
    base64::Engine::encode(&base64::engine::general_purpose::STANDARD, text)
}

/// The tree path as kw encodes it: trailing slashes trimmed (kw encodes its
/// working directory after changing into the tree), the root staying `/`.
pub open spec fn normalized_tree_path(p: Seq<char>) -> Seq<char> {
    if trim_end_char(p, '/').len() == 0 {
        "/"@
    } else {
        trim_end_char(p, '/')
    }
}

/// The base of kw's cache: `XDG_CACHE_HOME` unless unset or empty, else
/// `$HOME/.cache`.
pub open spec fn cache_base_of(xdg: Option<Seq<char>>, home: Option<Seq<char>>) -> Option<
    Seq<char>,
> {
    if xdg is Some && xdg->0.len() > 0 {
        xdg
    } else {
        match home {
            Some(h) => Some(h + "/.cache"@),
            None => None,
        }
    }
}

/// `{cache}/kw/envs/<base64(tree path)>/<env name>`.
pub open spec fn env_output_dir(cache: Seq<char>, tree_path: Seq<char>, env_name: Seq<char>) -> Seq<
    char,
> {
    path_join(
        path_join(
            path_join(path_join(cache, "kw"@), "envs"@),
            base64_standard(normalized_tree_path(tree_path)),
        ),
        env_name,
    )
}

/// The output dir named by the text of `.kw/env.current`: the env name is
/// that text without trailing newlines, and an empty name names no env.
pub open spec fn output_dir_holds(
    content: Seq<char>,
    xdg: Option<Seq<char>>,
    home: Option<Seq<char>>,
    tree_path: Seq<char>,
    r: Result<Option<String>, KwReadinessError>,
) -> bool {
    let name = trim_end_char(content, '\n');
    if name.len() == 0 {
        r matches Ok(None)
    } else {
        match cache_base_of(xdg, home) {
            Some(cache) => r matches Ok(Some(p)) && p@ == env_output_dir(cache, tree_path, name),
            None => r matches Err(KwReadinessError::Env(_)),
        }
    }
}

/// kw's env marker of a tree: `<tree>/.kw/env.current`.
pub open spec fn env_current_path(tree_path: Seq<char>) -> Seq<char> {
    path_join(path_join(tree_path, ".kw"@), "env.current"@)
}

/// The output dir from what was found: no env without an `env.current`
/// file, an error naming it when it cannot be read, else what
/// [`output_dir_holds`] makes of its content and of `XDG_CACHE_HOME` /
/// `HOME` (`HOME` is only consulted when `XDG_CACHE_HOME` is unset or
/// empty).
pub open spec fn output_dir_outcome(
    tree_path: Seq<char>,
    env_is_file: bool,
    content: Option<Seq<char>>,
    xdg: Option<Seq<char>>,
    home: Option<Seq<char>>,
    r: Result<Option<String>, KwReadinessError>,
) -> bool {
    if !env_is_file {
        r matches Ok(None)
    } else {
        match content {
            None => r matches Err(KwReadinessError::Fs(m)) && m@ == "cannot read "@ + env_current_path(
                tree_path,
            ),
            Some(c) => output_dir_holds(c, xdg, home, tree_path, r),
        }
    }
}

pub fn output_dir_for(content: &str, xdg: Option<String>, home: Option<String>, tree_path: &str) -> (r:
    Result<Option<String>, KwReadinessError>)
    ensures
        output_dir_holds(content@, opt_string_view(xdg), opt_string_view(home), tree_path@, r),
{
    let cc = chars_of(content);
    let name_chars = trim_end_char_exec(cc.as_slice(), '\n');
    if name_chars.len() == 0 {
        return Ok(None);
    }
    let name = string_from_chars(name_chars.as_slice());
    let cache = match xdg {
        Some(x) if !x.as_str().is_empty() => x,
        _ => match home {
            Some(h) => {
                let mut c = h;
                c.append("/.cache");
                c
            },
            None => {
                return Err(KwReadinessError::Env(String::from_str("neither XDG_CACHE_HOME nor HOME is set")));
            },
        },
    };
    let tp = chars_of(tree_path);
    let trimmed = trim_end_char_exec(tp.as_slice(), '/');
    let normalized = if trimmed.len() == 0 {
        String::from_str("/")
    } else {
        string_from_chars(trimmed.as_slice())
    };
    let encoded = base64_encode(normalized.as_str());
    let p1 = path_join_exec(cache.as_str(), "kw");
    let p2 = path_join_exec(p1.as_str(), "envs");
    let p3 = path_join_exec(p2.as_str(), encoded.as_str());
    let p4 = path_join_exec(p3.as_str(), name.as_str());
    Ok(Some(p4))
}

/// Resolves kw's active build output dir (`O=`) for `tree_path`: the env
/// name is the content of `<tree>/.kw/env.current` and the output dir is
/// `{XDG_CACHE_HOME | ~/.cache}/kw/envs/<base64(tree path)>/<env name>`.
/// `Ok(None)` when no env is active; an unreadable `env.current` or an
/// unresolvable cache base is an error, since the env state is then
/// unknown. Whatever was read is handed to [`output_dir_for`].
pub fn resolve_output_dir<F: FileSystemTrait, E: EnvTrait>(fs: &F, env: &E, tree_path: &str) -> (r:
    Result<Option<String>, KwReadinessError>)
    ensures
        exists|env_is_file: bool, content: Option<Seq<char>>, xdg: Option<Seq<char>>, home: Option<
            Seq<char>,
        >| output_dir_outcome(tree_path@, env_is_file, content, xdg, home, r),
        r matches Err(KwReadinessError::Fs(_)) || exists|
            content: Seq<char>,
            xdg: Option<Seq<char>>,
            home: Option<Seq<char>>,
        | output_dir_holds(content, xdg, home, tree_path@, r),
{
    let kw_dir = path_join_exec(tree_path, ".kw");
    let env_file = path_join_exec(kw_dir.as_str(), "env.current");
    if !fs.is_file(env_file.as_str()) {
        assert(output_dir_holds(seq![], None, None, tree_path@, Ok(None)));
        assert(output_dir_outcome(tree_path@, false, None, None, None, Ok(None)));
        return Ok(None);
    }
    let content = match fs.read_to_string(env_file.as_str()) {
        Some(c) => c,
        None => {
            let mut m = String::from_str("cannot read ");
            m.append(env_file.as_str());
            let r = Err(KwReadinessError::Fs(m));
            assert(output_dir_outcome(tree_path@, true, None, None, None, r));
            return r;
        },
    };
    let xdg = env.var("XDG_CACHE_HOME");
    let home = match &xdg {
        Some(x) if !x.as_str().is_empty() => None,
        _ => env.var("HOME"),
    };
    let ghost xs = opt_string_view(xdg);
    let ghost hs = opt_string_view(home);
    let r = output_dir_for(content.as_str(), xdg, home, tree_path);
    assert(output_dir_holds(content@, xs, hs, tree_path@, r));
    assert(output_dir_outcome(tree_path@, true, Some(content@), xs, hs, r));
    r
}

// ───────────────────────────── kernel images ─────────────────────────────

/// A candidate image's basename ends with `Image` (case-sensitive, so
/// `Image.gz` and `image` are not images).
pub open spec fn is_image_name(p: Seq<char>) -> bool {
    ends_with(base_name(p), "Image"@)
}

/// `a` is newer than `b`; equal times are broken by the larger path, as
/// kw's `sort -r | head -1` does.
pub open spec fn newer(a: (u64, Seq<char>), b: (u64, Seq<char>)) -> bool {
    a.0 > b.0 || (a.0 == b.0 && lex_lt(b.1, a.1))
}

pub open spec fn candidates_view(c: Seq<(u64, String)>) -> Seq<(u64, Seq<char>)> {
    c.map_values(|e: (u64, String)| (e.0, e.1@))
}

/// Index `i` holds a candidate that no other candidate is newer than.
pub open spec fn is_newest(c: Seq<(u64, Seq<char>)>, i: int) -> bool {
    0 <= i < c.len() && forall|j: int| 0 <= j < c.len() ==> !newer(#[trigger] c[j], c[i])
}

proof fn lemma_lex_lt_trans(a: Seq<char>, b: Seq<char>, c: Seq<char>)
    requires
        lex_lt(a, b),
        lex_lt(b, c),
    ensures
        lex_lt(a, c),
    decreases a.len(),
{
    if a.len() > 0 && b.len() > 0 && c.len() > 0 && a[0] == b[0] && b[0] == c[0] {
        lemma_lex_lt_trans(a.drop_first(), b.drop_first(), c.drop_first());
    }
}

proof fn lemma_lex_lt_irrefl(a: Seq<char>)
    ensures
        !lex_lt(a, a),
    decreases a.len(),
{
    if a.len() > 0 {
        lemma_lex_lt_irrefl(a.drop_first());
    }
}

proof fn lemma_newer_trans(a: (u64, Seq<char>), b: (u64, Seq<char>), c: (u64, Seq<char>))
    requires
        newer(a, b),
        newer(b, c),
    ensures
        newer(a, c),
{
    if a.0 == b.0 && b.0 == c.0 {
        lemma_lex_lt_trans(c.1, b.1, a.1);
    }
}

/// The index of the newest candidate, or `None` when there is none.
pub fn newest_candidate(c: &Vec<(u64, String)>) -> (r: Option<usize>)
    ensures
        r is None <==> c@.len() == 0,
        r matches Some(i) ==> is_newest(candidates_view(c@), i as int),
{
    if c.len() == 0 {
        return None;
    }
    let ghost cv = candidates_view(c@);
    let mut best: usize = 0;
    let mut i: usize = 1;
    proof {
        lemma_lex_lt_irrefl(cv[0].1);
    }
    while i < c.len()
        invariant
            1 <= i <= c@.len(),
            cv == candidates_view(c@),
            best < i,
            forall|j: int| 0 <= j < i ==> !newer(#[trigger] cv[j], cv[best as int]),
        decreases c.len() - i,
    {
        let (t, ref p) = c[i];
        let (bt, ref bp) = c[best];
        let bp_chars = chars_of(bp.as_str());
        let p_chars = chars_of(p.as_str());
        let is_newer = t > bt || (t == bt && lex_lt_exec(bp_chars.as_slice(), p_chars.as_slice()));
        assert(cv[i as int] == (t, p@));
        assert(cv[best as int] == (bt, bp@));
        if is_newer {
            proof {
                assert forall|j: int| 0 <= j < i + 1 implies !newer(#[trigger] cv[j], cv[i as int]) by {
                    if j < i && newer(cv[j], cv[i as int]) {
                        lemma_newer_trans(cv[j], cv[i as int], cv[best as int]);
                    }
                    if j == i {
                        lemma_lex_lt_irrefl(cv[i as int].1);
                    }
                }
            }
            best = i;
        }
        i += 1;
    }
    Some(best)
}

fn is_image_name_exec(p: &str) -> (r: bool)
    ensures
        r == is_image_name(p@),
{
    let pc = chars_of(p);
    let b = base_name_exec(pc.as_slice());
    let suffix = chars_of("Image");
    ends_with_chars(b.as_slice(), suffix.as_slice())
}

/// A directory listing as plain values: each entry's path, whether it is
/// a regular file, and its modification time (0, the epoch, when it could
/// not be read).
pub open spec fn listing_view(l: Seq<(String, bool, u64)>) -> Seq<(Seq<char>, bool, u64)> {
    l.map_values(|e: (String, bool, u64)| (e.0@, e.1, e.2))
}

/// The kernel image candidates of a listing, in order: the regular files
/// whose base name ends in `Image`, with their modification times.
pub open spec fn image_candidates(l: Seq<(Seq<char>, bool, u64)>) -> Seq<(u64, Seq<char>)>
    decreases l.len(),
{
    if l.len() == 0 {
        seq![]
    } else {
        let rest = image_candidates(l.drop_last());
        let e = l.last();
        if e.1 && is_image_name(e.0) {
            rest.push((e.2, e.0))
        } else {
            rest
        }
    }
}

/// `r` is the path of the newest candidate (latest time, then greatest
/// path), or `None` when there is none.
pub open spec fn newest_pick(c: Seq<(u64, Seq<char>)>, r: Option<Seq<char>>) -> bool {
    match r {
        None => c.len() == 0,
        Some(p) => exists|i: int| is_newest(c, i) && #[trigger] c[i].1 == p,
    }
}

/// The pick from a directory's listing: none when it could not be listed.
pub open spec fn listing_pick(listing: Option<Seq<(Seq<char>, bool, u64)>>, r: Option<Seq<char>>) -> bool {
    match listing {
        None => r is None,
        Some(l) => newest_pick(image_candidates(l), r),
    }
}

/// The pick among images gathered from several directories: none when
/// the directories could not be listed.
pub open spec fn images_pick(images: Option<Seq<(u64, Seq<char>)>>, r: Option<Seq<char>>) -> bool {
    match images {
        None => r is None,
        Some(c) => newest_pick(c, r),
    }
}

/// The newest kernel image of a listing.
pub fn newest_image_of(listing: &Vec<(String, bool, u64)>) -> (r: Option<String>)
    ensures
        newest_pick(image_candidates(listing_view(listing@)), opt_string_view(r)),
{
    let ghost lv = listing_view(listing@);
    let mut cands: Vec<(u64, String)> = Vec::new();
    let mut i: usize = 0;
    while i < listing.len()
        invariant
            i <= listing@.len(),
            lv == listing_view(listing@),
            candidates_view(cands@) == image_candidates(lv.take(i as int)),
        decreases listing.len() - i,
    {
        assert(lv.take(i + 1).drop_last() =~= lv.take(i as int));
        let (ref path, is_file, t) = listing[i];
        if is_file && is_image_name_exec(path.as_str()) {
            cands.push((t, path.clone()));
            assert(candidates_view(cands@) =~= image_candidates(lv.take(i as int)).push((t, path@)));
        }
        i += 1;
    }
    assert(lv.take(listing@.len() as int) =~= lv);
    match newest_candidate(&cands) {
        Some(k) => {
            let (_, ref p) = cands[k];
            assert(candidates_view(cands@)[k as int].1 == p@);
            Some(p.clone())
        },
        None => None,
    }
}

/// The modification time used to compare images: an unreadable one counts
/// as the epoch.
fn mtime_of<F: FileSystemTrait>(fs: &F, path: &str) -> (r: u64) {
    match fs.modified(path) {
        Some(t) => t,
        None => 0,
    }
}

/// The newest `*Image` file directly inside `boot_dir`, if any: the pick
/// [`newest_image_of`] makes from the directory's listing, `None` when it
/// cannot be listed.
fn newest_image_in<F: FileSystemTrait>(fs: &F, boot_dir: &str) -> (r: Option<String>)
    ensures
        r matches Some(p) ==> is_image_name(p@),
        exists|listing: Option<Seq<(Seq<char>, bool, u64)>>|
            listing_pick(listing, opt_string_view(r)),
{
    let entries = match fs.read_dir(boot_dir) {
        Some(e) => e,
        None => {
            let r: Option<String> = None;
            let ghost w: Option<Seq<(Seq<char>, bool, u64)>> = None;
            assert(listing_pick(w, opt_string_view(r)));
            return r;
        },
    };
    let mut listing: Vec<(String, bool, u64)> = Vec::new();
    let mut i: usize = 0;
    while i < entries.len()
        invariant
            i <= entries@.len(),
        decreases entries.len() - i,
    {
        let e = &entries[i];
        let f = is_image_name_exec(e.as_str()) && fs.is_file(e.as_str());
        let t = if f {
            mtime_of(fs, e.as_str())
        } else {
            0
        };
        listing.push((e.clone(), f, t));
        i += 1;
    }
    let r = newest_image_of(&listing);
    proof {
        lemma_image_candidates_are_images(listing_view(listing@));
        if r is Some {
            let p = r->0;
            let c = image_candidates(listing_view(listing@));
            let k = choose|k: int| is_newest(c, k) && #[trigger] c[k].1 == p@;
            assert(is_image_name(c[k].1));
        }
        let lw = Some(listing_view(listing@));
        assert(listing_pick(lw, opt_string_view(r)));
    }
    r
}

proof fn lemma_image_candidates_are_images(l: Seq<(Seq<char>, bool, u64)>)
    ensures
        forall|k: int| 0 <= k < image_candidates(l).len() ==> is_image_name(
            #[trigger] image_candidates(l)[k].1,
        ),
    decreases l.len(),
{
    if l.len() > 0 {
        let rest = image_candidates(l.drop_last());
        lemma_image_candidates_are_images(l.drop_last());
        assert forall|k: int| 0 <= k < image_candidates(l).len() implies is_image_name(
            #[trigger] image_candidates(l)[k].1,
        ) by {
            if k < rest.len() {
                assert(image_candidates(l)[k] == rest[k]);
            }
        }
    }
}

/// Finds the newest kernel image under `<build_root>/arch/`: with `arch`,
/// only `arch/<arch>/boot/` is probed, as kw does; without it every
/// `arch/*/boot/` is, and the newest of their newest images wins. Only the
/// top level of each boot dir is scanned.
pub fn find_newest_kernel_image<F: FileSystemTrait>(
    fs: &F,
    build_root: &str,
    arch: Option<&str>,
) -> (r: Option<String>)
    ensures
        r matches Some(p) ==> is_image_name(p@),
        arch is Some ==> exists|listing: Option<Seq<(Seq<char>, bool, u64)>>|
            listing_pick(listing, opt_string_view(r)),
        arch is None ==> exists|images: Option<Seq<(u64, Seq<char>)>>|
            images_pick(images, opt_string_view(r)),
{
    let arch_root = path_join_exec(build_root, "arch");
    match arch {
        Some(a) => {
            let d = path_join_exec(arch_root.as_str(), a);
            let boot = path_join_exec(d.as_str(), "boot");
            newest_image_in(fs, boot.as_str())
        },
        None => {
            let dirs = match fs.read_dir(arch_root.as_str()) {
                Some(d) => d,
                None => {
                    let ghost w: Option<Seq<(u64, Seq<char>)>> = None;
                    assert(images_pick(w, None));
                    return None;
                },
            };
            let mut cands: Vec<(u64, String)> = Vec::new();
            let mut i: usize = 0;
            while i < dirs.len()
                invariant
                    i <= dirs@.len(),
                    forall|k: int| 0 <= k < cands@.len() ==> is_image_name(#[trigger] cands@[k].1@),
                decreases dirs.len() - i,
            {
                let d = &dirs[i];
                if fs.is_dir(d.as_str()) {
                    let boot = path_join_exec(d.as_str(), "boot");
                    match newest_image_in(fs, boot.as_str()) {
                        Some(img) => {
                            let t = mtime_of(fs, img.as_str());
                            cands.push((t, img));
                        },
                        None => {},
                    }
                }
                i += 1;
            }
            let r = match newest_candidate(&cands) {
                Some(k) => {
                    let (_, ref p) = cands[k];
                    assert(candidates_view(cands@)[k as int].1 == p@);
                    Some(p.clone())
                },
                None => None,
            };
            let ghost w = Some(candidates_view(cands@));
            assert(images_pick(w, opt_string_view(r)));
            r
        },
    }
}

// ───────────────────────────── the tree ─────────────────────────────

/// Every answer is yes.
pub open spec fn all_true(s: Seq<bool>) -> bool {
    forall|i: int| 0 <= i < s.len() ==> #[trigger] s[i]
}

/// A tree is a kernel root when `COPYING`, `CREDITS`, `Kbuild`, `Makefile`
/// and `README` are regular files, `MAINTAINERS` exists, and
/// `Documentation`, `arch`, `include`, `drivers`, `fs`, `init`, `ipc`,
/// `kernel`, `lib` and `scripts` are directories: every answer is yes.
pub open spec fn kernel_root_holds(files: Seq<bool>, maintainers: bool, dirs: Seq<bool>) -> bool {
    all_true(files) && maintainers && all_true(dirs)
}

/// The kernel-root verdict from the file system's answers.
pub fn kernel_root_verdict(files: &[bool], maintainers: bool, dirs: &[bool]) -> (r: bool)
    ensures
        r == kernel_root_holds(files@, maintainers, dirs@),
{
    let mut i: usize = 0;
    while i < files.len()
        invariant
            i <= files@.len(),
            forall|k: int| 0 <= k < i ==> #[trigger] files@[k],
        decreases files.len() - i,
    {
        if !files[i] {
            return false;
        }
        i += 1;
    }
    if !maintainers {
        return false;
    }
    let mut j: usize = 0;
    while j < dirs.len()
        invariant
            j <= dirs@.len(),
            forall|k: int| 0 <= k < j ==> #[trigger] dirs@[k],
        decreases dirs.len() - j,
    {
        if !dirs[j] {
            return false;
        }
        j += 1;
    }
    true
}

/// Whether `path` holds the files and directories kw's `is_kernel_root`
/// checks (see [`kernel_root_holds`]): `<path>/<name>` is asked for each in
/// that order, and asking stops at the first no, which the verdict treats
/// as no for the rest.
pub fn is_kernel_root<F: FileSystemTrait>(fs: &F, path: &str) -> (r: bool)
    ensures
        exists|files: Seq<bool>, maintainers: bool, dirs: Seq<bool>|
            files.len() == 5 && dirs.len() == 10 && r == #[trigger] kernel_root_holds(
                files,
                maintainers,
                dirs,
            ),
{
    let files = ["COPYING", "CREDITS", "Kbuild", "Makefile", "README"];
    let dirs = [
        "Documentation",
        "arch",
        "include",
        "drivers",
        "fs",
        "init",
        "ipc",
        "kernel",
        "lib",
        "scripts",
    ];
    let mut ok = true;
    let mut file_answers: Vec<bool> = Vec::new();
    let mut i: usize = 0;
    while i < 5
        invariant
            i <= 5,
            file_answers@.len() == i,
        decreases 5 - i,
    {
        let p = path_join_exec(path, files[i]);
        ok = ok && fs.is_file(p.as_str());
        file_answers.push(ok);
        i += 1;
    }
    let m = path_join_exec(path, "MAINTAINERS");
    ok = ok && fs.path_exists(m.as_str());
    let maintainers = ok;
    let mut dir_answers: Vec<bool> = Vec::new();
    let mut j: usize = 0;
    while j < 10
        invariant
            j <= 10,
            dir_answers@.len() == j,
        decreases 10 - j,
    {
        let p = path_join_exec(path, dirs[j]);
        ok = ok && fs.is_dir(p.as_str());
        dir_answers.push(ok);
        j += 1;
    }
    let r = kernel_root_verdict(file_answers.as_slice(), maintainers, dir_answers.as_slice());
    assert(file_answers@.len() == 5 && dir_answers@.len() == 10 && r == kernel_root_holds(
        file_answers@,
        maintainers,
        dir_answers@,
    ));
    r
}

/// The literal `arch=` value from `<tree>/.kw/build.config`, `None` when
/// the file or the key is absent or the value empty.
pub fn read_build_arch<F: FileSystemTrait>(fs: &F, tree_path: &str) -> (r: Option<String>)
    ensures
        r matches Some(a) ==> a@.len() > 0,
{
    let kw_dir = path_join_exec(tree_path, ".kw");
    let file = path_join_exec(kw_dir.as_str(), "build.config");
    let content = fs.read_to_string(file.as_str());
    let r = arch_from_build_config(content);
    r
}

/// The readiness of a tree from what was found, checked in kw's order:
/// the path is a directory, it is a kernel root, it has `.kw`, and the
/// build root has a `.config`; the first that fails names the verdict.
pub open spec fn tree_verdict_holds(
    is_dir: bool,
    is_root: bool,
    has_kw_dir: bool,
    has_config: bool,
    arch: Option<Seq<char>>,
    r: TreeReadiness,
) -> bool {
    if !is_dir {
        r is Missing
    } else if !is_root {
        r is NotAKernelRoot
    } else if !has_kw_dir {
        r is MissingKwDir
    } else if !has_config {
        r is MissingKernelConfig
    } else {
        r matches TreeReadiness::Ready { arch: a } && opt_string_view(a) == arch
    }
}

pub fn tree_verdict(
    is_dir: bool,
    is_root: bool,
    has_kw_dir: bool,
    has_config: bool,
    arch: Option<String>,
) -> (r: TreeReadiness)
    ensures
        tree_verdict_holds(is_dir, is_root, has_kw_dir, has_config, opt_string_view(arch), r),
{
    if !is_dir {
        TreeReadiness::Missing
    } else if !is_root {
        TreeReadiness::NotAKernelRoot
    } else if !has_kw_dir {
        TreeReadiness::MissingKwDir
    } else if !has_config {
        TreeReadiness::MissingKernelConfig
    } else {
        TreeReadiness::Ready { arch }
    }
}

/// Probes whether `tree_path` is a kernel tree ready for kw operations.
/// `output_dir` is the active kw env's `O=` dir: with an env active the
/// `.config` lives there.
pub fn probe_tree<F: FileSystemTrait>(fs: &F, tree_path: &str, output_dir: Option<&str>) -> (r:
    TreeReadiness)
    ensures
        r matches TreeReadiness::Ready { arch } ==> (arch matches Some(a) ==> a@.len() > 0),
{
    if !fs.is_dir(tree_path) {
        return tree_verdict(false, false, false, false, None);
    }
    if !is_kernel_root(fs, tree_path) {
        return tree_verdict(true, false, false, false, None);
    }
    let kw_dir = path_join_exec(tree_path, ".kw");
    if !fs.is_dir(kw_dir.as_str()) {
        return tree_verdict(true, true, false, false, None);
    }
    let build_root = match output_dir {
        Some(o) => o,
        None => tree_path,
    };
    let config = path_join_exec(build_root, ".config");
    if !fs.is_file(config.as_str()) {
        return tree_verdict(true, true, true, false, None);
    }
    tree_verdict(true, true, true, true, read_build_arch(fs, tree_path))
}

/// The built kernel's release string from
/// `<build_root>/include/config/kernel.release`, `None` when the build
/// never produced one or produced an empty one.
pub fn read_kernelrelease<F: FileSystemTrait>(fs: &F, build_root: &str) -> (r: Option<String>)
    ensures
        r matches Some(s) ==> s@.len() > 0,
{
    let a = path_join_exec(build_root, "include");
    let b = path_join_exec(a.as_str(), "config");
    let c = path_join_exec(b.as_str(), "kernel.release");
    release_from(fs.read_to_string(c.as_str()))
}

// ───────────────────────────── the composed snapshot ─────────────────────────────

impl TreeReadiness {
    /// A copy of the verdict.
    pub fn duplicate(&self) -> (r: Self)
        ensures
            r == *self,
    {
        match self {
            TreeReadiness::Ready { arch } => TreeReadiness::Ready {
                arch: match arch {
                    Some(a) => Some(a.clone()),
                    None => None,
                },
            },
            TreeReadiness::Missing => TreeReadiness::Missing,
            TreeReadiness::NotAKernelRoot => TreeReadiness::NotAKernelRoot,
            TreeReadiness::MissingKwDir => TreeReadiness::MissingKwDir,
            TreeReadiness::MissingKernelConfig => TreeReadiness::MissingKernelConfig,
        }
    }
}

/// Snapshot of tree, kw binary and history probes used to decide whether a
/// job can start, and why not.
#[derive(Debug)]
pub struct KwReadiness {
    pub kw_binary: KwBinaryProbe,
    pub tree: TreeReadiness,
    /// Active kw env's `O=` dir, if any.
    pub output_dir: Option<String>,
    /// Newest discoverable kernel image under the build root, if any.
    pub kernel_image: Option<String>,
    /// Build record for the tree and the HEAD branch, if any.
    pub build_record: Option<KwBuildRecord>,
    /// Newest build record for the tree across branches.
    pub latest_build: Option<KwBuildRecord>,
    /// `Ok(())` already includes tree readiness, so a caller cannot forget
    /// to check `tree` as well.
    pub deploy_alone: Result<(), DeployAloneRefusal>,
}

/// The full deploy-alone decision: a tree that is not ready is refused with
/// the tree's state; a ready tree goes through the record checks.
pub open spec fn deploy_verdict_holds(
    tree: TreeReadiness,
    record: Option<KwBuildRecord>,
    tree_path: Seq<char>,
    head: Seq<char>,
    output_dir: Option<Seq<char>>,
    has_image: bool,
    r: Result<(), DeployAloneRefusal>,
) -> bool {
    match tree {
        TreeReadiness::Ready { .. } => deploy_alone_holds(
            record,
            tree_path,
            head,
            output_dir,
            has_image,
            r,
        ),
        _ => r matches Err(DeployAloneRefusal::TreeNotReady(t)) && t == tree,
    }
}

pub fn deploy_alone_verdict(
    tree: &TreeReadiness,
    record: Option<&KwBuildRecord>,
    tree_path: &str,
    head_branch: &str,
    output_dir: Option<&str>,
    image: Option<&str>,
) -> (r: Result<(), DeployAloneRefusal>)
    ensures
        deploy_verdict_holds(
            *tree,
            match record {
                Some(x) => Some(*x),
                None => None,
            },
            tree_path@,
            head_branch@,
            opt_str_view(output_dir),
            image is Some,
            r,
        ),
{
    match tree {
        TreeReadiness::Ready { .. } => check_deploy_alone(
            record,
            tree_path,
            head_branch,
            output_dir,
            image,
        ),
        _ => Err(DeployAloneRefusal::TreeNotReady(tree.duplicate())),
    }
}

fn opt_as_str(o: &Option<String>) -> (r: Option<&str>)
    ensures
        opt_str_view(r) == opt_string_view(*o),
{
    match o {
        Some(s) => Some(s.as_str()),
        None => None,
    }
}

/// Runs all readiness probes for the tree at `tree_path` and composes them
/// into a snapshot. `head_branch` is the tree's current branch and
/// `build_records` what the history holds for it (the record for the HEAD
/// branch, and the tree's newest record on any branch); obtaining both is
/// the caller's job. An unresolvable kw env wins over a history error.
/// Whatever the probes report, the deploy-alone verdict of the snapshot is
/// the one its own fields call for.
pub fn evaluate_readiness<F: FileSystemTrait, E: EnvTrait, S: ShellTrait>(
    fs: &F,
    env: &E,
    shell: &S,
    tree_path: &str,
    head_branch: &str,
    build_records: Result<(Option<KwBuildRecord>, Option<KwBuildRecord>), String>,
) -> (r: Result<KwReadiness, KwReadinessError>)
    ensures
        r matches Ok(rd) ==> deploy_verdict_holds(
            rd.tree,
            rd.build_record,
            tree_path@,
            head_branch@,
            opt_string_view(rd.output_dir),
            rd.kernel_image is Some,
            rd.deploy_alone,
        ),
        r matches Ok(rd) ==> build_records matches Ok(b) && rd.build_record == b.0
            && rd.latest_build == b.1,
        r matches Ok(rd) ==> (rd.kernel_image matches Some(p) ==> is_image_name(p@)),
        r matches Ok(rd) ==> exists|content: Seq<char>, xdg: Option<Seq<char>>, home: Option<
            Seq<char>,
        >|
            output_dir_holds(
                content,
                xdg,
                home,
                tree_path@,
                Ok::<Option<String>, KwReadinessError>(rd.output_dir),
            ),
        r matches Ok(rd) ==> (rd.tree matches TreeReadiness::Ready { arch: Some(_) } ==> exists|
            listing: Option<Seq<(Seq<char>, bool, u64)>>,
        | listing_pick(listing, opt_string_view(rd.kernel_image))),
        r matches Ok(rd) ==> (!(rd.tree matches TreeReadiness::Ready { arch: Some(_) }) ==> exists|
            images: Option<Seq<(u64, Seq<char>)>>,
        | images_pick(images, opt_string_view(rd.kernel_image))),
        r matches Err(e) ==> e is Fs || e is Env,
        r matches Err(e) ==> (build_records matches Err(h) && e == KwReadinessError::Fs(h))
            || e is Env || (e matches KwReadinessError::Fs(m) && m@ == "cannot read "@
            + env_current_path(tree_path@)),
        build_records is Err ==> r is Err,
{
    let kw_binary = probe_kw_binary(env, shell);
    let output_dir = match resolve_output_dir(fs, env, tree_path) {
        Ok(o) => o,
        Err(e) => {
            return Err(e);
        },
    };
    let tree = probe_tree(fs, tree_path, opt_as_str(&output_dir));
    let build_root = match &output_dir {
        Some(o) => o.as_str(),
        None => tree_path,
    };
    let kernel_image = match &tree {
        TreeReadiness::Ready { arch } => find_newest_kernel_image(fs, build_root, opt_as_str(arch)),
        _ => find_newest_kernel_image(fs, build_root, None),
    };
    let (build_record, latest_build) = match build_records {
        Ok(b) => b,
        Err(e) => {
            return Err(KwReadinessError::Fs(e));
        },
    };
    let deploy_alone = deploy_alone_verdict(
        &tree,
        build_record.as_ref(),
        tree_path,
        head_branch,
        opt_as_str(&output_dir),
        opt_as_str(&kernel_image),
    );
    Ok(
        KwReadiness {
            kw_binary,
            tree,
            output_dir,
            kernel_image,
            build_record,
            latest_build,
            deploy_alone,
        },
    )
}

/// A deploy without a build is only let through for a ready tree with a
/// successful build record of the current HEAD, made on the same tree path
/// (trailing slashes aside) in the same kw env, and a discoverable image.
pub proof fn lemma_deploy_alone_ok_means_all_checks_pass(
    tree: TreeReadiness,
    record: Option<KwBuildRecord>,
    tree_path: Seq<char>,
    head: Seq<char>,
    output_dir: Option<Seq<char>>,
    has_image: bool,
)
    requires
        deploy_verdict_holds(tree, record, tree_path, head, output_dir, has_image, Ok(())),
    ensures
        tree is Ready,
        record matches Some(rec) && rec.success && rec.branch@ == head && trim_end_char(
            rec.tree_path@,
            '/',
        ) == trim_end_char(tree_path, '/') && opt_string_view(rec.output_dir) == output_dir,
        has_image,
{
}

} // verus!
