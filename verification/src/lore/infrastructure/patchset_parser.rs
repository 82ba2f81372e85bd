//! Splitting downloaded mbox files into patches, and what is made of a
//! single patch's text: its cover and diff parts and a reply template.
use vstd::prelude::*;

use crate::infra::{FileSystemTrait, ShellCommand};
use crate::pattern::{
    capture_group, compile_regex, group_of, regex_captures, regex_compiles, regex_find_all,
    regex_find_all_text,
};
use crate::text::{
    append_chars, chars_eq, chars_of, find_sub, find_sub_exec, lines, lines_of, replace_all,
    replace_all_exec, slice_range, starts_with, starts_with_chars, str_to_string,
    split_whitespace_exec, string_from_chars, trim, trim_chars, trim_end, trim_end_chars, ws_words,
};

verus! {

// ───────────────────────────── cover and diff ─────────────────────────────

/// `(cover, diff)` of a patch: split at the first `\n---\n`, the cover
/// running up to and including the `---` separator line and the diff
/// starting after it. Without a separator the whole text is the cover.
pub open spec fn split_cover_spec(patch: Seq<char>) -> (Seq<char>, Seq<char>) {
    match find_sub(patch, "\n---\n"@) {
        Some(i) => (patch.take(i + 5), patch.skip(i + 5)),
        None => (patch, seq![]),
    }
}

/// Splits a raw patch into `(cover, diff)` at the first `\n---\n`.
pub fn split_cover(patch: &str) -> (r: (String, String))
    ensures
        (r.0@, r.1@) == split_cover_spec(patch@),
{
    let pc = chars_of(patch);
    let sep = chars_of("\n---\n");
    proof {
        reveal_strlit("\n---\n");
    }
    assert(sep@.len() == 5);
    match find_sub_exec(pc.as_slice(), sep.as_slice()) {
        Some(i) => {
            assert(i + 5 <= pc.len());
            let cover = slice_range(pc.as_slice(), 0, i + 5);
            let diff = slice_range(pc.as_slice(), i + 5, pc.len());
            assert(cover@ =~= pc@.take(i + 5));
            assert(diff@ =~= pc@.skip(i + 5));
            (string_from_chars(cover.as_slice()), string_from_chars(diff.as_slice()))
        },
        None => (str_to_string(patch), String::new()),
    }
}

/// Cover and diff together give the patch again; with a separator the
/// cover ends with the `---` separator line, without one the cover is the
/// patch and the diff empty.
pub proof fn lemma_split_cover_rejoins(patch: Seq<char>)
    ensures
        split_cover_spec(patch).0 + split_cover_spec(patch).1 == patch,
        find_sub(patch, "\n---\n"@) is Some ==> split_cover_spec(patch).0.len() >= 5
            && split_cover_spec(patch).0.skip(split_cover_spec(patch).0.len() - 5) == "\n---\n"@,
        find_sub(patch, "\n---\n"@) is None ==> split_cover_spec(patch).0 == patch
            && split_cover_spec(patch).1.len() == 0,
{
    reveal_strlit("\n---\n");
    match find_sub(patch, "\n---\n"@) {
        Some(i) => {
            crate::text::lemma_find_sub_occurs(patch, "\n---\n"@);
            assert(patch.take(i + 5) + patch.skip(i + 5) =~= patch);
            assert(patch.take(i + 5).skip(i) =~= patch.subrange(i, i + 5));
        },
        None => {
            assert(patch + Seq::<char>::empty() =~= patch);
        },
    }
}

// ───────────────────────────── mbox files ─────────────────────────────

/// The line `b4` writes between two messages of an mbox.
pub open spec fn mbox_separator() -> Seq<char> {
    "From git@z Thu Jan  1 00:00:00 1970"@
}

/// Reading an mbox line by line: the patch being read, whether a patch is
/// being read, whether the next line is its last, and the patches read.
pub type MboxState = (Seq<char>, bool, bool, Seq<Seq<char>>);

/// One line of an mbox: a `Subject: ` line starts a patch; a `--` line
/// (trailing whitespace aside) announces that the next line ends it; an
/// mbox separator ends it too. Every line read while in a patch belongs to
/// it.
pub open spec fn mbox_step(st: MboxState, line: Seq<char>) -> MboxState {
    let next = mbox_transition(st, line);
    if next.1 {
        (next.0 + line + "\n"@, next.1, next.2, next.3)
    } else {
        next
    }
}

/// How a line changes the reading state, before it is added to the patch
/// being read.
pub open spec fn mbox_transition(st: MboxState, line: Seq<char>) -> MboxState {
    let (cur, reading, last, out) = st;
    if starts_with(line, "Subject: "@) {
        (cur, true, last, out)
    } else if reading && trim_end(line) == "--"@ {
        (cur, reading, true, out)
    } else if last {
        (seq![], false, false, out.push(cur + line + "\n"@))
    } else if reading && trim_end(line) == mbox_separator() {
        (seq![], false, last, out.push(cur))
    } else {
        st
    }
}

pub open spec fn mbox_fold(ls: Seq<Seq<char>>) -> MboxState
    decreases ls.len(),
{
    if ls.len() == 0 {
        (seq![], false, false, seq![])
    } else {
        mbox_step(mbox_fold(ls.drop_last()), ls.last())
    }
}

/// The patches of an mbox's text, in order; an unfinished last patch
/// counts.
pub open spec fn mbox_patches(content: Seq<char>) -> Seq<Seq<char>> {
    let st = mbox_fold(lines(content));
    if st.0.len() > 0 {
        st.3.push(st.0)
    } else {
        st.3
    }
}

pub open spec fn strings_view(v: Seq<String>) -> Seq<Seq<char>> {
    v.map_values(|s: String| s@)
}

proof fn lemma_strings_view_push(v: Seq<String>, x: String)
    ensures
        strings_view(v.push(x)) == strings_view(v).push(x@),
{
    assert(strings_view(v.push(x)) =~= strings_view(v).push(x@));
}

/// An empty mbox has no patches.
proof fn lemma_no_patches_in_nothing()
    ensures
        mbox_patches(seq![]) == Seq::<Seq<char>>::empty(),
{
    assert(lines(seq![]) =~= Seq::<Seq<char>>::empty());
    assert(mbox_patches(seq![]) =~= Seq::<Seq<char>>::empty());
}

fn line_is(line: &[char], text: &str) -> (r: bool)
    ensures
        r == (trim_end(line@) == text@),
{
    let t = trim_end_chars(line);
    let c = chars_of(text);
    chars_eq(t.as_slice(), c.as_slice())
}

/// The patches in the text of an mbox file.
pub fn extract_patches(content: &str) -> (r: Vec<String>)
    ensures
        strings_view(r@) == mbox_patches(content@),
{
    let cs = chars_of(content);
    let ls = lines_of(cs.as_slice());
    let ghost all = lines(cs@);
    let subject = chars_of("Subject: ");
    let mut cur: Vec<char> = Vec::new();
    let mut reading = false;
    let mut last = false;
    let mut out: Vec<String> = Vec::new();
    assert(all.take(0) =~= seq![]);
    assert(strings_view(out@) =~= seq![]);
    let mut i: usize = 0;
    while i < ls.len()
        invariant
            i <= ls@.len(),
            ls@.len() == all.len(),
            forall|k: int| 0 <= k < ls@.len() ==> #[trigger] ls@[k]@ == all[k],
            subject@ == "Subject: "@,
            (cur@, reading, last, strings_view(out@)) == mbox_fold(all.take(i as int)),
        decreases ls.len() - i,
    {
        let line = ls[i].as_slice();
        let ghost before = (cur@, reading, last, strings_view(out@));
        proof {
            reveal_strlit("\n");
        }
        assert(all.take(i + 1).drop_last() =~= all.take(i as int));
        assert(all.take(i + 1).last() == all[i as int]);
        if starts_with_chars(line, subject.as_slice()) {
            reading = true;
        } else if reading && line_is(line, "--") {
            last = true;
        } else if last {
            append_chars(&mut cur, line);
            cur.push('\n');
            let done = string_from_chars(cur.as_slice());
            assert(done@ =~= before.0 + all[i as int] + "\n"@);
            proof {
                lemma_strings_view_push(out@, done);
            }
            out.push(done);
            cur = Vec::new();
            reading = false;
            last = false;
        } else if reading && line_is(line, "From git@z Thu Jan  1 00:00:00 1970") {
            let done = string_from_chars(cur.as_slice());
            proof {
                lemma_strings_view_push(out@, done);
            }
            out.push(done);
            cur = Vec::new();
            reading = false;
        }
        assert(cur@ =~= mbox_transition(before, all[i as int]).0);
        assert(strings_view(out@) =~= mbox_transition(before, all[i as int]).3);
        if reading {
            append_chars(&mut cur, line);
            cur.push('\n');
        }
        proof {
            assert(strings_view(out@) =~= mbox_step(before, all[i as int]).3);
            assert(cur@ =~= mbox_step(before, all[i as int]).0);
        }
        i += 1;
    }
    assert(all.take(i as int) =~= all);
    if cur.len() > 0 {
        let done = string_from_chars(cur.as_slice());
        proof {
            lemma_strings_view_push(out@, done);
        }
        out.push(done);
        assert(strings_view(out@) =~= mbox_patches(content@));
    }
    out
}

/// Splitting a downloaded patchset: the path of its cover letter, if it
/// has one, is the patchset's path with `.mbx` turned into `.cover`.
pub open spec fn cover_letter_path(path: Seq<char>) -> Seq<char> {
    replace_all(path, ".mbx"@, ".cover"@)
}

/// Splits a patchset into patches, by path.
pub trait PatchsetParser {
    /// Whether `r` is an answer this splitter may give for the file at
    /// `path`: the raw patches it holds, or the splitter's message. A
    /// splitter that tells nothing of its answers may give any.
    open spec fn split_answer(&self, path: Seq<char>, r: Result<Seq<Seq<char>>, Seq<char>>) -> bool {
        true
    }

    /// The raw patches of the file at `patchset_path`, as this splitter
    /// answers for that path.
    fn split_patchset(&self, patchset_path: &str) -> (r: Result<Vec<String>, String>)
        ensures
            self.split_answer(patchset_path@, split_result_view(r)),
    ;
}

/// Splits mbox files read through the file system.
pub struct MboxPatchsetParser<F: FileSystemTrait> {
    fs: F,
}

impl<F: FileSystemTrait> MboxPatchsetParser<F> {
    /// The file system the parser reads through.
    pub closed spec fn file_system(&self) -> F {
        self.fs
    }

    pub fn new(fs: F) -> (r: Self)
        ensures
            r.file_system() == fs,
    {
        MboxPatchsetParser { fs }
    }
}

/// The message of a refused split: the path, a colon and the reason.
pub open spec fn split_error(path: Seq<char>, reason: Seq<char>) -> Seq<char> {
    path + ": "@ + reason
}

fn error_for(path: &str, reason: &str) -> (r: String)
    ensures
        r@ == split_error(path@, reason@),
{
    let mut m = str_to_string(path);
    m.append(": ");
    m.append(reason);
    m
}

/// What splitting the patchset at `path` comes to, from what the file
/// system reported: whether the path exists and is a file, whether its
/// cover letter file is present (exists and is a file), and the texts read
/// (`None` for a file that could not be read). A missing path, a non-file
/// and an unreadable file are refused in that order, the cover letter's
/// read first; else the cover letter's patches come first, then the
/// patchset's.
pub open spec fn split_outcome(
    path: Seq<char>,
    exists: bool,
    is_file: bool,
    cover_present: bool,
    cover: Option<Seq<char>>,
    mbox: Option<Seq<char>>,
) -> Result<Seq<Seq<char>>, Seq<char>> {
    if !exists {
        Err(split_error(path, "Path doesn't exist"@))
    } else if !is_file {
        Err(split_error(path, "Not a file"@))
    } else if cover_present && cover is None {
        Err(split_error(cover_letter_path(path), "Could not be read"@))
    } else {
        match mbox {
            None => Err(split_error(path, "Could not be read"@)),
            Some(m) => Ok(
                (if cover_present {
                    mbox_patches(cover->0)
                } else {
                    seq![]
                }) + mbox_patches(m),
            ),
        }
    }
}

pub open spec fn split_result_view(r: Result<Vec<String>, String>) -> Result<
    Seq<Seq<char>>,
    Seq<char>,
> {
    match r {
        Ok(ps) => Ok(strings_view(ps@)),
        Err(e) => Err(e@),
    }
}

/// The split's answer from what the file system reported.
pub fn split_verdict(
    path: &str,
    exists: bool,
    is_file: bool,
    cover_present: bool,
    cover: Option<String>,
    mbox: Option<String>,
) -> (r: Result<Vec<String>, String>)
    ensures
        split_result_view(r) == split_outcome(
            path@,
            exists,
            is_file,
            cover_present,
            opt_text_view(cover),
            opt_text_view(mbox),
        ),
{
    if !exists {
        return Err(error_for(path, "Path doesn't exist"));
    } else if !is_file {
        return Err(error_for(path, "Not a file"));
    }
    let mut patches: Vec<String> = Vec::new();
    let ghost mut cover_text: Seq<char> = seq![];
    proof {
        lemma_no_patches_in_nothing();
        assert(strings_view(patches@) =~= seq![]);
    }
    if cover_present {
        match cover {
            Some(c) => {
                let mut ps = extract_patches(c.as_str());
                patches.append(&mut ps);
                assert(strings_view(patches@) =~= mbox_patches(c@));
            },
            None => {
                let pc = chars_of(path);
                let mbx = chars_of(".mbx");
                let cov = chars_of(".cover");
                let cover_chars = replace_all_exec(pc.as_slice(), mbx.as_slice(), cov.as_slice());
                let cover_path = string_from_chars(cover_chars.as_slice());
                return Err(error_for(cover_path.as_str(), "Could not be read"));
            },
        }
    }
    let ghost head = strings_view(patches@);
    match mbox {
        Some(c) => {
            let ghost before = patches@;
            let mut ps = extract_patches(c.as_str());
            let ghost added = ps@;
            patches.append(&mut ps);
            assert(patches@ =~= before + added);
            assert(strings_view(patches@) =~= strings_view(before) + strings_view(added));
        },
        None => {
            return Err(error_for(path, "Could not be read"));
        },
    }
    Ok(patches)
}

pub open spec fn opt_text_view(o: Option<String>) -> Option<Seq<char>> {
    match o {
        Some(s) => Some(s@),
        None => None,
    }
}

/// Splits the patchset at `patchset_path`: the cover letter's patches
/// (when a cover letter file exists) come first, then the patchset's. A
/// path that does not exist or is not a file is refused, and so is a file
/// that cannot be read. The answer is [`split_outcome`] of what the file
/// system reported.
pub fn split_patchset_with<F: FileSystemTrait>(fs: &F, patchset_path: &str) -> (r: Result<
    Vec<String>,
    String,
>)
    ensures
        exists|
            exists: bool,
            is_file: bool,
            cover_present: bool,
            cover: Option<Seq<char>>,
            mbox: Option<Seq<char>>,
        |
            split_result_view(r) == split_outcome(
                patchset_path@,
                exists,
                is_file,
                cover_present,
                cover,
                mbox,
            ),
        r matches Err(e) ==> e@ == split_error(patchset_path@, "Path doesn't exist"@) || e@
            == split_error(patchset_path@, "Not a file"@) || e@ == split_error(
            patchset_path@,
            "Could not be read"@,
        ) || e@ == split_error(cover_letter_path(patchset_path@), "Could not be read"@),
        r matches Ok(ps) ==> exists|cover: Seq<char>, mbox: Seq<char>|
            strings_view(ps@) == mbox_patches(cover) + mbox_patches(mbox),
{
    let exists = fs.path_exists(patchset_path);
    let is_file = exists && fs.is_file(patchset_path);
    if !is_file {
        let r = split_verdict(patchset_path, exists, false, false, None, None);
        proof { lemma_split_outcome_shapes(patchset_path@, exists, false, false, None, None); }
        return r;
    }
    let pc = chars_of(patchset_path);
    let mbx = chars_of(".mbx");
    let cov = chars_of(".cover");
    let cover_chars = replace_all_exec(pc.as_slice(), mbx.as_slice(), cov.as_slice());
    let cover_path = string_from_chars(cover_chars.as_slice());
    let cover_present = fs.path_exists(cover_path.as_str()) && fs.is_file(cover_path.as_str());
    let cover = if cover_present {
        fs.read_to_string(cover_path.as_str())
    } else {
        None
    };
    let ghost cv = opt_text_view(cover);
    if cover_present && cover.is_none() {
        let r = split_verdict(patchset_path, true, true, true, None, None);
        proof { lemma_split_outcome_shapes(patchset_path@, true, true, true, None, None); }
        return r;
    }
    let mbox = fs.read_to_string(patchset_path);
    let ghost mv = opt_text_view(mbox);
    let r = split_verdict(patchset_path, true, true, cover_present, cover, mbox);
    proof { lemma_split_outcome_shapes(patchset_path@, true, true, cover_present, cv, mv); }
    r
}

proof fn lemma_split_outcome_shapes(
    path: Seq<char>,
    exists: bool,
    is_file: bool,
    cover_present: bool,
    cover: Option<Seq<char>>,
    mbox: Option<Seq<char>>,
)
    ensures
        split_outcome(path, exists, is_file, cover_present, cover, mbox) matches Err(e) ==> e
            == split_error(path, "Path doesn't exist"@) || e == split_error(path, "Not a file"@)
            || e == split_error(path, "Could not be read"@) || e == split_error(
            cover_letter_path(path),
            "Could not be read"@,
        ),
        split_outcome(path, exists, is_file, cover_present, cover, mbox) matches Ok(ps)
            ==> exists|c: Seq<char>, m: Seq<char>| ps == mbox_patches(c) + mbox_patches(m),
{
    if let Ok(ps) = split_outcome(path, exists, is_file, cover_present, cover, mbox) {
        let m = mbox->0;
        if cover_present {
            assert(ps == mbox_patches(cover->0) + mbox_patches(m));
        } else {
            lemma_no_patches_in_nothing();
            assert(ps == mbox_patches(seq![]) + mbox_patches(m));
        }
    }
}

impl<F: FileSystemTrait> PatchsetParser for MboxPatchsetParser<F> {
    /// What the file system may have reported makes the answer, as
    /// [`split_outcome`] says.
    open spec fn split_answer(&self, path: Seq<char>, r: Result<Seq<Seq<char>>, Seq<char>>) -> bool {
        exists|
            exists: bool,
            is_file: bool,
            cover_present: bool,
            cover: Option<Seq<char>>,
            mbox: Option<Seq<char>>,
        | r == #[trigger] split_outcome(path, exists, is_file, cover_present, cover, mbox)
    }

    fn split_patchset(&self, patchset_path: &str) -> (r: Result<Vec<String>, String>)
        ensures
            exists|
                exists: bool,
                is_file: bool,
                cover_present: bool,
                cover: Option<Seq<char>>,
                mbox: Option<Seq<char>>,
            |
                split_result_view(r) == split_outcome(
                    patchset_path@,
                    exists,
                    is_file,
                    cover_present,
                    cover,
                    mbox,
                ),
            r matches Err(e) ==> e@ == split_error(patchset_path@, "Path doesn't exist"@) || e@
                == split_error(patchset_path@, "Not a file"@) || e@ == split_error(
                patchset_path@,
                "Could not be read"@,
            ) || e@ == split_error(cover_letter_path(patchset_path@), "Could not be read"@),
            r matches Ok(ps) ==> exists|cover: Seq<char>, mbox: Seq<char>|
                strings_view(ps@) == mbox_patches(cover) + mbox_patches(mbox),
    {
        split_patchset_with(&self.fs, patchset_path)
    }
}

// ───────────────────────────── reply templates ─────────────────────────────

/// The head of a reply: the patch's header and message lines up to the
/// first blank line after some text, with `Subject: ` turned into
/// `Subject: Re: ` and the `From:`, `Date:` and `Message-Id:` lines left
/// out. Returns the head and the index of the first line after it.
pub open spec fn reply_head(ls: Seq<Seq<char>>, i: int, acc: Seq<char>) -> (Seq<char>, int)
    decreases ls.len() - i,
{
    if i < 0 || i >= ls.len() {
        (acc, ls.len() as int)
    } else {
        let line = ls[i];
        if starts_with(line, "Subject: "@) {
            reply_head(ls, i + 1, acc + replace_all(line, "Subject: "@, "Subject: Re: "@) + "\n"@)
        } else if starts_with(line, "From: "@) || starts_with(line, "Date: "@) || starts_with(
            line,
            "Message-Id: "@,
        ) {
            reply_head(ls, i + 1, acc)
        } else if trim(line).len() > 0 {
            reply_head(ls, i + 1, acc + line + "\n"@)
        } else if acc.len() > 0 {
            (acc + "\n"@, i + 1)
        } else {
            reply_head(ls, i + 1, acc)
        }
    }
}

/// Lines quoted for a reply: each prefixed with `> `.
pub open spec fn quoted(ls: Seq<Seq<char>>) -> Seq<char>
    decreases ls.len(),
{
    if ls.len() == 0 {
        seq![]
    } else {
        quoted(ls.drop_last()) + "> "@ + ls.last() + "\n"@
    }
}

pub open spec fn reply_template_spec(contents: Seq<char>) -> Seq<char> {
    let ls = lines(contents);
    let h = reply_head(ls, 0, seq![]);
    h.0 + quoted(ls.skip(h.1))
}

/// A reply template for a raw patch: its head, then the rest of the patch
/// quoted.
pub fn generate_reply_template(patch_contents: &str) -> (r: String)
    ensures
        r@ == reply_template_spec(patch_contents@),
{
    let cs = chars_of(patch_contents);
    let ls = lines_of(cs.as_slice());
    let ghost all = lines(cs@);
    let subject = chars_of("Subject: ");
    let subject_re = chars_of("Subject: Re: ");
    let from = chars_of("From: ");
    let date = chars_of("Date: ");
    let mid = chars_of("Message-Id: ");
    let mut acc: Vec<char> = Vec::new();
    let mut i: usize = 0;
    let mut end: usize = ls.len();
    let mut done = false;
    proof {
        reveal_strlit("\n");
    }
    while i < ls.len() && !done
        invariant
            i <= ls@.len(),
            end == ls@.len(),
            ls@.len() == all.len(),
            forall|k: int| 0 <= k < ls@.len() ==> #[trigger] ls@[k]@ == all[k],
            subject@ == "Subject: "@,
            subject_re@ == "Subject: Re: "@,
            from@ == "From: "@,
            date@ == "Date: "@,
            mid@ == "Message-Id: "@,
            !done ==> reply_head(all, 0, seq![]) == reply_head(all, i as int, acc@),
            done ==> reply_head(all, 0, seq![]) == (acc@, i as int),
        decreases ls.len() - i + (if done { 0int } else { 1int }),
    {
        let line = ls[i].as_slice();
        let ghost a0 = acc@;
        proof {
            reveal_strlit("\n");
        }
        if starts_with_chars(line, subject.as_slice()) {
            let replaced = replace_all_exec(line, subject.as_slice(), subject_re.as_slice());
            append_chars(&mut acc, replaced.as_slice());
            acc.push('\n');
            assert(acc@ =~= a0 + replace_all(all[i as int], "Subject: "@, "Subject: Re: "@)
                + "\n"@);
            i += 1;
        } else if starts_with_chars(line, from.as_slice()) || starts_with_chars(
            line,
            date.as_slice(),
        ) || starts_with_chars(line, mid.as_slice()) {
            i += 1;
        } else if trim_chars(line).len() > 0 {
            append_chars(&mut acc, line);
            acc.push('\n');
            assert(acc@ =~= a0 + all[i as int] + "\n"@);
            i += 1;
        } else if acc.len() > 0 {
            acc.push('\n');
            assert(acc@ =~= a0 + "\n"@);
            i += 1;
            done = true;
        } else {
            i += 1;
        }
    }
    proof {
        if !done {
            assert(reply_head(all, i as int, acc@) == (acc@, all.len() as int));
        }
    }
    let ghost k = i as int;
    let ghost rest = all.skip(k);
    let mut j: usize = i;
    assert(rest.take(0) =~= seq![]);
    let ghost head = acc@;
    while j < ls.len()
        invariant
            i <= j <= ls@.len(),
            k == i,
            ls@.len() == all.len(),
            rest == all.skip(k),
            forall|m: int| 0 <= m < ls@.len() ==> #[trigger] ls@[m]@ == all[m],
            acc@ == head + quoted(rest.take(j - k)),
        decreases ls.len() - j,
    {
        let ghost a0 = acc@;
        proof {
            reveal_strlit("> ");
            reveal_strlit("\n");
        }
        acc.push('>');
        acc.push(' ');
        append_chars(&mut acc, ls[j].as_slice());
        acc.push('\n');
        proof {
            assert(rest.take(j + 1 - k).drop_last() =~= rest.take(j - k));
            assert(rest.take(j + 1 - k).last() == all[j as int]);
            assert(acc@ =~= head + quoted(rest.take(j + 1 - k)));
        }
        j += 1;
    }
    assert(rest.take(j - k) =~= rest);
    string_from_chars(acc.as_slice())
}

// ───────────────────────────── reply commands ─────────────────────────────

/// Where lore's patch page spells out the `git send-email` command.
pub open spec fn full_git_command_pattern() -> Seq<char> {
    "(?s)git-send-email\\(1\\):(.*?)/path/to/YOUR_REPLY"@
}

/// A `--long=value` option.
pub open spec fn long_option_pattern() -> Seq<char> {
    "--[^\\s=]+=[^\\s]+"@
}

/// The long options lore's page suggests for a reply: the `--x=y` options
/// of the command between `git-send-email(1):` and `/path/to/YOUR_REPLY`.
pub open spec fn suggested_options(html: Seq<char>) -> Seq<Seq<char>> {
    match group_of(regex_captures(full_git_command_pattern(), html), 1) {
        Some(cmd) => regex_find_all(long_option_pattern(), cmd),
        None => seq![],
    }
}

/// The arguments of the reply command: `send-email`, the user's options,
/// the options lore suggests, and the reply file.
pub open spec fn reply_command_args(html: Seq<char>, options: Seq<char>, reply_path: Seq<char>) -> Seq<
    Seq<char>,
> {
    seq!["send-email"@] + ws_words(options) + suggested_options(html) + seq![reply_path]
}

/// The `git send-email` command replying with the file at `reply_path`;
/// `None` only if the regex crate refuses the command expressions.
pub fn extract_git_reply_command(
    patch_html: &str,
    git_send_email_options: &str,
    reply_path: &str,
) -> (r: Option<ShellCommand>)
    ensures
        r is Some <==> regex_compiles(full_git_command_pattern()) && regex_compiles(
            long_option_pattern(),
        ),
        r matches Some(cmd) ==> cmd.program@ == "git"@ && cmd.args@.map_values(|a: String| a@)
            == reply_command_args(patch_html@, git_send_email_options@, reply_path@),
{
    let full = match compile_regex("(?s)git-send-email\\(1\\):(.*?)/path/to/YOUR_REPLY") {
        Some(re) => re,
        None => {
            return None;
        },
    };
    let long = match compile_regex("--[^\\s=]+=[^\\s]+") {
        Some(re) => re,
        None => {
            return None;
        },
    };
    let mut args: Vec<String> = Vec::new();
    args.push(String::from_str("send-email"));
    let mut opts = split_whitespace_exec(git_send_email_options);
    let ghost a0 = args@.map_values(|a: String| a@);
    let ghost o = opts@.map_values(|a: String| a@);
    args.append(&mut opts);
    assert(args@.map_values(|a: String| a@) =~= a0 + o);
    let mut suggested = match capture_group(&full, patch_html, 1) {
        Some(cmd) => regex_find_all_text(&long, cmd.as_str()),
        None => Vec::new(),
    };
    let ghost a1 = args@.map_values(|a: String| a@);
    let ghost sv = suggested@.map_values(|a: String| a@);
    assert(sv == suggested_options(patch_html@));
    args.append(&mut suggested);
    assert(args@.map_values(|a: String| a@) =~= a1 + sv);
    let ghost a2 = args@.map_values(|a: String| a@);
    args.push(str_to_string(reply_path));
    assert(args@.map_values(|a: String| a@) =~= a2.push(reply_path@));
    proof {
        reveal_strlit("send-email");
        assert(a0 =~= seq!["send-email"@]);
        assert(args@.map_values(|a: String| a@) =~= reply_command_args(
            patch_html@,
            git_send_email_options@,
            reply_path@,
        ));
    }
    Some(ShellCommand { program: String::from_str("git"), args })
}

} // verus!
