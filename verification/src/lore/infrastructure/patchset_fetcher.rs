//! Downloading a patchset with `b4` into the cache directory.
use vstd::prelude::*;

use crate::infra::{FileSystemTrait, ShellCommand, ShellTrait};
use crate::lore::domain::patch::Patch;
use crate::text::{
    chars_of, decimal, decimal_chars, ends_with, ends_with_chars, replace_all, replace_all_exec, replace_char,
    replace_char_exec, str_to_string, string_from_chars,
};

verus! {

#[derive(Debug, Clone, PartialEq, Eq)]
pub enum PatchFetchError {
    NotFound(String),
}

impl PatchFetchError {
    pub fn message(&self) -> (r: String)
        ensures
            match self {
                PatchFetchError::NotFound(s) => r@ == "patchset not found: "@ + s@,
            },
    {
        match self {
            PatchFetchError::NotFound(s) => {
                let mut m = String::from_str("patchset not found: ");
                m.append(s.as_str());
                m
            },
        }
    }
}

/// Downloads the patchset a patch belongs to, giving the file's path.
pub trait PatchsetFetcher {
    fn download(&self, patch: &Patch) -> Result<String, PatchFetchError>;
}

/// The mbox file name `b4` is asked to write for a message: the link
/// without lore's address, slashes turned into dots, ending in `.mbx`.
pub open spec fn mbox_name_of(message_id: Seq<char>) -> Seq<char> {
    let a = replace_all(message_id, "http://lore.kernel.org/"@, seq![]);
    let b = replace_all(a, "https://lore.kernel.org/"@, seq![]);
    let c = replace_char(b, '/', "."@);
    if ends_with(c, "."@) {
        c + "mbx"@
    } else {
        c + ".mbx"@
    }
}

/// Every mbox name ends in `.mbx`.
pub proof fn lemma_mbox_name_ends_in_mbx(message_id: Seq<char>)
    ensures
        ends_with(mbox_name_of(message_id), ".mbx"@),
{
    reveal_strlit(".mbx");
    reveal_strlit("mbx");
    reveal_strlit(".");
    let a = replace_all(message_id, "http://lore.kernel.org/"@, seq![]);
    let b = replace_all(a, "https://lore.kernel.org/"@, seq![]);
    let c = replace_char(b, '/', "."@);
    let n = mbox_name_of(message_id);
    if ends_with(c, "."@) {
        assert(c.len() >= 1 && c.last() == '.') by {
            assert(c.subrange(c.len() - 1, c.len() as int)[0] == c[c.len() - 1]);
        }
        assert(n.subrange(n.len() - 4, n.len() as int) =~= ".mbx"@);
    } else {
        assert(n.subrange(n.len() - 4, n.len() as int) =~= ".mbx"@);
    }
}

pub fn extract_mbox_name_from_message_id(message_id: &str) -> (r: String)
    ensures
        r@ == mbox_name_of(message_id@),
{
    let m = chars_of(message_id);
    let none: Vec<char> = Vec::new();
    let http = chars_of("http://lore.kernel.org/");
    let https = chars_of("https://lore.kernel.org/");
    let dot = chars_of(".");
    assert(none@ =~= seq![]);
    let a = replace_all_exec(m.as_slice(), http.as_slice(), none.as_slice());
    let b = replace_all_exec(a.as_slice(), https.as_slice(), none.as_slice());
    let c = replace_char_exec(b.as_slice(), '/', dot.as_slice());
    let mut name = string_from_chars(c.as_slice());
    if ends_with_chars(c.as_slice(), dot.as_slice()) {
        name.append("mbx");
    } else {
        name.append(".mbx");
    }
    name
}

/// The file a patchset of `message_id` is cached in.
pub open spec fn cached_file(cache_dir: Seq<char>, message_id: Seq<char>) -> Seq<char> {
    cache_dir + "/"@ + mbox_name_of(message_id)
}

/// `b4 --quiet am --use-version <version> <message id> --outdir <dir>
/// --mbox-name <name>`.
pub fn b4_command(version: usize, message_id: &str, output_dir: &str, mbox_name: &str) -> (r:
    ShellCommand)
    ensures
        r.program@ == "b4"@,
        r.args@.len() == 9,
        r.args@[0]@ == "--quiet"@,
        r.args@[1]@ == "am"@,
        r.args@[2]@ == "--use-version"@,
        r.args@[3]@ == decimal(version as nat),
        r.args@[4]@ == message_id@,
        r.args@[5]@ == "--outdir"@,
        r.args@[6]@ == output_dir@,
        r.args@[7]@ == "--mbox-name"@,
        r.args@[8]@ == mbox_name@,
{
    let v = decimal_chars(version as u64);
    let vs = string_from_chars(v.as_slice());
    ShellCommand::new("b4").arg("--quiet").arg("am").arg("--use-version").arg(vs.as_str()).arg(
        message_id,
    ).arg("--outdir").arg(output_dir).arg("--mbox-name").arg(mbox_name)
}

/// Fetches patchsets with `b4` into a cache directory.
pub struct B4PatchsetFetcher<S: ShellTrait, F: FileSystemTrait> {
    shell: S,
    fs: F,
    cache_dir: String,
}

impl<S: ShellTrait, F: FileSystemTrait> B4PatchsetFetcher<S, F> {
    pub fn new(shell: S, fs: F, cache_dir: String) -> (r: Self)
        ensures
            r.dir() == cache_dir@,
    {
        B4PatchsetFetcher { shell, fs, cache_dir }
    }

    pub closed spec fn dir(&self) -> Seq<char> {
        self.cache_dir@
    }

    /// The cached patchset file of the patch: reused when already there,
    /// fetched with `b4` otherwise (b4 runs only when the file was not
    /// there). The answer is [`fetch_outcome`] of what the file system and
    /// the shell reported.
    pub fn fetch(&self, patch: &Patch) -> (r: Result<String, PatchFetchError>)
        ensures
            exists|dir_ready: bool, existed: bool, b4_ran: bool, exists_after: bool|
                fetch_result_view(r) == fetch_outcome(
                    cached_file(self.dir(), patch.spec_message_id().href@),
                    dir_ready,
                    existed,
                    b4_ran,
                    exists_after,
                ),
            r matches Ok(p) ==> p@ == cached_file(self.dir(), patch.spec_message_id().href@),
            r matches Err(PatchFetchError::NotFound(m)) ==> m@ == "Couldn't create patches dir."@
                || m@ == "b4 couldn't fetch patchset file."@,
    {
        let message_id = patch.message_id().href.as_str();
        let mbox_name = extract_mbox_name_from_message_id(message_id);
        let output_dir = self.cache_dir.as_str();
        let mut filepath = str_to_string(output_dir);
        filepath.append("/");
        filepath.append(mbox_name.as_str());
        let dir_ready = self.fs.path_exists(output_dir) || self.fs.create_dir_all(output_dir).is_ok();
        if !dir_ready {
            let r = fetch_verdict(filepath, false, false, false, false);
            assert(fetch_result_view(r) == fetch_outcome(
                cached_file(self.dir(), patch.spec_message_id().href@),
                false,
                false,
                false,
                false,
            ));
            return r;
        }
        let existed = self.fs.path_exists(filepath.as_str());
        let mut b4_ran = false;
        if !existed {
            let cmd = b4_command(patch.version(), message_id, output_dir, mbox_name.as_str());
            b4_ran = self.shell.execute(&cmd).is_some();
            if !b4_ran {
                let r = fetch_verdict(filepath, true, false, false, false);
                assert(fetch_result_view(r) == fetch_outcome(
                    cached_file(self.dir(), patch.spec_message_id().href@),
                    true,
                    false,
                    false,
                    false,
                ));
                return r;
            }
        }
        let exists_after = self.fs.path_exists(filepath.as_str());
        fetch_verdict(filepath, true, existed, b4_ran, exists_after)
    }
}

/// What fetching a patchset file comes to: an error when the cache dir
/// neither existed nor could be created; an error when the file was not
/// there and `b4` could not be run; else the file's path when it is there
/// afterwards, an error otherwise.
pub open spec fn fetch_outcome(
    file: Seq<char>,
    dir_ready: bool,
    existed: bool,
    b4_ran: bool,
    exists_after: bool,
) -> Result<Seq<char>, Seq<char>> {
    if !dir_ready {
        Err("Couldn't create patches dir."@)
    } else if !existed && !b4_ran {
        Err("b4 couldn't fetch patchset file."@)
    } else if exists_after {
        Ok(file)
    } else {
        Err("b4 couldn't fetch patchset file."@)
    }
}

pub open spec fn fetch_result_view(r: Result<String, PatchFetchError>) -> Result<
    Seq<char>,
    Seq<char>,
> {
    match r {
        Ok(p) => Ok(p@),
        Err(PatchFetchError::NotFound(m)) => Err(m@),
    }
}

/// The fetch's answer from what was reported, for the file at `file`.
pub fn fetch_verdict(
    file: String,
    dir_ready: bool,
    existed: bool,
    b4_ran: bool,
    exists_after: bool,
) -> (r: Result<String, PatchFetchError>)
    ensures
        fetch_result_view(r) == fetch_outcome(file@, dir_ready, existed, b4_ran, exists_after),
{
    if !dir_ready {
        Err(PatchFetchError::NotFound(String::from_str("Couldn't create patches dir.")))
    } else if !existed && !b4_ran {
        Err(PatchFetchError::NotFound(String::from_str("b4 couldn't fetch patchset file.")))
    } else if exists_after {
        Ok(file)
    } else {
        Err(PatchFetchError::NotFound(String::from_str("b4 couldn't fetch patchset file.")))
    }
}

impl<S: ShellTrait, F: FileSystemTrait> PatchsetFetcher for B4PatchsetFetcher<S, F> {
    fn download(&self, patch: &Patch) -> (r: Result<String, PatchFetchError>)
        ensures
            exists|dir_ready: bool, existed: bool, b4_ran: bool, exists_after: bool|
                fetch_result_view(r) == fetch_outcome(
                    cached_file(self.dir(), patch.spec_message_id().href@),
                    dir_ready,
                    existed,
                    b4_ran,
                    exists_after,
                ),
            r matches Ok(p) ==> p@ == cached_file(self.dir(), patch.spec_message_id().href@),
            r matches Err(PatchFetchError::NotFound(m)) ==> m@ == "Couldn't create patches dir."@
                || m@ == "b4 couldn't fetch patchset file."@,
    {
        self.fetch(patch)
    }
}

} // verus!
