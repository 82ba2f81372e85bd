//! Where the lore service keeps user state: JSON files, each replaced
//! whole through a temporary file next to it.
use vstd::prelude::*;

use crate::infra::FileSystemTrait;
use crate::lore::domain::patch::Patch;
use crate::mailing_list::MailingList;
use crate::text::{parent_dir, parent_dir_exec, str_to_string};

verus! {

/// Loads and saves the mailing lists, the bookmarks and the reviewed
/// patches; errors carry their message.
pub trait LorePersistence {
    fn load_available_lists(&self) -> Result<Vec<MailingList>, String>;

    fn save_available_lists(&self, lists: &[MailingList]) -> Result<(), String>;

    fn load_bookmarked_patchsets(&self) -> Result<Vec<Patch>, String>;

    fn save_bookmarked_patchsets(&self, patchsets: &[Patch]) -> Result<(), String>;

    fn load_reviewed_patchsets(&self) -> Result<Vec<(String, Vec<usize>)>, String>;

    fn save_reviewed_patchsets(&self, reviewed: &[(String, Vec<usize>)]) -> Result<(), String>;
}

/// Turns the stored values into JSON text and back; errors carry the
/// codec's message.
pub trait JsonCodec {
    fn lists_to_json(&self, lists: &[MailingList]) -> Result<String, String>;

    fn lists_from_json(&self, json: &str) -> Result<Vec<MailingList>, String>;

    fn patchsets_to_json(&self, patchsets: &[Patch]) -> Result<String, String>;

    fn patchsets_from_json(&self, json: &str) -> Result<Vec<Patch>, String>;

    fn reviewed_to_json(&self, reviewed: &[(String, Vec<usize>)]) -> Result<String, String>;

    fn reviewed_from_json(&self, json: &str) -> Result<Vec<(String, Vec<usize>)>, String>;
}

/// The temporary file a JSON file is written to before it replaces the
/// file: the path with `.tmp` appended.
pub open spec fn tmp_path(path: Seq<char>) -> Seq<char> {
    path + ".tmp"@
}

pub fn tmp_path_of(path: &str) -> (r: String)
    ensures
        r@ == tmp_path(path@),
{
    let mut s = str_to_string(path);
    s.append(".tmp");
    s
}

/// The message for a file that cannot be read: its path and the reason.
pub open spec fn unreadable(path: Seq<char>) -> Seq<char> {
    path + ": could not be read"@
}

/// Replaces the file at `path` with `text`: its directory is created when
/// the path names one, the text goes to the temporary file, and that file
/// is moved over `path`. The first failing step ends it with its error.
pub(crate) fn replace_file<F: FileSystemTrait>(fs: &F, path: &str, text: &str) -> Result<(), String> {
    let parent = parent_dir_exec(path);
    if parent.as_str().len() > 0 {
        match fs.create_dir_all(parent.as_str()) {
            Ok(()) => {},
            Err(e) => {
                return Err(e);
            },
        }
    }
    let tmp = tmp_path_of(path);
    match fs.write(tmp.as_str(), text.as_bytes()) {
        Ok(()) => {},
        Err(e) => {
            return Err(e);
        },
    }
    fs.rename(tmp.as_str(), path)
}

/// The lore user state kept as JSON files.
pub struct FileLorePersistence<F: FileSystemTrait, C: JsonCodec> {
    fs: F,
    codec: C,
    mailing_lists_path: String,
    bookmarked_path: String,
    reviewed_path: String,
}

impl<F: FileSystemTrait, C: JsonCodec> FileLorePersistence<F, C> {
    pub fn new(
        fs: F,
        codec: C,
        mailing_lists_path: String,
        bookmarked_path: String,
        reviewed_path: String,
    ) -> (r: Self)
        ensures
            r.paths() == (mailing_lists_path@, bookmarked_path@, reviewed_path@),
    {
        FileLorePersistence { fs, codec, mailing_lists_path, bookmarked_path, reviewed_path }
    }

    /// The files of the mailing lists, the bookmarks and the reviewed
    /// patches.
    pub closed spec fn paths(&self) -> (Seq<char>, Seq<char>, Seq<char>) {
        (self.mailing_lists_path@, self.bookmarked_path@, self.reviewed_path@)
    }

    /// Replaces the file at `path` with `json` (see `replace_file`); a
    /// codec error ends it before the file system is touched.
    fn atomic_write(&self, json: Result<String, String>, path: &str) -> (r: Result<(), String>)
        ensures
            json matches Err(e) ==> r == Err::<(), String>(e),
    {
        match json {
            Ok(text) => replace_file(&self.fs, path, text.as_str()),
            Err(e) => Err(e),
        }
    }

    /// The text of the file at `path`.
    fn read_text(&self, path: &str) -> (r: Result<String, String>)
        ensures
            r matches Err(e) ==> e@ == unreadable(path@),
    {
        match self.fs.read_to_string(path) {
            Some(t) => Ok(t),
            None => {
                let mut m = str_to_string(path);
                m.append(": could not be read");
                Err(m)
            },
        }
    }
}

/// The error of a result, as text.
pub open spec fn err_view<T>(r: Result<T, String>) -> Option<Seq<char>> {
    match r {
        Ok(_) => None,
        Err(e) => Some(e@),
    }
}

/// How loading a file may fail: a file that cannot be read is
/// [`unreadable`]; otherwise only the codec's decoding error comes out.
pub open spec fn load_error_holds(
    path: Seq<char>,
    read: bool,
    decode_error: Option<Seq<char>>,
    error: Option<Seq<char>>,
) -> bool {
    if !read {
        error == Some(unreadable(path))
    } else {
        error == decode_error
    }
}

/// How saving a file may fail: the codec's encoding error ends it before
/// the file system is touched; otherwise the error of replacing the file.
pub open spec fn save_error_holds(
    encode_error: Option<Seq<char>>,
    write_error: Option<Seq<char>>,
    error: Option<Seq<char>>,
) -> bool {
    match encode_error {
        Some(e) => error == Some(e),
        None => error == write_error,
    }
}

impl<F: FileSystemTrait, C: JsonCodec> LorePersistence for FileLorePersistence<F, C> {
    fn load_available_lists(&self) -> (r: Result<Vec<MailingList>, String>)
        ensures
            exists|read: bool, decode_error: Option<Seq<char>>|
                #[trigger] load_error_holds(self.paths().0, read, decode_error, err_view(r)),
    {
        match self.read_text(self.mailing_lists_path.as_str()) {
            Ok(t) => {
                let r = self.codec.lists_from_json(t.as_str());
                assert(load_error_holds(self.paths().0, true, err_view(r), err_view(r)));
                r
            },
            Err(e) => {
                let r = Err(e);
                assert(load_error_holds(self.paths().0, false, None, err_view(r)));
                r
            },
        }
    }

    fn save_available_lists(&self, lists: &[MailingList]) -> (r: Result<(), String>)
        ensures
            exists|encode_error: Option<Seq<char>>, write_error: Option<Seq<char>>|
                #[trigger] save_error_holds(encode_error, write_error, err_view(r)),
    {
        let json = self.codec.lists_to_json(lists);
        let ghost je = err_view(json);
        let r = self.atomic_write(json, self.mailing_lists_path.as_str());
        assert(save_error_holds(je, err_view(r), err_view(r)));
        r
    }

    fn load_bookmarked_patchsets(&self) -> (r: Result<Vec<Patch>, String>)
        ensures
            exists|read: bool, decode_error: Option<Seq<char>>|
                #[trigger] load_error_holds(self.paths().1, read, decode_error, err_view(r)),
    {
        match self.read_text(self.bookmarked_path.as_str()) {
            Ok(t) => {
                let r = self.codec.patchsets_from_json(t.as_str());
                assert(load_error_holds(self.paths().1, true, err_view(r), err_view(r)));
                r
            },
            Err(e) => {
                let r = Err(e);
                assert(load_error_holds(self.paths().1, false, None, err_view(r)));
                r
            },
        }
    }

    fn save_bookmarked_patchsets(&self, patchsets: &[Patch]) -> (r: Result<(), String>)
        ensures
            exists|encode_error: Option<Seq<char>>, write_error: Option<Seq<char>>|
                #[trigger] save_error_holds(encode_error, write_error, err_view(r)),
    {
        let json = self.codec.patchsets_to_json(patchsets);
        let ghost je = err_view(json);
        let r = self.atomic_write(json, self.bookmarked_path.as_str());
        assert(save_error_holds(je, err_view(r), err_view(r)));
        r
    }

    fn load_reviewed_patchsets(&self) -> (r: Result<Vec<(String, Vec<usize>)>, String>)
        ensures
            exists|read: bool, decode_error: Option<Seq<char>>|
                #[trigger] load_error_holds(self.paths().2, read, decode_error, err_view(r)),
    {
        match self.read_text(self.reviewed_path.as_str()) {
            Ok(t) => {
                let r = self.codec.reviewed_from_json(t.as_str());
                assert(load_error_holds(self.paths().2, true, err_view(r), err_view(r)));
                r
            },
            Err(e) => {
                let r = Err(e);
                assert(load_error_holds(self.paths().2, false, None, err_view(r)));
                r
            },
        }
    }

    fn save_reviewed_patchsets(&self, reviewed: &[(String, Vec<usize>)]) -> (r: Result<(), String>)
        ensures
            exists|encode_error: Option<Seq<char>>, write_error: Option<Seq<char>>|
                #[trigger] save_error_holds(encode_error, write_error, err_view(r)),
    {
        let json = self.codec.reviewed_to_json(reviewed);
        let ghost je = err_view(json);
        let r = self.atomic_write(json, self.reviewed_path.as_str());
        assert(save_error_holds(je, err_view(r), err_view(r)));
        r
    }
}

} // verus!
