//! User-local history of patchset applies and kw builds.
//!
//! Apply records feed kw build/deploy readiness and the branch prefill, so
//! they are user state — not a cache. The history is a map from
//! `(message id, kernel tree id)` to the record: applying the same patchset
//! to several trees keeps one record per tree.
use vstd::prelude::*;

use crate::infra::FileSystemTrait;
use crate::lore::infrastructure::persistence::replace_file;
use crate::text::str_to_string;

verus! {

/// One recorded `git am` application of a lore patchset to a kernel tree.
#[derive(Debug, Clone, PartialEq, Eq)]
pub struct KwApplyRecord {
    pub message_id: String,
    pub kernel_tree_id: String,
    /// Snapshot of the tree's path when the record was written, so later
    /// readiness checks can detect the tree being repointed or moved.
    pub tree_path: String,
    pub applied_branch: String,
    pub base_branch: String,
    /// RFC3339 timestamp.
    pub applied_at: String,
}

/// One recorded kw build of a kernel tree.
#[derive(Debug, Clone, PartialEq, Eq)]
pub struct KwBuildRecord {
    pub kernel_tree_id: String,
    pub tree_path: String,
    pub message_id: Option<String>,
    pub branch: String,
    pub arch: Option<String>,
    pub image_path: Option<String>,
    /// The kw env's `O=` dir the build ran with, if an env was active.
    pub output_dir: Option<String>,
    pub kernelrelease: Option<String>,
    pub log_path: String,
    pub built_at: String,
    pub success: bool,
}

/// The fields of an apply record, as text.
pub type ApplyView = (Seq<char>, Seq<char>, Seq<char>, Seq<char>, Seq<char>, Seq<char>);

/// The key an apply record is stored under.
pub type ApplyKey = (Seq<char>, Seq<char>);

impl View for KwApplyRecord {
    type V = ApplyView;

    open spec fn view(&self) -> ApplyView {
        (
            self.message_id@,
            self.kernel_tree_id@,
            self.tree_path@,
            self.applied_branch@,
            self.base_branch@,
            self.applied_at@,
        )
    }
}

pub open spec fn apply_key(r: ApplyView) -> ApplyKey {
    (r.0, r.1)
}

/// The history a list of records denotes: a later record for the same key
/// wins.
pub open spec fn records_map(s: Seq<KwApplyRecord>) -> Map<ApplyKey, ApplyView>
    decreases s.len(),
{
    if s.len() == 0 {
        Map::empty()
    } else {
        records_map(s.drop_last()).insert(apply_key(s.last()@), s.last()@)
    }
}

pub open spec fn record_keys_distinct(s: Seq<KwApplyRecord>) -> bool {
    forall|i: int, j: int| 0 <= i < j < s.len() ==> apply_key(s[i]@) != apply_key(s[j]@)
}

/// All apply records, keyed by `(message id, kernel tree id)`.
pub struct ApplyHistory {
    records: Vec<KwApplyRecord>,
}

impl View for ApplyHistory {
    type V = Map<ApplyKey, ApplyView>;

    closed spec fn view(&self) -> Map<ApplyKey, ApplyView> {
        records_map(self.records@)
    }
}

proof fn lemma_records_map(s: Seq<KwApplyRecord>)
    requires
        record_keys_distinct(s),
    ensures
        forall|i: int| 0 <= i < s.len() ==> #[trigger] records_map(s).dom().contains(apply_key(s[i]@)),
        forall|i: int| 0 <= i < s.len() ==> #[trigger] records_map(s)[apply_key(s[i]@)] == s[i]@,
        forall|k: ApplyKey| #[trigger] records_map(s).dom().contains(k) ==> exists|i: int|
            0 <= i < s.len() && apply_key(s[i]@) == k,
    decreases s.len(),
{
    if s.len() > 0 {
        let d = s.drop_last();
        assert(record_keys_distinct(d)) by {
            assert forall|i: int, j: int| 0 <= i < j < d.len() implies apply_key(d[i]@) != apply_key(
                d[j]@,
            ) by {
                assert(d[i] == s[i] && d[j] == s[j]);
            }
        }
        lemma_records_map(d);
        let m = records_map(s);
        assert(m == records_map(d).insert(apply_key(s.last()@), s.last()@));
        assert forall|i: int| 0 <= i < s.len() implies m.dom().contains(apply_key(s[i]@))
            && #[trigger] m[apply_key(s[i]@)] == s[i]@ by {
            if i < s.len() - 1 {
                assert(s[i] == d[i]);
                assert(records_map(d).dom().contains(apply_key(d[i]@)));
                assert(records_map(d)[apply_key(d[i]@)] == d[i]@);
                assert(apply_key(s[i]@) != apply_key(s[s.len() - 1]@));
            } else {
                assert(s[i] == s.last());
            }
        }
        assert forall|i: int| 0 <= i < s.len() implies #[trigger] records_map(s).dom().contains(
            apply_key(s[i]@),
        ) by {
            assert(m[apply_key(s[i]@)] == s[i]@);
        }
        assert forall|k: ApplyKey| #[trigger] m.dom().contains(k) implies exists|i: int|
            0 <= i < s.len() && apply_key(s[i]@) == k by {
            if k != apply_key(s.last()@) {
                assert(records_map(d).dom().contains(k));
                let i = choose|i: int| 0 <= i < d.len() && apply_key(d[i]@) == k;
                assert(s[i] == d[i]);
            } else {
                assert(apply_key(s[s.len() - 1]@) == k);
            }
        }
    }
}

proof fn lemma_records_map_update(s: Seq<KwApplyRecord>, i: int, r: KwApplyRecord)
    requires
        0 <= i < s.len(),
        apply_key(s[i]@) == apply_key(r@),
        record_keys_distinct(s),
    ensures
        records_map(s.update(i, r)) == records_map(s).insert(apply_key(r@), r@),
    decreases s.len(),
{
    let u = s.update(i, r);
    let d = s.drop_last();
    if i == s.len() - 1 {
        assert(u.drop_last() =~= d);
        assert(records_map(u) =~= records_map(s).insert(apply_key(r@), r@));
    } else {
        assert(u.drop_last() =~= d.update(i, r));
        assert(record_keys_distinct(d)) by {
            assert forall|a: int, b: int| 0 <= a < b < d.len() implies apply_key(d[a]@) != apply_key(
                d[b]@,
            ) by {
                assert(d[a] == s[a] && d[b] == s[b]);
            }
        }
        lemma_records_map_update(d, i, r);
        assert(s[i] == d[i]);
        assert(apply_key(s.last()@) != apply_key(r@));
        assert(records_map(u) =~= records_map(s).insert(apply_key(r@), r@));
    }
}

impl ApplyHistory {
    #[verifier::type_invariant]
    spec fn inv(self) -> bool {
        record_keys_distinct(self.records@)
    }

    pub fn new() -> (r: Self)
        ensures
            r@ == Map::<ApplyKey, ApplyView>::empty(),
    {
        ApplyHistory { records: Vec::new() }
    }

    /// Inserts or replaces the record for its `(message id, tree id)` pair.
    pub fn upsert(&mut self, record: KwApplyRecord)
        ensures
            final(self)@ == old(self)@.insert(apply_key(record@), record@),
    {
        proof {
            use_type_invariant(&*self);
        }
        let mut rs: Vec<KwApplyRecord> = Vec::new();
        std::mem::swap(&mut rs, &mut self.records);
        let ghost s = rs@;
        let mut i: usize = 0;
        while i < rs.len()
            invariant
                i <= rs@.len(),
                rs@ == s,
                s == old(self).records@,
                record_keys_distinct(s),
                forall|k: int| 0 <= k < i ==> apply_key(s[k]@) != apply_key(record@),
            decreases rs.len() - i,
        {
            if rs[i].message_id == record.message_id && rs[i].kernel_tree_id
                == record.kernel_tree_id {
                proof {
                    lemma_records_map_update(s, i as int, record);
                    assert forall|a: int, b: int| 0 <= a < b < s.len() implies apply_key(
                        s.update(i as int, record)[a]@,
                    ) != apply_key(s.update(i as int, record)[b]@) by {}
                }
                rs.set(i, record);
                self.records = rs;
                return;
            }
            i += 1;
        }
        rs.push(record);
        proof {
            assert(rs@.drop_last() =~= s);
        }
        self.records = rs;
    }

    /// The record for the `(message id, tree id)` pair, if one was recorded.
    pub fn get(&self, message_id: &str, kernel_tree_id: &str) -> (r: Option<&KwApplyRecord>)
        ensures
            r is Some <==> self@.dom().contains((message_id@, kernel_tree_id@)),
            r matches Some(v) ==> v@ == self@[(message_id@, kernel_tree_id@)],
            r matches Some(v) ==> v.message_id@ == message_id@ && v.kernel_tree_id@
                == kernel_tree_id@,
    {
        proof {
            use_type_invariant(self);
            lemma_records_map(self.records@);
        }
        let mut i: usize = 0;
        while i < self.records.len()
            invariant
                i <= self.records@.len(),
                record_keys_distinct(self.records@),
                forall|k: int|
                    0 <= k < i ==> apply_key(self.records@[k]@) != (message_id@, kernel_tree_id@),
            decreases self.records.len() - i,
        {
            let r = &self.records[i];
            if crate::text::str_eq(r.message_id.as_str(), message_id) && crate::text::str_eq(
                r.kernel_tree_id.as_str(),
                kernel_tree_id,
            ) {
                proof {
                    lemma_records_map(self.records@);
                }
                return Some(r);
            }
            i += 1;
        }
        None
    }

    /// The records, one per key, for writing the history out.
    pub fn records(&self) -> (r: &Vec<KwApplyRecord>)
        ensures
            records_map(r@) == self@,
            record_keys_distinct(r@),
    {
        proof {
            use_type_invariant(self);
        }
        &self.records
    }
}

/// The history a loaded one becomes when `record` is recorded into it: a
/// missing history counts as empty, and the record replaces any earlier
/// one for its pair.
pub open spec fn recorded(loaded: Option<Map<ApplyKey, ApplyView>>, record: ApplyView) -> Map<
    ApplyKey,
    ApplyView,
> {
    match loaded {
        Some(h) => h,
        None => Map::empty(),
    }.insert(apply_key(record), record)
}

pub open spec fn loaded_view(loaded: Option<ApplyHistory>) -> Option<Map<ApplyKey, ApplyView>> {
    match loaded {
        Some(h) => Some(h@),
        None => None,
    }
}

/// Reading a record back from the history that recording it produced (as
/// the history store does: load, record, save) gives what was recorded,
/// also when no history existed before, and recording leaves every other
/// pair as it was.
pub proof fn lemma_record_then_read(
    loaded: Option<Map<ApplyKey, ApplyView>>,
    r: ApplyView,
    k: ApplyKey,
)
    ensures
        recorded(loaded, r).dom().contains(apply_key(r)),
        recorded(loaded, r)[apply_key(r)] == r,
        loaded is None && k != apply_key(r) ==> !recorded(loaded, r).dom().contains(k),
        loaded is Some && k != apply_key(r) ==> (recorded(loaded, r).dom().contains(k)
            == loaded->0.dom().contains(k)),
        loaded is Some && k != apply_key(r) && loaded->0.dom().contains(k) ==> recorded(
            loaded,
            r,
        )[k] == loaded->0[k],
{
}

/// Applying one patchset to two different trees keeps a record for each.
pub proof fn lemma_trees_coexist(loaded: Option<Map<ApplyKey, ApplyView>>, a: ApplyView, b: ApplyView)
    requires
        a.0 == b.0,
        a.1 != b.1,
    ensures
        recorded(Some(recorded(loaded, a)), b)[apply_key(a)] == a,
        recorded(Some(recorded(loaded, a)), b)[apply_key(b)] == b,
{
}

/// Where the history is kept: loading and saving it whole. `load` answers
/// `None` when no history was ever written.
pub trait HistoryFile {
    fn load(&self, path: &str) -> Result<Option<ApplyHistory>, String>;

    fn save(&self, path: &str, history: &ApplyHistory) -> Result<(), String>;
}

/// Turns a history into JSON text and back; errors carry the codec's
/// message.
pub trait HistoryCodec {
    fn history_to_json(&self, history: &ApplyHistory) -> Result<String, String>;

    fn history_from_json(&self, json: &str) -> Result<ApplyHistory, String>;
}

/// The history kept as a JSON file read and written through a file system.
/// A missing file is no history; one that cannot be read or decoded is an
/// error, so the next write never clobbers it; a write replaces the file
/// through a temporary one.
pub struct JsonHistoryFile<F: FileSystemTrait, C: HistoryCodec> {
    fs: F,
    codec: C,
}

impl<F: FileSystemTrait, C: HistoryCodec> JsonHistoryFile<F, C> {
    /// The file system the file is read and written through.
    pub closed spec fn file_system(&self) -> F {
        self.fs
    }

    /// The codec of the file's text.
    pub closed spec fn spec_codec(&self) -> C {
        self.codec
    }

    pub fn new(fs: F, codec: C) -> (r: Self)
        ensures
            r.file_system() == fs,
            r.spec_codec() == codec,
    {
        JsonHistoryFile { fs, codec }
    }
}

/// What loading the history file comes to, from what was found: no file is
/// no history; a file that could not be read (`decoded` is `None`) is an
/// error; otherwise the codec's answer, a decoding error passed on as is.
pub open spec fn load_holds(
    present: bool,
    decoded: Option<Result<Map<ApplyKey, ApplyView>, Seq<char>>>,
    r: Result<Option<ApplyHistory>, String>,
) -> bool {
    if !present {
        r matches Ok(None)
    } else {
        match decoded {
            None => r matches Err(e) && e@ == "could not be read"@,
            Some(Ok(h)) => r matches Ok(Some(x)) && x@ == h,
            Some(Err(m)) => r matches Err(e) && e@ == m,
        }
    }
}

pub open spec fn decoded_view(d: Option<Result<ApplyHistory, String>>) -> Option<
    Result<Map<ApplyKey, ApplyView>, Seq<char>>,
> {
    match d {
        None => None,
        Some(Ok(h)) => Some(Ok(h@)),
        Some(Err(e)) => Some(Err(e@)),
    }
}

/// The load's answer from whether the file is there and what decoding
/// its text gave (`None` when it could not be read).
pub fn load_verdict(present: bool, decoded: Option<Result<ApplyHistory, String>>) -> (r: Result<
    Option<ApplyHistory>,
    String,
>)
    ensures
        load_holds(present, decoded_view(decoded), r),
{
    if !present {
        return Ok(None);
    }
    match decoded {
        None => Err(str_to_string("could not be read")),
        Some(Ok(h)) => Ok(Some(h)),
        Some(Err(e)) => Err(e),
    }
}

/// What saving the history comes to: the codec's error, else how
/// replacing the file with the encoded text went.
pub open spec fn save_holds(
    encoded: Result<Seq<char>, Seq<char>>,
    written: Result<(), Seq<char>>,
    r: Result<(), String>,
) -> bool {
    match encoded {
        Err(e) => r matches Err(m) && m@ == e,
        Ok(_) => match written {
            Ok(()) => r is Ok,
            Err(e) => r matches Err(m) && m@ == e,
        },
    }
}

impl<F: FileSystemTrait, C: HistoryCodec> HistoryFile for JsonHistoryFile<F, C> {
    /// Asks whether the file is there; if so reads it and decodes the text
    /// with the codec. The answer is [`load_verdict`] of that.
    fn load(&self, path: &str) -> (r: Result<Option<ApplyHistory>, String>)
        ensures
            exists|present: bool, decoded: Option<Result<Map<ApplyKey, ApplyView>, Seq<char>>>|
                #[trigger] load_holds(present, decoded, r),
    {
        if !self.fs.is_file(path) {
            let r = load_verdict(false, None);
            assert(load_holds(false, decoded_view(None), r));
            return r;
        }
        let decoded = match self.fs.read_to_string(path) {
            Some(text) => Some(self.codec.history_from_json(text.as_str())),
            None => None,
        };
        let ghost dv = decoded_view(decoded);
        let r = load_verdict(true, decoded);
        assert(load_holds(true, dv, r));
        r
    }

    /// Encodes the history with the codec and, when that worked, replaces
    /// the file with the text (see `replace_file`).
    fn save(&self, path: &str, history: &ApplyHistory) -> (r: Result<(), String>)
        ensures
            exists|encoded: Result<Seq<char>, Seq<char>>, written: Result<(), Seq<char>>|
                #[trigger] save_holds(encoded, written, r),
    {
        match self.codec.history_to_json(history) {
            Ok(text) => {
                let ghost tv = text@;
                let r = replace_file(&self.fs, path, text.as_str());
                let ghost w = match &r {
                    Ok(()) => Ok::<(), Seq<char>>(()),
                    Err(e) => Err::<(), Seq<char>>(e@),
                };
                assert(save_holds(Ok(tv), w, r));
                r
            },
            Err(e) => {
                let ghost ev = e@;
                let r = Err(e);
                assert(save_holds(Err(ev), Ok(()), r));
                r
            },
        }
    }
}

/// Access to the apply history.
pub trait KwHistoryStore {
    /// Inserts or replaces the apply record for the record's
    /// `(message_id, kernel_tree_id)` pair.
    fn record_apply(&self, record: KwApplyRecord) -> Result<(), String>;

    /// The apply record for the pair, or `None` if it was never recorded.
    fn apply_record(&self, message_id: &str, kernel_tree_id: &str) -> Result<
        Option<KwApplyRecord>,
        String,
    >;
}

/// The apply history kept as one file.
pub struct FileKwHistoryStore<F: HistoryFile> {
    file: F,
    apply_history_path: String,
}

/// What recording comes to: a failed load ends it with the load's error
/// (nothing is saved then), else a failed save with the save's error; each
/// error names the history file.
pub open spec fn record_holds(
    path: Seq<char>,
    loaded: Result<(), Seq<char>>,
    saved: Result<(), Seq<char>>,
    r: Result<(), String>,
) -> bool {
    match loaded {
        Err(m) => r matches Err(e) && e@ == with_path(path, m),
        Ok(()) => match saved {
            Err(m) => r matches Err(e) && e@ == with_path(path, m),
            Ok(()) => r is Ok,
        },
    }
}

/// What reading a pair back comes to: a failed load is an error naming
/// the file; no history has no record; otherwise the loaded history's
/// record for the pair, if any.
pub open spec fn lookup_holds(
    path: Seq<char>,
    key: ApplyKey,
    loaded: Result<Option<Map<ApplyKey, ApplyView>>, Seq<char>>,
    r: Result<Option<KwApplyRecord>, String>,
) -> bool {
    match loaded {
        Err(m) => r matches Err(e) && e@ == with_path(path, m),
        Ok(None) => r matches Ok(None),
        Ok(Some(h)) => if h.dom().contains(key) {
            r matches Ok(Some(rec)) && rec@ == h[key]
        } else {
            r matches Ok(None)
        },
    }
}

/// An error message that names the history file, so the user knows which
/// file to inspect or delete.
pub open spec fn with_path(path: Seq<char>, error: Seq<char>) -> Seq<char> {
    path + ": "@ + error
}

impl<F: HistoryFile> FileKwHistoryStore<F> {
    pub fn new(file: F, apply_history_path: String) -> (r: Self)
        ensures
            r.path()@ == apply_history_path@,
    {
        FileKwHistoryStore { file, apply_history_path }
    }

    pub closed spec fn path(&self) -> String {
        self.apply_history_path
    }

    fn error_with_path(&self, error: String) -> (r: String)
        ensures
            r@ == with_path(self.path()@, error@),
    {
        let mut s = self.apply_history_path.clone();
        s.append(": ");
        s.append(error.as_str());
        s
    }

    /// The history after recording `record` into what was loaded: a missing
    /// file counts as an empty history.
    pub fn updated(loaded: Option<ApplyHistory>, record: KwApplyRecord) -> (r: ApplyHistory)
        ensures
            r@ == recorded(loaded_view(loaded), record@),
    {
        let mut h = match loaded {
            Some(h) => h,
            None => ApplyHistory::new(),
        };
        h.upsert(record);
        h
    }
}

impl<F: HistoryFile> KwHistoryStore for FileKwHistoryStore<F> {
    /// Loads the history, records into it as [`Self::updated`] does, and
    /// saves it whole; a failure names the history file.
    fn record_apply(&self, record: KwApplyRecord) -> (r: Result<(), String>)
        ensures
            r matches Err(e) ==> exists|m: Seq<char>| e@ == with_path(self.path()@, m),
            exists|loaded: Result<(), Seq<char>>, saved: Result<(), Seq<char>>|
                #[trigger] record_holds(self.path()@, loaded, saved, r),
    {
        let loaded = match self.file.load(self.apply_history_path.as_str()) {
            Ok(l) => l,
            Err(e) => {
                let ghost ev = e@;
                let r = Err(self.error_with_path(e));
                assert(record_holds(self.path()@, Err(ev), Ok(()), r));
                return r;
            },
        };
        let h = Self::updated(loaded, record);
        match self.file.save(self.apply_history_path.as_str(), &h) {
            Ok(()) => {
                let r = Ok(());
                assert(record_holds(self.path()@, Ok(()), Ok(()), r));
                r
            },
            Err(e) => {
                let ghost ev = e@;
                let r = Err(self.error_with_path(e));
                assert(record_holds(self.path()@, Ok(()), Err(ev), r));
                r
            },
        }
    }

    /// The record for the pair in the loaded history; a missing history
    /// has none, and a failure names the history file.
    fn apply_record(&self, message_id: &str, kernel_tree_id: &str) -> (r: Result<
        Option<KwApplyRecord>,
        String,
    >)
        ensures
            r matches Err(e) ==> exists|m: Seq<char>| e@ == with_path(self.path()@, m),
            r matches Ok(Some(rec)) ==> rec.message_id@ == message_id@ && rec.kernel_tree_id@
                == kernel_tree_id@,
            exists|loaded: Result<Option<Map<ApplyKey, ApplyView>>, Seq<char>>|
                #[trigger] lookup_holds(self.path()@, (message_id@, kernel_tree_id@), loaded, r),
    {
        let loaded = self.file.load(self.apply_history_path.as_str());
        let ghost lv = match &loaded {
            Ok(Some(h)) => Ok::<Option<Map<ApplyKey, ApplyView>>, Seq<char>>(Some(h@)),
            Ok(None) => Ok::<Option<Map<ApplyKey, ApplyView>>, Seq<char>>(None),
            Err(e) => Err::<Option<Map<ApplyKey, ApplyView>>, Seq<char>>(e@),
        };
        let r = self.lookup_in(loaded, message_id, kernel_tree_id);
        assert(lookup_holds(self.path()@, (message_id@, kernel_tree_id@), lv, r));
        r
    }
}

impl<F: HistoryFile> FileKwHistoryStore<F> {
    fn lookup_in(
        &self,
        loaded: Result<Option<ApplyHistory>, String>,
        message_id: &str,
        kernel_tree_id: &str,
    ) -> (r: Result<Option<KwApplyRecord>, String>)
        ensures
            r matches Ok(Some(rec)) ==> rec.message_id@ == message_id@ && rec.kernel_tree_id@
                == kernel_tree_id@,
            lookup_holds(
                self.path()@,
                (message_id@, kernel_tree_id@),
                match loaded {
                    Ok(Some(h)) => Ok::<Option<Map<ApplyKey, ApplyView>>, Seq<char>>(Some(h@)),
                    Ok(None) => Ok::<Option<Map<ApplyKey, ApplyView>>, Seq<char>>(None),
                    Err(e) => Err::<Option<Map<ApplyKey, ApplyView>>, Seq<char>>(e@),
                },
                r,
            ),
    {
        match loaded {
            Ok(Some(h)) => match h.get(message_id, kernel_tree_id) {
                Some(r) => Ok(
                    Some(
                        KwApplyRecord {
                            message_id: r.message_id.clone(),
                            kernel_tree_id: r.kernel_tree_id.clone(),
                            tree_path: r.tree_path.clone(),
                            applied_branch: r.applied_branch.clone(),
                            base_branch: r.base_branch.clone(),
                            applied_at: r.applied_at.clone(),
                        },
                    ),
                ),
                None => Ok(None),
            },
            Ok(None) => Ok(None),
            Err(e) => Err(self.error_with_path(e)),
        }
    }
}

} // verus!
