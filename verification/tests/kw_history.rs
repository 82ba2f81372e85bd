use std::cell::RefCell;
use std::collections::{BTreeMap, BTreeSet};
use std::rc::Rc;

use patch_hub::infra::FileSystemTrait;
use patch_hub::kw::history::{
    ApplyHistory, FileKwHistoryStore, HistoryCodec, HistoryFile, JsonHistoryFile, KwApplyRecord,
    KwHistoryStore,
};

fn record(message_id: &str, kernel_tree_id: &str, branch: &str) -> KwApplyRecord {
    KwApplyRecord {
        message_id: message_id.to_string(),
        kernel_tree_id: kernel_tree_id.to_string(),
        tree_path: "/home/user/linux".to_string(),
        applied_branch: branch.to_string(),
        base_branch: "master".to_string(),
        applied_at: "2026-08-01T17:30:00Z".to_string(),
    }
}

/// A history file kept in memory: `None` until something is saved.
struct MemHistory {
    saved: RefCell<Option<Vec<KwApplyRecord>>>,
    fail_load: bool,
}

impl MemHistory {
    fn new() -> Self {
        MemHistory { saved: RefCell::new(None), fail_load: false }
    }
}

impl HistoryFile for MemHistory {
    fn load(&self, _path: &str) -> Result<Option<ApplyHistory>, String> {
        if self.fail_load {
            return Err("corrupt".to_string());
        }
        Ok(self.saved.borrow().as_ref().map(|records| {
            let mut h = ApplyHistory::new();
            for r in records {
                h.upsert(r.clone());
            }
            h
        }))
    }

    fn save(&self, _path: &str, history: &ApplyHistory) -> Result<(), String> {
        *self.saved.borrow_mut() = Some(history.records().clone());
        Ok(())
    }
}

fn store() -> FileKwHistoryStore<MemHistory> {
    FileKwHistoryStore::new(MemHistory::new(), "/data/kw_apply_history.json".to_string())
}

#[test]
fn record_and_read_round_trip() {
    let store = store();
    let rec = record("msg-1", "mainline", "patchset-a");
    store.record_apply(rec.clone()).unwrap();
    assert_eq!(Ok(Some(rec)), store.apply_record("msg-1", "mainline"));
}

#[test]
fn record_with_same_message_id_and_tree_overwrites() {
    let store = store();
    store.record_apply(record("msg-1", "mainline", "patchset-a")).unwrap();
    store.record_apply(record("msg-1", "mainline", "patchset-b")).unwrap();
    assert_eq!(
        Ok(Some(record("msg-1", "mainline", "patchset-b"))),
        store.apply_record("msg-1", "mainline")
    );
}

#[test]
fn same_message_id_applied_to_multiple_trees_coexists() {
    let store = store();
    store.record_apply(record("msg-1", "mainline", "a")).unwrap();
    store.record_apply(record("msg-1", "next", "b")).unwrap();
    assert_eq!(Ok(Some(record("msg-1", "mainline", "a"))), store.apply_record("msg-1", "mainline"));
    assert_eq!(Ok(Some(record("msg-1", "next", "b"))), store.apply_record("msg-1", "next"));
}

#[test]
fn missing_history_file_reads_as_empty() {
    assert_eq!(Ok(None), store().apply_record("msg-1", "mainline"));
}

#[test]
fn corrupt_history_file_errors_instead_of_clobbering() {
    let mut file = MemHistory::new();
    file.fail_load = true;
    let store = FileKwHistoryStore::new(file, "/data/h.json".to_string());
    assert_eq!(Err("/data/h.json: corrupt".to_string()), store.record_apply(record("m", "t", "b")));
    assert_eq!(Err("/data/h.json: corrupt".to_string()), store.apply_record("m", "t"));
}

#[test]
fn history_keeps_one_record_per_pair() {
    let mut h = ApplyHistory::new();
    h.upsert(record("m1", "t1", "a"));
    h.upsert(record("m1", "t2", "b"));
    h.upsert(record("m1", "t1", "c"));
    assert_eq!(2, h.records().len());
    assert_eq!(Some(&record("m1", "t1", "c")), h.get("m1", "t1"));
    assert_eq!(Some(&record("m1", "t2", "b")), h.get("m1", "t2"));
    assert_eq!(None, h.get("m2", "t1"));
}

/// Files in memory; a write into a directory that was never created fails.
#[derive(Clone, Default)]
struct MemFs {
    files: Rc<RefCell<BTreeMap<String, String>>>,
    dirs: Rc<RefCell<BTreeSet<String>>>,
}

fn parent_of(path: &str) -> &str {
    path.rfind('/').map(|i| &path[..i]).unwrap_or("")
}

impl FileSystemTrait for MemFs {
    fn is_file(&self, path: &str) -> bool {
        self.files.borrow().contains_key(path)
    }

    fn is_dir(&self, path: &str) -> bool {
        self.dirs.borrow().contains(path)
    }

    fn path_exists(&self, path: &str) -> bool {
        self.is_file(path) || self.is_dir(path)
    }

    fn read_to_string(&self, path: &str) -> Option<String> {
        self.files.borrow().get(path).cloned()
    }

    fn read_dir(&self, path: &str) -> Option<Vec<String>> {
        Some(
            self.files
                .borrow()
                .keys()
                .filter(|k| parent_of(k) == path)
                .cloned()
                .collect(),
        )
    }

    fn modified(&self, _path: &str) -> Option<u64> {
        None
    }

    fn create_dir_all(&self, path: &str) -> Result<(), String> {
        let mut p = path;
        while !p.is_empty() {
            self.dirs.borrow_mut().insert(p.to_string());
            p = parent_of(p);
        }
        Ok(())
    }

    fn write(&self, path: &str, contents: &[u8]) -> Result<(), String> {
        if !self.dirs.borrow().contains(parent_of(path)) {
            return Err("no such directory".to_string());
        }
        self.files
            .borrow_mut()
            .insert(path.to_string(), String::from_utf8(contents.to_vec()).unwrap());
        Ok(())
    }

    fn rename(&self, from: &str, to: &str) -> Result<(), String> {
        let v = self.files.borrow_mut().remove(from).ok_or("no such file")?;
        self.files.borrow_mut().insert(to.to_string(), v);
        Ok(())
    }
}

/// One record per line, fields split by a tab.
struct Lines;

impl HistoryCodec for Lines {
    fn history_to_json(&self, history: &ApplyHistory) -> Result<String, String> {
        Ok(history
            .records()
            .iter()
            .map(|r| {
                format!(
                    "{}\t{}\t{}\t{}\t{}\t{}\n",
                    r.message_id, r.kernel_tree_id, r.tree_path, r.applied_branch, r.base_branch,
                    r.applied_at
                )
            })
            .collect())
    }

    fn history_from_json(&self, json: &str) -> Result<ApplyHistory, String> {
        let mut h = ApplyHistory::new();
        for line in json.lines() {
            let f: Vec<&str> = line.split('\t').collect();
            if f.len() != 6 {
                return Err("bad line".to_string());
            }
            h.upsert(KwApplyRecord {
                message_id: f[0].to_string(),
                kernel_tree_id: f[1].to_string(),
                tree_path: f[2].to_string(),
                applied_branch: f[3].to_string(),
                base_branch: f[4].to_string(),
                applied_at: f[5].to_string(),
            });
        }
        Ok(h)
    }
}

#[test]
fn record_creates_parent_directories() {
    let fs = MemFs::default();
    fs.create_dir_all("/tmp/data").unwrap();
    let path = "/tmp/data/nested/deeper/kw_apply_history.json";
    let store = FileKwHistoryStore::new(JsonHistoryFile::new(fs.clone(), Lines), path.to_string());

    store.record_apply(record("msg-1", "mainline", "patchset-x")).unwrap();

    assert!(fs.is_dir("/tmp/data/nested/deeper"));
    assert!(fs.is_file(path));
    assert_eq!(
        Ok(Some(record("msg-1", "mainline", "patchset-x"))),
        store.apply_record("msg-1", "mainline")
    );
}

#[test]
fn atomic_write_leaves_no_tmp_file() {
    let fs = MemFs::default();
    let store = FileKwHistoryStore::new(
        JsonHistoryFile::new(fs.clone(), Lines),
        "/data/kw_apply_history.json".to_string(),
    );

    store.record_apply(record("msg-1", "mainline", "patchset-x")).unwrap();

    let entries = fs.read_dir("/data").unwrap();
    assert_eq!(vec!["/data/kw_apply_history.json".to_string()], entries);
    assert!(!entries.iter().any(|e| e.ends_with(".tmp")), "atomic write should rename away .tmp");
}

#[test]
fn json_history_file_keeps_a_corrupt_file_untouched() {
    let fs = MemFs::default();
    fs.create_dir_all("/data").unwrap();
    fs.write("/data/h.json", b"not json").unwrap();
    let store =
        FileKwHistoryStore::new(JsonHistoryFile::new(fs.clone(), Lines), "/data/h.json".to_string());

    assert_eq!(Err("/data/h.json: bad line".to_string()), store.apply_record("msg-1", "mainline"));
    assert!(store.record_apply(record("msg-1", "mainline", "patchset-x")).is_err());
    assert_eq!(Some("not json".to_string()), fs.read_to_string("/data/h.json"));
}

#[test]
fn json_history_file_missing_file_is_no_history() {
    let file = JsonHistoryFile::new(MemFs::default(), Lines);
    assert!(matches!(file.load("/data/none.json"), Ok(None)));
}
