use std::cell::RefCell;
use std::collections::{BTreeMap, BTreeSet};
use std::rc::Rc;

use patch_hub::infra::FileSystemTrait;
use patch_hub::lore::domain::patch::Patch;
use patch_hub::lore::infrastructure::parsers::parse_available_lists;
use patch_hub::lore::infrastructure::persistence::{
    tmp_path_of, FileLorePersistence, JsonCodec, LorePersistence,
};
use patch_hub::mailing_list::MailingList;

/// Files in memory, with a log of the calls that change them.
#[derive(Clone, Default)]
struct MemFs {
    files: Rc<RefCell<BTreeMap<String, String>>>,
    dirs: Rc<RefCell<BTreeSet<String>>>,
    calls: Rc<RefCell<Vec<String>>>,
}

impl FileSystemTrait for MemFs {
    fn is_file(&self, path: &str) -> bool {
        self.files.borrow().contains_key(path)
    }

    fn is_dir(&self, path: &str) -> bool {
        self.dirs.borrow().contains(path)
    }

    fn path_exists(&self, path: &str) -> bool {
        self.is_file(path) || self.is_dir(path)
    }

    fn read_to_string(&self, path: &str) -> Option<String> {
        self.files.borrow().get(path).cloned()
    }

    fn read_dir(&self, _path: &str) -> Option<Vec<String>> {
        None
    }

    fn modified(&self, _path: &str) -> Option<u64> {
        None
    }

    fn create_dir_all(&self, path: &str) -> Result<(), String> {
        self.calls.borrow_mut().push(format!("mkdir {path}"));
        self.dirs.borrow_mut().insert(path.to_string());
        Ok(())
    }

    fn write(&self, path: &str, contents: &[u8]) -> Result<(), String> {
        self.calls.borrow_mut().push(format!("write {path}"));
        self.files
            .borrow_mut()
            .insert(path.to_string(), String::from_utf8(contents.to_vec()).unwrap());
        Ok(())
    }

    fn rename(&self, from: &str, to: &str) -> Result<(), String> {
        self.calls.borrow_mut().push(format!("rename {from} {to}"));
        let v = self.files.borrow_mut().remove(from).ok_or("no such file")?;
        self.files.borrow_mut().insert(to.to_string(), v);
        Ok(())
    }
}

/// A line-based stand-in for JSON: one value per line, fields split by a
/// tab.
struct Lines;

impl JsonCodec for Lines {
    fn lists_to_json(&self, lists: &[MailingList]) -> Result<String, String> {
        Ok(lists
            .iter()
            .map(|l| format!("{}\t{}\n", l.get_name(), l.get_description()))
            .collect())
    }

    fn lists_from_json(&self, json: &str) -> Result<Vec<MailingList>, String> {
        json.lines()
            .map(|l| {
                let (n, d) = l.split_once('\t').ok_or("bad line")?;
                Ok(MailingList::new(n, d))
            })
            .collect()
    }

    fn patchsets_to_json(&self, patchsets: &[Patch]) -> Result<String, String> {
        Err(format!("{} patchsets cannot be written", patchsets.len()))
    }

    fn patchsets_from_json(&self, _json: &str) -> Result<Vec<Patch>, String> {
        Ok(vec![])
    }

    fn reviewed_to_json(&self, reviewed: &[(String, Vec<usize>)]) -> Result<String, String> {
        Ok(reviewed
            .iter()
            .map(|(id, idx)| {
                format!(
                    "{id}\t{}\n",
                    idx.iter().map(|i| i.to_string()).collect::<Vec<_>>().join(",")
                )
            })
            .collect())
    }

    fn reviewed_from_json(&self, json: &str) -> Result<Vec<(String, Vec<usize>)>, String> {
        json.lines()
            .map(|l| {
                let (id, idx) = l.split_once('\t').ok_or("bad line")?;
                let idx = idx
                    .split(',')
                    .filter(|s| !s.is_empty())
                    .map(|s| s.parse::<usize>().map_err(|e| e.to_string()))
                    .collect::<Result<Vec<_>, _>>()?;
                Ok((id.to_string(), idx))
            })
            .collect()
    }
}

fn make_persistence(fs: MemFs) -> FileLorePersistence<MemFs, Lines> {
    FileLorePersistence::new(
        fs,
        Lines,
        "/data/lists.json".to_string(),
        "/data/bookmarked.json".to_string(),
        "/data/reviewed.json".to_string(),
    )
}

#[test]
fn available_lists_round_trip() {
    let fs = MemFs::default();
    let p = make_persistence(fs.clone());
    let lists = vec![
        MailingList::new("linux-mm", "Linux-mm Archive"),
        MailingList::new("linux-kernel", "LKML"),
    ];

    p.save_available_lists(&lists).unwrap();
    let loaded = p.load_available_lists().unwrap();

    assert_eq!(2, loaded.len());
    assert_eq!("linux-mm", loaded[0].name());
    assert_eq!("linux-kernel", loaded[1].name());
    assert_eq!(
        vec![
            "mkdir /data".to_string(),
            "write /data/lists.json.tmp".to_string(),
            "rename /data/lists.json.tmp /data/lists.json".to_string(),
        ],
        *fs.calls.borrow()
    );
    assert!(!fs.files.borrow().contains_key("/data/lists.json.tmp"));
}

#[test]
fn reviewed_patchsets_round_trip() {
    let p = make_persistence(MemFs::default());
    let reviewed = vec![("some-id".to_string(), vec![1, 2])];

    p.save_reviewed_patchsets(&reviewed).unwrap();
    let loaded = p.load_reviewed_patchsets().unwrap();

    assert_eq!(1, loaded.len());
    assert_eq!("some-id", loaded[0].0);
    assert!(loaded[0].1.contains(&1));
    assert!(loaded[0].1.contains(&2));
}

#[test]
fn load_returns_error_when_file_missing() {
    let p = make_persistence(MemFs::default());
    assert_eq!(Err("/data/lists.json: could not be read".to_string()), p.load_available_lists());
    assert!(p.load_bookmarked_patchsets().is_err());
    assert!(p.load_reviewed_patchsets().is_err());
}

#[test]
fn encoding_errors_write_nothing() {
    let fs = MemFs::default();
    let p = make_persistence(fs.clone());
    assert_eq!(
        Err("0 patchsets cannot be written".to_string()),
        p.save_bookmarked_patchsets(&[])
    );
    assert!(fs.calls.borrow().is_empty());
    assert_eq!("/a/b.json.tmp", tmp_path_of("/a/b.json"));
}

fn lists_page(entries: &[(&str, &str)]) -> String {
    let mut html = String::from("<html><pre>head</pre><pre>nav</pre><pre>");
    for (n, d) in entries {
        html.push_str(&format!("* 2024-01-01 <a\nhref=\"{n}/\">{n}</a>\n  {d}\n"));
    }
    html.push_str("* end</pre></html>");
    html
}

#[test]
fn parse_available_lists_processes_html_response() {
    let html = lists_page(&[
        ("linux-mm", "Linux-mm Archive on lore.kernel.org"),
        ("all", "All of lore.kernel.org"),
        ("linux-kselftest", "Linux Kernel Selftest development"),
        ("linux-sparse", "Linux SPARSE checker discussions"),
    ]);

    let lists = parse_available_lists(&html).unwrap();

    assert_eq!(3, lists.len());
    assert_eq!("linux-mm", lists[0].name());
    assert_eq!("Linux-mm Archive on lore.kernel.org", lists[0].description());
    assert_eq!("linux-kselftest", lists[1].name());
    assert_eq!("linux-sparse", lists[2].name());
    assert!(parse_available_lists("<pre>only one</pre>").unwrap().is_empty());
}
