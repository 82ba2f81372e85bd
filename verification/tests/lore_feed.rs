use std::cell::RefCell;
use std::collections::BTreeSet;
use std::rc::Rc;

use patch_hub::infra::{FileSystemTrait, ShellCommand, ShellOutput, ShellTrait};
use patch_hub::lore::application::api::LoreServiceApi;
use patch_hub::lore::application::cache::CacheMode;
use patch_hub::lore::application::errors::LoreError;
use patch_hub::lore::application::service::LoreService;
use patch_hub::lore::domain::patch::{Author, MessageID, Patch, PatchFeed};
use patch_hub::lore::domain::patchset::PatchFeedIndex;
use patch_hub::lore::infrastructure::http_lore_client::{
    FeedGateway, ListsGateway, LoreHttpError, PatchHtmlGateway,
};
use patch_hub::lore::infrastructure::parsers::FeedParser;
use patch_hub::lore::infrastructure::patchset_fetcher::{
    extract_mbox_name_from_message_id, B4PatchsetFetcher, PatchFetchError, PatchsetFetcher,
};
use patch_hub::lore::infrastructure::patchset_parser::PatchsetParser;
use patch_hub::lore::infrastructure::persistence::LorePersistence;
use patch_hub::mailing_list::MailingList;

// ───────────────────────────── feeds built by hand ─────────────────────────────

fn entry(title: &str, href: &str, in_reply_to: Option<&str>) -> Patch {
    Patch::from_parts(
        title.to_string(),
        1,
        1,
        1,
        Author { name: "John Johnson".to_string(), email: "john@johnson.com".to_string() },
        MessageID { href: href.to_string() },
        in_reply_to.map(|h| MessageID { href: h.to_string() }),
        "2024-07-06T19:15:48Z".to_string(),
    )
}

const JOHN: &str = "http://lore.kernel.org/some-subsystem/1234.567-1-john@johnson.com/";
const ROBERTO: &str = "http://lore.kernel.org/some-subsystem/1234.567-1-roberto@silva.br/";
const LIMA: &str = "http://lore.kernel.org/some-subsystem/first-patch-lima@luma.rs/";

/// The first patch of a series without a cover letter, and the second.
fn sample_1() -> PatchFeed {
    PatchFeed::new(vec![
        entry("[PATCH 1/2] some/subsystem: Do this and that", JOHN, None),
        entry(
            "[PATCH 2/2] some/subsystem: And the rest",
            "http://lore.kernel.org/some-subsystem/1234.567-2-john@johnson.com/",
            Some(JOHN),
        ),
    ])
}

/// A series with a cover letter, a standalone patch and a series without
/// one: three representatives.
fn sample_2() -> PatchFeed {
    let cover = "http://lore.kernel.org/some-subsystem/1234.567-0-roberto@silva.br/";
    PatchFeed::new(vec![
        entry("[PATCH 0/2] roberto: cover", cover, None),
        entry("[PATCH 1/2] roberto: first", ROBERTO, Some(cover)),
        entry(
            "[PATCH 2/2] roberto: second",
            "http://lore.kernel.org/some-subsystem/1234.567-2-roberto@silva.br/",
            Some(cover),
        ),
        entry("[PATCH] lima: only", LIMA, None),
        entry("[PATCH v2 1/3] john: first", JOHN, None),
    ])
}

#[test]
fn new_starts_with_empty_state() {
    let idx = PatchFeedIndex::new("linux-kernel".to_string()).unwrap();
    assert_eq!("linux-kernel", idx.target_list());
    assert_eq!(0, idx.next_offset());
    assert!(idx.representative_patch_ids().is_empty());
}

#[test]
fn process_feed_page_extracts_representative_patch() {
    let mut idx = PatchFeedIndex::new("some-list".to_string()).unwrap();
    idx.process_feed_page(sample_1());

    assert_eq!(1, idx.representative_patch_ids().len());
    let id = &idx.representative_patch_ids()[0];
    assert!(id.contains("1234.567-1-john@johnson.com"));
    let patch = idx.get_patch(id).unwrap();
    assert_eq!("some/subsystem: Do this and that", patch.title());
    assert_eq!(1, patch.version());
}

#[test]
fn process_feed_page_extracts_multiple_representative_patches() {
    let mut idx = PatchFeedIndex::new("some-list".to_string()).unwrap();
    idx.process_feed_page(sample_2());
    assert_eq!(3, idx.representative_patch_ids().len());
    assert!(idx.representative_patch_ids()[0].contains("1234.567-0-roberto@silva.br"));
    assert_eq!(LIMA, idx.representative_patch_ids()[1]);
    assert_eq!(JOHN, idx.representative_patch_ids()[2]);
}

#[test]
fn process_feed_page_deduplicates() {
    let mut idx = PatchFeedIndex::new("some-list".to_string()).unwrap();
    idx.process_feed_page(sample_1());
    idx.process_feed_page(sample_1());
    assert_eq!(1, idx.representative_patch_ids().len());
}

#[test]
fn advance_offset_increments_by_page_size() {
    let mut idx = PatchFeedIndex::new("list".to_string()).unwrap();
    assert_eq!(0, idx.next_offset());
    idx.advance_offset();
    assert_eq!(200, idx.next_offset());
    idx.advance_offset();
    assert_eq!(400, idx.next_offset());
}

#[test]
fn get_page_returns_none_when_empty() {
    let idx = PatchFeedIndex::new("list".to_string()).unwrap();
    assert!(idx.get_page(10, 1).is_none());
}

#[test]
fn get_page_returns_correct_patches() {
    let mut idx = PatchFeedIndex::new("some-list".to_string()).unwrap();
    idx.process_feed_page(sample_2());

    let page = idx.get_page(2, 1).unwrap();
    assert_eq!(2, page.len());

    let page2 = idx.get_page(2, 2).unwrap();
    assert_eq!(1, page2.len());
    assert_eq!(JOHN, page2[0].message_id().href);

    assert!(idx.get_page(2, 3).is_none());
}

#[test]
fn a_first_patch_of_another_version_than_its_cover_is_representative() {
    let mut idx = PatchFeedIndex::new("l".to_string()).unwrap();
    idx.process_feed_page(PatchFeed::new(vec![
        entry("[PATCH v1 0/2] cover", "c", None),
        entry("[PATCH v2 1/2] first", "p", Some("c")),
    ]));
    assert_eq!(vec!["c".to_string(), "p".to_string()], *idx.representative_patch_ids());
    assert!(idx.try_process_feed_page(PatchFeed::new(vec![entry("[PATCH] x", "q", None)])));
    assert!(!idx.try_process_feed_page(PatchFeed::new(vec![entry(
        "[PATCH 99999999999999999999999/2] y",
        "r",
        None
    )])));
}

// ───────────────────────────── the patchset fetcher ─────────────────────────────

const CACHE_DIR: &str = "/cache";
const MESSAGE_ID: &str = "https://lore.kernel.org/linux-kernel/1234.567-1-john@johnson.com/";
const CACHED_FILE: &str = "/cache/linux-kernel.1234.567-1-john@johnson.com.mbx";

/// Paths that exist, shared with the fake shell so that `b4` can add one.
#[derive(Clone, Default)]
struct SharedFs {
    paths: Rc<RefCell<BTreeSet<String>>>,
}

impl SharedFs {
    fn with(paths: &[&str]) -> Self {
        let fs = SharedFs::default();
        for p in paths {
            fs.paths.borrow_mut().insert(p.to_string());
        }
        fs
    }
}

impl FileSystemTrait for SharedFs {
    fn is_file(&self, path: &str) -> bool {
        self.paths.borrow().contains(path)
    }

    fn is_dir(&self, path: &str) -> bool {
        self.paths.borrow().contains(path)
    }

    fn path_exists(&self, path: &str) -> bool {
        self.paths.borrow().contains(path)
    }

    fn read_to_string(&self, _path: &str) -> Option<String> {
        None
    }

    fn read_dir(&self, _path: &str) -> Option<Vec<String>> {
        None
    }

    fn modified(&self, _path: &str) -> Option<u64> {
        None
    }

    fn create_dir_all(&self, path: &str) -> Result<(), String> {
        self.paths.borrow_mut().insert(path.to_string());
        Ok(())
    }

    fn write(&self, _path: &str, _contents: &[u8]) -> Result<(), String> {
        Err("read-only".to_string())
    }

    fn rename(&self, _from: &str, _to: &str) -> Result<(), String> {
        Err("read-only".to_string())
    }
}

/// A shell whose `b4` creates `creates` (when set) and records each call.
struct B4Shell {
    fs: SharedFs,
    creates: Option<String>,
    runs: bool,
    calls: RefCell<Vec<ShellCommand>>,
}

impl ShellTrait for B4Shell {
    fn execute(&self, cmd: &ShellCommand) -> Option<ShellOutput> {
        self.calls
            .borrow_mut()
            .push(ShellCommand { program: cmd.program.clone(), args: cmd.args.clone() });
        if !self.runs {
            return None;
        }
        if let Some(p) = &self.creates {
            self.fs.paths.borrow_mut().insert(p.clone());
        }
        Some(ShellOutput { stdout: vec![], stderr: vec![], success: true })
    }

    fn execute_with_stdin(&self, cmd: &ShellCommand, _stdin: &[u8]) -> Option<ShellOutput> {
        self.execute(cmd)
    }
}

fn patch_with_message_id(message_id: &str) -> Patch {
    Patch::from_parts(
        "some/subsystem: Do this".to_string(),
        1,
        1,
        1,
        Author { name: "John".to_string(), email: "j@j.com".to_string() },
        MessageID { href: message_id.to_string() },
        None,
        "2024-01-01T00:00:00Z".to_string(),
    )
}

#[test]
fn download_skips_b4_when_file_already_exists() {
    let patch = patch_with_message_id(MESSAGE_ID);
    let fs = SharedFs::with(&[CACHE_DIR, CACHED_FILE]);
    let shell = B4Shell { fs: fs.clone(), creates: None, runs: true, calls: RefCell::new(vec![]) };
    let fetcher = B4PatchsetFetcher::new(shell, fs, CACHE_DIR.to_string());

    let result = fetcher.download(&patch);
    assert_eq!(Ok(CACHED_FILE.to_string()), result);
}

#[test]
fn download_calls_b4_when_file_missing_then_returns_path() {
    let patch = patch_with_message_id(MESSAGE_ID);
    let fs = SharedFs::with(&[CACHE_DIR]);
    let shell = B4Shell {
        fs: fs.clone(),
        creates: Some(CACHED_FILE.to_string()),
        runs: true,
        calls: RefCell::new(vec![]),
    };
    let fetcher = B4PatchsetFetcher::new(shell, fs, CACHE_DIR.to_string());

    let result = fetcher.download(&patch);
    assert_eq!(Ok(CACHED_FILE.to_string()), result);
}

#[test]
fn download_returns_error_when_b4_fails() {
    let patch = patch_with_message_id(MESSAGE_ID);
    let fs = SharedFs::with(&[CACHE_DIR]);
    let shell = B4Shell { fs: fs.clone(), creates: None, runs: false, calls: RefCell::new(vec![]) };
    let fetcher = B4PatchsetFetcher::new(shell, fs, CACHE_DIR.to_string());

    let result = fetcher.download(&patch);
    assert!(matches!(result, Err(PatchFetchError::NotFound(_))));
}

#[test]
fn b4_is_asked_for_the_patch_version_and_mbox_name() {
    let mut patch = patch_with_message_id(MESSAGE_ID);
    patch = Patch::from_parts(
        patch.title().clone(),
        3,
        1,
        1,
        patch.author().clone(),
        patch.message_id().clone(),
        None,
        patch.updated().clone(),
    );
    let fs = SharedFs::with(&[]);
    let shell = B4Shell { fs: fs.clone(), creates: None, runs: true, calls: RefCell::new(vec![]) };
    let fetcher = B4PatchsetFetcher::new(shell, fs, CACHE_DIR.to_string());
    let result = fetcher.fetch(&patch);
    assert_eq!(
        Err(PatchFetchError::NotFound("b4 couldn't fetch patchset file.".to_string())),
        result
    );
    assert_eq!(
        "patchset not found: b4 couldn't fetch patchset file.",
        result.unwrap_err().message()
    );
}

#[test]
fn mbox_names_drop_lore_and_turn_slashes_into_dots() {
    assert_eq!(
        "linux-kernel.1234.567-1-john@johnson.com.mbx",
        extract_mbox_name_from_message_id(MESSAGE_ID)
    );
    assert_eq!("a.b.mbx", extract_mbox_name_from_message_id("http://lore.kernel.org/a/b"));
}

// ───────────────────────────── the service ─────────────────────────────

struct Lists {
    pages: Vec<String>,
}

impl ListsGateway for Lists {
    fn fetch_available_lists_page(&self, offset: usize) -> Result<String, LoreHttpError> {
        Ok(self.pages.get(offset / 200).cloned().unwrap_or_default())
    }
}

struct Feed {
    list: String,
    pages: Vec<String>,
}

impl FeedGateway for Feed {
    fn fetch_patch_feed_page(
        &self,
        target_list: &str,
        offset: usize,
    ) -> Result<String, LoreHttpError> {
        if target_list != self.list {
            return Err(LoreHttpError::Net(format!("unknown list {target_list}")));
        }
        match self.pages.get(offset / 200) {
            Some(p) => Ok(p.clone()),
            None => Err(LoreHttpError::EndOfFeed),
        }
    }
}

struct NoHtml;

impl PatchHtmlGateway for NoHtml {
    fn fetch_patch_html(&self, _l: &str, _m: &str) -> Result<String, LoreHttpError> {
        Err(LoreHttpError::Net("offline".to_string()))
    }
}

#[derive(Default)]
struct Store {
    lists: Vec<MailingList>,
    saved: Rc<RefCell<Vec<MailingList>>>,
}

impl LorePersistence for Store {
    fn load_available_lists(&self) -> Result<Vec<MailingList>, String> {
        Ok(self.lists.clone())
    }

    fn save_available_lists(&self, lists: &[MailingList]) -> Result<(), String> {
        *self.saved.borrow_mut() = lists.to_vec();
        Ok(())
    }

    fn load_bookmarked_patchsets(&self) -> Result<Vec<Patch>, String> {
        Err("no bookmarks".to_string())
    }

    fn save_bookmarked_patchsets(&self, _patchsets: &[Patch]) -> Result<(), String> {
        Ok(())
    }

    fn load_reviewed_patchsets(&self) -> Result<Vec<(String, Vec<usize>)>, String> {
        Ok(vec![("id".to_string(), vec![1, 2])])
    }

    fn save_reviewed_patchsets(&self, _reviewed: &[(String, Vec<usize>)]) -> Result<(), String> {
        Ok(())
    }
}

struct NoFetch;

impl PatchsetFetcher for NoFetch {
    fn download(&self, _patch: &Patch) -> Result<String, PatchFetchError> {
        Err(PatchFetchError::NotFound("offline".to_string()))
    }
}

struct NoSplit;

impl PatchsetParser for NoSplit {
    fn split_patchset(&self, _path: &str) -> Result<Vec<String>, String> {
        Err("nothing".to_string())
    }
}

/// Feed bodies named after the samples above.
struct SampleFeeds;

impl FeedParser for SampleFeeds {
    fn parse_patch_feed(&self, xml: &str) -> Result<PatchFeed, String> {
        match xml {
            "sample-1" => Ok(sample_1()),
            "sample-2" => Ok(sample_2()),
            _ => Err(format!("bad feed {xml}")),
        }
    }
}

struct NoShell;

impl ShellTrait for NoShell {
    fn execute(&self, _cmd: &ShellCommand) -> Option<ShellOutput> {
        None
    }

    fn execute_with_stdin(&self, _cmd: &ShellCommand, _stdin: &[u8]) -> Option<ShellOutput> {
        None
    }
}

type Svc = LoreService<Lists, Feed, NoHtml, Store, NoFetch, NoSplit, SampleFeeds, SharedFs, NoShell>;

fn service(lists: Vec<String>, feed: Vec<&str>, store: Store) -> Svc {
    LoreService::new(
        Lists { pages: lists },
        Feed { list: "some-list".to_string(), pages: feed.iter().map(|s| s.to_string()).collect() },
        NoHtml,
        store,
        NoFetch,
        NoSplit,
        SampleFeeds,
        SharedFs::default(),
        NoShell,
    )
}

#[test]
fn load_available_lists_delegates_to_persistence() {
    let store = Store { lists: vec![MailingList::new("linux-mm", "desc")], ..Store::default() };
    let svc = service(vec![], vec![], store);

    let result = svc.load_available_lists().unwrap();
    assert_eq!(1, result.len());
    assert_eq!("linux-mm", result[0].name());
}

fn lists_page(names: &[&str]) -> String {
    let mut html = String::from("<html><pre>head</pre><pre>nav</pre><pre>");
    for n in names {
        html.push_str(&format!("* <a\nhref=\"{n}/\">{n}</a>\n  Description of {n}\n"));
    }
    html.push_str("* end</pre></html>");
    html
}

#[test]
fn refresh_available_lists_paginates_and_sorts() {
    let pages =
        vec![lists_page(&["zeta", "alpha", "all"]), lists_page(&["mid"]), lists_page(&[])];
    let store = Store::default();
    let saved = store.saved.clone();
    let svc = service(pages, vec![], store);
    let lists = svc.refresh_available_lists().unwrap();
    let names: Vec<&str> = lists.iter().map(|l| l.get_name()).collect();
    assert_eq!(vec!["alpha", "mid", "zeta"], names);
    assert_eq!("Description of mid", lists[1].get_description());
    assert_eq!(lists, *saved.borrow());
}

#[test]
fn fetch_next_patch_page_returns_patches() {
    let mut svc = service(vec![], vec!["sample-1"], Store::default());
    let patches = svc.fetch_next_patch_page("some-list", 1, 1).unwrap();
    assert_eq!(1, patches.len());
    assert!(patches[0].message_id().href.contains("1234.567-1-john@johnson.com"));
}

#[test]
fn fetch_next_patch_page_returns_end_of_feed() {
    let mut svc = service(vec![], vec![], Store::default());
    let result = svc.fetch_next_patch_page("some-list", 1, 1);
    assert!(matches!(result, Err(LoreError::EndOfFeed)));
}

#[test]
fn fetch_next_patch_page_reads_more_feed_pages_when_needed() {
    let mut svc = service(vec![], vec!["sample-1", "sample-2"], Store::default());
    let page = svc.fetch_next_patch_page("some-list", 2, 1).unwrap();
    assert_eq!(2, page.len());
    assert_eq!(JOHN, page[0].message_id().href);
    let page2 = svc.fetch_next_patch_page("some-list", 2, 2).unwrap();
    assert_eq!(1, page2.len());
    assert_eq!(LIMA, page2[0].message_id().href);
}

#[test]
fn fetch_next_patch_page_reports_gateway_and_parse_errors() {
    let mut svc = service(vec![], vec!["garbage"], Store::default());
    assert_eq!(
        Err(LoreError::Parse("bad feed garbage".to_string())),
        svc.fetch_next_patch_page("some-list", 1, 1)
    );
    assert!(matches!(
        svc.fetch_next_patch_page("other-list", 1, 1),
        Err(LoreError::Http(LoreHttpError::Net(_)))
    ));
}

#[test]
fn reset_feed_cursor_clears_index() {
    let mut svc = service(vec![], vec!["sample-1"], Store::default());
    svc.fetch_next_patch_page("some-list", 1, 1).unwrap();
    svc.reset_feed_cursor("some-list");
    let again = svc.fetch_next_patch_page("some-list", 1, 1).unwrap();
    assert_eq!(1, again.len());
}

#[test]
fn user_state_errors_are_persistence_errors() {
    let mut svc = service(vec![], vec![], Store::default());
    assert_eq!(
        Err(LoreError::Persistence("no bookmarks".to_string())),
        svc.load_bookmarked_patchsets()
    );
    assert_eq!(Ok(vec![("id".to_string(), vec![1, 2])]), svc.load_reviewed_patchsets());
    let boot = svc.warm_bootstrap_cache().unwrap();
    assert!(boot.bookmarks.is_empty());
    assert_eq!(1, boot.reviewed.len());
    assert!(svc.fetch_available_lists(CacheMode::UseCache).unwrap().is_empty());
}

#[test]
fn details_fail_when_the_download_fails() {
    let svc = service(vec![], vec![], Store::default());
    let r = svc.fetch_patchset_details(&entry("[PATCH] x", "x", None));
    assert_eq!(
        Err(LoreError::PatchNotFound("patchset not found: offline".to_string())),
        r.map(|_| ())
    );
}

/// Drives a service through the trait the user interface sees.
fn first_page_through_the_api<A: LoreServiceApi>(api: &mut A) -> Result<Vec<Patch>, LoreError> {
    api.reset_feed_cursor("some-list");
    api.fetch_next_patch_page("some-list", 10, 1)
}

#[test]
fn the_service_answers_through_its_api() {
    let mut svc = service(vec![], vec!["sample-2"], Store::default());
    let page = first_page_through_the_api(&mut svc).unwrap();
    assert_eq!(3, page.len());
    assert_eq!(JOHN, page[2].message_id().href);
    assert!(LoreServiceApi::warm_bootstrap_cache(&mut svc).is_ok());
    assert_eq!((String::new(), String::new()), svc.get_git_signature("/repo"));
}

#[test]
fn a_refresh_is_served_from_memory_afterwards() {
    let pages = vec![lists_page(&["beta", "alpha"]), lists_page(&[])];
    let store = Store { lists: vec![MailingList::new("on-disk", "d")], ..Store::default() };
    let mut svc = service(pages, vec![], store);

    let before = svc.fetch_available_lists(CacheMode::UseCache).unwrap();
    assert_eq!(vec!["on-disk"], before.iter().map(|l| l.get_name()).collect::<Vec<_>>());

    let refreshed = svc.fetch_available_lists(CacheMode::Refresh).unwrap();
    assert_eq!(vec!["alpha", "beta"], refreshed.iter().map(|l| l.get_name()).collect::<Vec<_>>());

    let cached = svc.fetch_available_lists(CacheMode::UseCache).unwrap();
    assert_eq!(refreshed, cached);
}
