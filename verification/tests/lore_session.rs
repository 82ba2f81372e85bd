use std::cell::RefCell;
use std::collections::BTreeMap;

use patch_hub::infra::{FileSystemTrait, ShellCommand, ShellOutput, ShellTrait};
use patch_hub::lore_api_client::{
    AvailableListsRequest, ClientError, PatchFeedRequest, PatchHTMLRequest,
};
use patch_hub::lore_session::{
    download_patchset, fetch_available_lists, get_git_signature,
    prepare_reply_patchset_with_reviewed_by, FailedFeedRequest, LoreSession, PatchFeedDecoder,
    PrepareReplyError,
};
use patch_hub::patch::{Author, MessageID, Patch, PatchFeed};

fn entry(title: &str, href: &str, in_reply_to: Option<&str>) -> Patch {
    Patch::new(
        title.to_string(),
        Author { name: "John Johnson".to_string(), email: "john@johnson.com".to_string() },
        MessageID { href: href.to_string() },
        in_reply_to.map(|h| MessageID { href: h.to_string() }),
        "2024-07-06T19:15:48Z".to_string(),
    )
}

const JOHN: &str = "http://lore.kernel.org/some-subsystem/1234.567-1-john@johnson.com/";
const ROBERTO: &str = "http://lore.kernel.org/some-subsystem/1234.567-1-roberto@silva.br/";
const LIMA: &str = "http://lore.kernel.org/some-subsystem/first-patch-lima@luma.rs/";

/// Answers every feed request with the same body.
struct FakeLoreAPIClient {
    body: String,
    requests: RefCell<Vec<(String, usize)>>,
}

impl FakeLoreAPIClient {
    fn new(body: &str) -> Self {
        FakeLoreAPIClient { body: body.to_string(), requests: RefCell::new(vec![]) }
    }
}

impl PatchFeedRequest for FakeLoreAPIClient {
    fn request_patch_feed(&self, target_list: &str, min_index: usize) -> Result<String, ClientError> {
        self.requests.borrow_mut().push((target_list.to_string(), min_index));
        Ok(self.body.clone())
    }
}

/// Feeds named by their body.
struct Samples;

impl PatchFeedDecoder for Samples {
    fn decode_patch_feed(&self, xml: &str) -> Result<PatchFeed, String> {
        match xml {
            "sample-1" => Ok(PatchFeed::new(vec![
                entry("[PATCH 0/2] some/subsystem: Do this and that", JOHN, None),
                entry(
                    "[PATCH 1/2] some/subsystem: Do this",
                    "http://lore.kernel.org/some-subsystem/1234.567-2-john@johnson.com/",
                    Some(JOHN),
                ),
                entry(
                    "[PATCH 2/2] some/subsystem: Do that",
                    "http://lore.kernel.org/some-subsystem/1234.567-3-john@johnson.com/",
                    Some(JOHN),
                ),
            ])),
            "sample-2" => Ok(PatchFeed::new(vec![
                entry("[PATCH 1/2] roberto: first", ROBERTO, None),
                entry(
                    "[PATCH 2/2] roberto: second",
                    "http://lore.kernel.org/some-subsystem/1234.567-2-roberto@silva.br/",
                    Some(ROBERTO),
                ),
                entry("[PATCH] lima: only", LIMA, None),
                entry("[RFC PATCH v2] john: idea", JOHN, None),
            ])),
            "too-big" => Ok(PatchFeed::new(vec![entry("[PATCH v4294967296] x", "x", None)])),
            _ => Err("not a feed".to_string()),
        }
    }
}

#[test]
fn can_initialize_fresh_lore_session() {
    let lore_session = LoreSession::new("some-list".to_string()).unwrap();
    assert!(
        lore_session.get_representative_patches_ids().is_empty(),
        "`LoreSession` should initialize with an empty vector of representative patches IDs"
    );
}

#[test]
fn should_process_one_representative_patch() {
    let mut lore_session = LoreSession::new("some-list".to_string()).unwrap();
    let lore_api_client = FakeLoreAPIClient::new("sample-1");
    let message_id: &str = JOHN;

    if lore_session.process_n_representative_patches(&lore_api_client, &Samples, 1).is_ok() {};

    assert_eq!(
        1,
        lore_session.get_representative_patches_ids().len(),
        "Should have processed exactly 1 representative patches, but processed {}",
        lore_session.get_representative_patches_ids().len()
    );
    assert_eq!(
        message_id,
        lore_session.get_representative_patches_ids().first().unwrap(),
        "Wrong representative patch message ID"
    );

    let patch: Patch = lore_session.get_processed_patch(message_id).unwrap();
    assert_eq!("some/subsystem: Do this and that", patch.get_title(), "Wrong title of processed patch");
    assert_eq!(
        &Author { name: "John Johnson".to_string(), email: "john@johnson.com".to_string() },
        patch.get_author(),
        "Wrong author of processed patch"
    );
    assert_eq!(1, patch.get_version(), "Wrong version of processed patch");
    assert_eq!(0, patch.get_number_in_series(), "Wrong number in series of processed patch");
    assert_eq!(2, patch.get_total_in_series(), "Wrong total in series of processed patch");
}

#[test]
fn should_process_multiple_representative_patches() {
    let mut lore_session = LoreSession::new("some-list".to_string()).unwrap();
    let lore_api_client = FakeLoreAPIClient::new("sample-2");
    let message_id_1: &str = ROBERTO;
    let message_id_2: &str = LIMA;
    let message_id_3: &str = JOHN;

    if lore_session.process_n_representative_patches(&lore_api_client, &Samples, 3).is_ok() {};

    assert_eq!(
        3,
        lore_session.get_representative_patches_ids().len(),
        "Should have processed exactly 3 representative patches, but processed {}",
        lore_session.get_representative_patches_ids().len()
    );
    assert_eq!(message_id_1, lore_session.get_representative_patches_ids()[0]);
    assert_eq!(message_id_2, lore_session.get_representative_patches_ids()[1]);
    assert_eq!(message_id_3, lore_session.get_representative_patches_ids()[2]);
    assert_eq!(vec![("some-list".to_string(), 0)], *lore_api_client.requests.borrow());
}

#[test]
fn session_pages_forward_until_enough_representatives() {
    let mut s = LoreSession::new("l".to_string()).unwrap();
    let one_page = FakeLoreAPIClient::new("sample-2");
    assert_eq!(Ok(()), s.process_n_representative_patches(&one_page, &Samples, 2));
    assert_eq!(Ok(()), s.process_n_representative_patches(&one_page, &Samples, 3));
    assert_eq!(3, s.get_representative_patches_ids().len());
    assert_eq!(vec![("l".to_string(), 0)], *one_page.requests.borrow());
}

#[test]
fn session_reports_why_it_stopped() {
    let mut s = LoreSession::new("l".to_string()).unwrap();
    assert_eq!(
        Err(FailedFeedRequest::Malformed("not a feed".to_string())),
        s.process_n_representative_patches(&FakeLoreAPIClient::new("junk"), &Samples, 1)
    );
    assert_eq!(
        Err(FailedFeedRequest::NumberTooLarge),
        s.process_n_representative_patches(&FakeLoreAPIClient::new("too-big"), &Samples, 1)
    );
    assert!(s.get_representative_patches_ids().is_empty());
    assert!(s.get_processed_patch("x").is_none());
}

#[test]
fn session_pages_stop_before_the_last_representative() {
    let mut s = LoreSession::new("l".to_string()).unwrap();
    s.process_n_representative_patches(&FakeLoreAPIClient::new("sample-2"), &Samples, 3).unwrap();
    let page = s.get_patch_feed_page(2, 1).unwrap();
    assert_eq!(2, page.len());
    assert_eq!(ROBERTO, page[0].get_message_id().href);
    assert_eq!("roberto: first", page[0].get_title());
    assert!(s.get_patch_feed_page(2, 2).is_none());
    assert_eq!(1, s.get_patch_feed_page(1, 2).unwrap().len());
}

// ───────────────────────────── lists ─────────────────────────────

struct ListPages {
    pages: BTreeMap<usize, String>,
}

impl AvailableListsRequest for ListPages {
    fn request_available_lists(&self, min_index: usize) -> Result<String, ClientError> {
        match self.pages.get(&min_index) {
            Some(p) => Ok(p.clone()),
            None => panic!("Should not try other `min_index` other than `0`, `200`, and `400`"),
        }
    }
}

fn lists_page(lists: &[(String, String)]) -> String {
    let mut html = String::from("<html><pre>head</pre><pre>nav</pre><pre>");
    for (n, d) in lists {
        html.push_str(&format!("* <a\nhref=\"{n}/\">{n}</a>\n  {d}\n"));
    }
    html.push_str("* end</pre></html>");
    html
}

#[test]
fn should_fetch_all_available_lists() {
    let mut lists: Vec<(String, String)> = vec![
        ("yocto-toaster".to_string(), "Yocto Toaster".to_string()),
        ("linux-mediatek".to_string(), "Linux-mediatek Archive on lore.kernel.org".to_string()),
        ("accel-config".to_string(), "Accel-Config development".to_string()),
    ];
    for i in 0..158 {
        lists.push((format!("b-{i:03}"), format!("B {i}")));
    }
    for i in 0..159 {
        lists.push((format!("m-{i:03}"), format!("M {i}")));
    }
    let mut pages = BTreeMap::new();
    pages.insert(0, lists_page(&lists[..200]));
    pages.insert(200, lists_page(&lists[200..]));
    pages.insert(400, lists_page(&[]));
    let lore_api_client = ListPages { pages };
    let sorted_available_lists = fetch_available_lists(&lore_api_client).unwrap();

    assert_eq!("accel-config".to_string(), sorted_available_lists[0].get_name());
    assert_eq!("Accel-Config development".to_string(), sorted_available_lists[0].get_description());
    assert_eq!("linux-mediatek".to_string(), sorted_available_lists[159].get_name());
    assert_eq!(
        "Linux-mediatek Archive on lore.kernel.org".to_string(),
        sorted_available_lists[159].get_description()
    );
    assert_eq!("yocto-toaster".to_string(), sorted_available_lists[319].get_name());
    assert_eq!("Yocto Toaster".to_string(), sorted_available_lists[319].get_description());
    assert_eq!(320, sorted_available_lists.len());
}

// ───────────────────────────── replies and downloads ─────────────────────────────

#[derive(Default)]
struct WrittenFs {
    files: RefCell<BTreeMap<String, String>>,
    dirs: RefCell<Vec<String>>,
}

impl FileSystemTrait for WrittenFs {
    fn is_file(&self, path: &str) -> bool {
        self.files.borrow().contains_key(path)
    }

    fn is_dir(&self, path: &str) -> bool {
        self.dirs.borrow().iter().any(|d| d == path)
    }

    fn path_exists(&self, path: &str) -> bool {
        self.is_file(path) || self.is_dir(path)
    }

    fn read_to_string(&self, path: &str) -> Option<String> {
        self.files.borrow().get(path).cloned()
    }

    fn read_dir(&self, _path: &str) -> Option<Vec<String>> {
        None
    }

    fn modified(&self, _path: &str) -> Option<u64> {
        None
    }

    fn create_dir_all(&self, path: &str) -> Result<(), String> {
        self.dirs.borrow_mut().push(path.to_string());
        Ok(())
    }

    fn write(&self, path: &str, contents: &[u8]) -> Result<(), String> {
        self.files
            .borrow_mut()
            .insert(path.to_string(), String::from_utf8(contents.to_vec()).unwrap());
        Ok(())
    }

    fn rename(&self, from: &str, to: &str) -> Result<(), String> {
        let v = self.files.borrow_mut().remove(from).ok_or("missing")?;
        self.files.borrow_mut().insert(to.to_string(), v);
        Ok(())
    }
}

struct HtmlClient;

impl PatchHTMLRequest for HtmlClient {
    fn request_patch_html(&self, _target_list: &str, message_id: &str) -> Result<String, ClientError> {
        Ok(format!(
            "git-send-email(1): git send-email --in-reply-to={message_id} --to=foo@bar.foo.bar /path/to/YOUR_REPLY"
        ))
    }
}

fn raw_patch(i: usize) -> String {
    format!(
        "From: Foo <foo@bar.foo.bar>\nSubject: [PATCH {i}/3] x\nMessage-Id: <1234.567-{i}-foo@bar.foo.bar>\n\nbody {i}\n"
    )
}

#[test]
fn replies_are_written_and_sent_with_dry_run() {
    let fs = WrittenFs::default();
    let patches: Vec<String> = (0..=3).map(raw_patch).collect();
    let commands = prepare_reply_patchset_with_reviewed_by(
        &HtmlClient,
        &fs,
        "/tmp/replies",
        "all",
        &patches,
        "Bar Foo <bar@foo.bar.foo>",
    )
    .unwrap();
    assert_eq!(4, commands.len());
    for (i, c) in commands.iter().enumerate() {
        let expected = ShellCommand {
            program: "git".to_string(),
            args: vec![
                "send-email".to_string(),
                "--dry-run".to_string(),
                "--suppress-cc=all".to_string(),
                format!("--in-reply-to=1234.567-{i}-foo@bar.foo.bar"),
                "--to=foo@bar.foo.bar".to_string(),
                format!("/tmp/replies/1234.567-{i}-foo@bar.foo.bar-reply.mbx"),
            ],
        };
        assert_eq!(&expected, c);
    }
    assert_eq!(
        format!("Subject: Re: [PATCH 2/3] x\n\n> body 2\n\nReviewed-by: Bar Foo <bar@foo.bar.foo>\n"),
        fs.files.borrow()["/tmp/replies/1234.567-2-foo@bar.foo.bar-reply.mbx"]
    );
    assert_eq!(
        Err(PrepareReplyError::MissingMessageId),
        prepare_reply_patchset_with_reviewed_by(&HtmlClient, &fs, "/t", "all", &["x".to_string()], "s")
    );
}

struct RecordingShell {
    calls: RefCell<Vec<ShellCommand>>,
    out: Option<Vec<u8>>,
}

impl ShellTrait for RecordingShell {
    fn execute(&self, cmd: &ShellCommand) -> Option<ShellOutput> {
        self.calls
            .borrow_mut()
            .push(ShellCommand { program: cmd.program.clone(), args: cmd.args.clone() });
        self.out.clone().map(|o| ShellOutput { stdout: o, stderr: vec![], success: true })
    }

    fn execute_with_stdin(&self, cmd: &ShellCommand, _stdin: &[u8]) -> Option<ShellOutput> {
        self.execute(cmd)
    }
}

#[test]
fn download_creates_the_directory_and_asks_b4() {
    let fs = WrittenFs::default();
    let shell = RecordingShell { calls: RefCell::new(vec![]), out: Some(vec![]) };
    let p = Patch::from_parts(
        "x".to_string(),
        3,
        1,
        1,
        Author { name: String::new(), email: String::new() },
        MessageID { href: "https://lore.kernel.org/all/abc@d/".to_string() },
        None,
        String::new(),
    );
    assert_eq!(Ok("/out/all.abc@d.mbx".to_string()), download_patchset(&shell, &fs, "/out", &p));
    assert_eq!(vec!["/out".to_string()], *fs.dirs.borrow());
    let calls = shell.calls.borrow();
    assert_eq!("b4", calls[0].program);
    assert_eq!(
        vec!["--quiet", "am", "--use-version", "3", "https://lore.kernel.org/all/abc@d/", "--outdir", "/out", "--mbox-name", "all.abc@d.mbx"],
        calls[0].args
    );
    let no_b4 = RecordingShell { calls: RefCell::new(vec![]), out: None };
    assert!(download_patchset(&no_b4, &fs, "/out", &p).is_err());
}

#[test]
fn git_signature_reads_name_and_email() {
    let shell = RecordingShell { calls: RefCell::new(vec![]), out: Some(b"  Foo Bar \n".to_vec()) };
    assert_eq!(("Foo Bar".to_string(), "Foo Bar".to_string()), get_git_signature(&shell, "/repo"));
    let calls = shell.calls.borrow();
    assert_eq!(vec!["-C", "/repo", "config", "user.name"], calls[0].args);
    assert_eq!(vec!["-C", "/repo", "config", "user.email"], calls[1].args);
    let global = RecordingShell { calls: RefCell::new(vec![]), out: None };
    assert_eq!((String::new(), String::new()), get_git_signature(&global, ""));
    assert_eq!(vec!["config", "user.name"], global.calls.borrow()[0].args);
}
