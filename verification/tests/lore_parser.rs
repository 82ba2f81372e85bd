use std::collections::{BTreeMap, BTreeSet};

use patch_hub::infra::{FileSystemTrait, ShellCommand};
use patch_hub::lore::infrastructure::patchset_parser::{
    extract_git_reply_command, extract_patches, generate_reply_template, split_cover,
    MboxPatchsetParser, PatchsetParser,
};
use patch_hub::lore_session::split_patchset;
use patch_hub::mailing_list::{sort_mailing_lists, MailingList};

#[derive(Default, Clone)]
struct MemFs {
    files: BTreeMap<String, String>,
    dirs: BTreeSet<String>,
    unreadable: BTreeSet<String>,
}

impl MemFs {
    fn file(mut self, path: &str, content: &str) -> Self {
        self.files.insert(path.to_string(), content.to_string());
        self
    }

    fn dir(mut self, path: &str) -> Self {
        self.dirs.insert(path.to_string());
        self
    }

    fn unreadable(mut self, path: &str) -> Self {
        self.files.insert(path.to_string(), String::new());
        self.unreadable.insert(path.to_string());
        self
    }
}

impl FileSystemTrait for MemFs {
    fn is_file(&self, path: &str) -> bool {
        self.files.contains_key(path)
    }

    fn is_dir(&self, path: &str) -> bool {
        self.dirs.contains(path)
    }

    fn path_exists(&self, path: &str) -> bool {
        self.is_file(path) || self.is_dir(path)
    }

    fn read_to_string(&self, path: &str) -> Option<String> {
        if self.unreadable.contains(path) {
            None
        } else {
            self.files.get(path).cloned()
        }
    }

    fn read_dir(&self, _path: &str) -> Option<Vec<String>> {
        None
    }

    fn modified(&self, _path: &str) -> Option<u64> {
        None
    }

    fn create_dir_all(&self, _path: &str) -> Result<(), String> {
        Ok(())
    }

    fn write(&self, _path: &str, _contents: &[u8]) -> Result<(), String> {
        Ok(())
    }

    fn rename(&self, _from: &str, _to: &str) -> Result<(), String> {
        Err("read-only".to_string())
    }
}

const SEP: &str = "From git@z Thu Jan  1 00:00:00 1970";

fn mbox_message(subject: &str, body: &str) -> String {
    format!("{SEP}\nSubject: {subject}\nFrom: A <a@b.c>\n\n{body}\n")
}

fn parser(fs: MemFs) -> MboxPatchsetParser<MemFs> {
    MboxPatchsetParser::new(fs)
}

#[test]
fn split_patchset_returns_error_on_missing_path() {
    let ret = parser(MemFs::default()).split_patchset("invalid/path");
    assert_eq!(Err("invalid/path: Path doesn't exist".to_string()), ret);
}

#[test]
fn split_patchset_returns_error_on_directory() {
    let path = "test_samples/lore_session/split_patchset/not_a_file";
    let ret = parser(MemFs::default().dir(path)).split_patchset(path);
    assert_eq!(
        Err("test_samples/lore_session/split_patchset/not_a_file: Not a file".to_string()),
        ret
    );
}

#[test]
fn test_split_patchset_invalid_cases() {
    let not_a_file = "src/test_samples/lore_session/split_patchset/not_a_file";
    let fs = MemFs::default().dir(not_a_file);
    assert_eq!(
        Err("invalid/path: Path doesn't exist".to_string()),
        split_patchset(&fs, "invalid/path")
    );
    assert_eq!(
        Err("src/test_samples/lore_session/split_patchset/not_a_file: Not a file".to_string()),
        split_patchset(&fs, not_a_file)
    );
}

#[test]
fn split_patchset_reads_cover_letter_first() {
    let mbox = format!(
        "{}{}",
        mbox_message("[PATCH 1/2] a", "one\n---\n diff\n--\n2.40.0"),
        mbox_message("[PATCH 2/2] b", "two\n--\n2.40.0")
    );
    let cover = mbox_message("[PATCH 0/2] cover", "intro\n--\n2.40.0");
    let fs = MemFs::default().file("/p/set.mbx", &mbox).file("/p/set.cover", &cover);
    let patches = parser(fs).split_patchset("/p/set.mbx").unwrap();
    assert_eq!(3, patches.len());
    assert!(patches[0].starts_with("Subject: [PATCH 0/2] cover\n"));
    assert!(patches[1].starts_with("Subject: [PATCH 1/2] a\n"));
    assert!(patches[2].starts_with("Subject: [PATCH 2/2] b\n"));
    assert!(patches[2].ends_with("--\n2.40.0\n"));
}

#[test]
fn split_patchset_reports_unreadable_files() {
    let fs = MemFs::default().unreadable("/p/set.mbx");
    assert_eq!(
        Err("/p/set.mbx: Could not be read".to_string()),
        split_patchset(&fs, "/p/set.mbx")
    );
    let fs = MemFs::default().file("/p/set.mbx", "").unreadable("/p/set.cover");
    assert_eq!(
        Err("/p/set.cover: Could not be read".to_string()),
        split_patchset(&fs, "/p/set.mbx")
    );
}

#[test]
fn extract_patches_follows_the_mbox_layout() {
    let text = format!(
        "{}{}",
        mbox_message("first", "body 1\n--\n2.40.0"),
        mbox_message("second", "body 2")
    );
    let patches = extract_patches(&text);
    assert_eq!(
        vec![
            "Subject: first\nFrom: A <a@b.c>\n\nbody 1\n--\n2.40.0\n".to_string(),
            format!("Subject: second\nFrom: A <a@b.c>\n\nbody 2\n"),
        ],
        patches
    );
    assert!(extract_patches("no subject here\n").is_empty());
}

#[test]
fn extract_patches_ends_a_patch_at_the_next_separator() {
    let text = format!("Subject: a\nx\n{SEP}\nSubject: b\ny\n");
    assert_eq!(
        vec!["Subject: a\nx\n".to_string(), "Subject: b\ny\n".to_string()],
        extract_patches(&text)
    );
}

#[test]
fn split_cover_finds_separator() {
    let raw = "Subject: test\nTo: list\n\nBody text.\n---\ndiff --git a/foo b/foo";
    let (cover, diff) = split_cover(raw);
    assert!(cover.contains("Body text."));
    assert!(diff.contains("diff --git"));
    assert_eq!("Subject: test\nTo: list\n\nBody text.\n---\n", cover);
    assert_eq!("diff --git a/foo b/foo", diff);
}

#[test]
fn split_cover_returns_full_patch_when_no_separator() {
    let raw = "Subject: no diff here\nBody only.";
    let (cover, diff) = split_cover(raw);
    assert_eq!(raw, cover);
    assert!(diff.is_empty());
}

#[test]
fn generate_reply_template_quotes_the_body() {
    let patch = "From: Foo <foo@bar>\nDate: today\nMessage-Id: <x@y>\nSubject: [PATCH] fix\nTo: list\n\nline one\n\nline two\n";
    assert_eq!(
        "Subject: Re: [PATCH] fix\nTo: list\n\n> line one\n> \n> line two\n",
        generate_reply_template(patch)
    );
    assert_eq!("", generate_reply_template(""));
}

#[test]
fn extract_git_reply_command_parses_lore_html() {
    let html = "<pre>  git send-email \\\n    --in-reply-to=1234.567-3-john@johnson.com \\\n    \
                --to=foo@bar.com \\\n    --cc=bar@foo.com \\\n    --cc=foo@list.org \\\n    \
                --cc=bar@list.org \\\n    /path/to/YOUR_REPLY</pre>";
    let html = format!("git-send-email(1):{html}");
    let result =
        extract_git_reply_command(&html, "--dry-run --suppress-cc=all", "/tmp/some-reply.mbx")
            .unwrap();
    let expected = ShellCommand {
        program: "git".to_string(),
        args: vec![
            "send-email".to_string(),
            "--dry-run".to_string(),
            "--suppress-cc=all".to_string(),
            "--in-reply-to=1234.567-3-john@johnson.com".to_string(),
            "--to=foo@bar.com".to_string(),
            "--cc=bar@foo.com".to_string(),
            "--cc=foo@list.org".to_string(),
            "--cc=bar@list.org".to_string(),
            "/tmp/some-reply.mbx".to_string(),
        ],
    };
    assert_eq!(expected, result);
}

#[test]
fn extract_git_reply_command_without_suggestion_keeps_user_options() {
    let result = extract_git_reply_command("<html/>", "", "/r.mbx").unwrap();
    assert_eq!("git", result.program);
    assert_eq!(vec!["send-email".to_string(), "/r.mbx".to_string()], result.args);
}

#[test]
fn should_sort_mailing_list_vec() {
    let mut mailing_list_vec = vec![
        MailingList::new("deref", "description"),
        MailingList::new("unit", "description"),
        MailingList::new("closure", "description"),
        MailingList::new("owner", "description"),
        MailingList::new("borrow", "description"),
    ];
    let mailing_list_vec_for_cmp = mailing_list_vec.clone();
    sort_mailing_lists(&mut mailing_list_vec);

    assert_eq!(mailing_list_vec_for_cmp[4], mailing_list_vec[0], "Wrong mailing list at index 0");
    assert_eq!(mailing_list_vec_for_cmp[2], mailing_list_vec[1], "Wrong mailing list at index 1");
    assert_eq!(mailing_list_vec_for_cmp[0], mailing_list_vec[2], "Wrong mailing list at index 2");
    assert_eq!(mailing_list_vec_for_cmp[3], mailing_list_vec[3], "Wrong mailing list at index 3");
    assert_eq!(mailing_list_vec_for_cmp[1], mailing_list_vec[4], "Wrong mailing list at index 4");
}

#[test]
fn sorting_keeps_lists_of_equal_name_in_order() {
    let mut lists = vec![
        MailingList::new("b", "first"),
        MailingList::new("a", "x"),
        MailingList::new("b", "second"),
    ];
    sort_mailing_lists(&mut lists);
    assert_eq!("a", lists[0].get_name());
    assert_eq!("first", lists[1].get_description());
    assert_eq!("second", lists[2].get_description());
}
