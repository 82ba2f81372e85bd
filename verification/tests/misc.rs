use patch_hub::kw::errors::{KwError, KwStartError};
use patch_hub::logger::{
    collect_garbage, is_collectable, session_log_file_name, LogBuffer, LogLevel, LogMessage,
    LoggerInitError,
};
use patch_hub::lore::application::cache::{
    stale_verdict, CacheTtl, MailingListsCacheEntry, PatchsetCacheKey,
};
use patch_hub::lore::application::errors::LoreError;
use patch_hub::lore::domain::patch::{Author, MessageID, Patch};
use patch_hub::lore::infrastructure::http_lore_client::LoreHttpError;
use patch_hub::lore_response::LoreResponse;
use patch_hub::mailing_list::MailingList;
use patch_hub::model::screens::bookmarked::BookmarkedPatchsets;

fn patch(href: &str) -> Patch {
    Patch::from_parts(
        format!("title of {href}"),
        2,
        1,
        3,
        Author { name: "A".to_string(), email: "a@b".to_string() },
        MessageID { href: href.to_string() },
        None,
        "2024-01-01T00:00:00Z".to_string(),
    )
}

// ───────────────────────────── logger ─────────────────────────────

#[test]
fn log_lines_carry_level_and_timestamp() {
    let m = LogMessage::new(LogLevel::Warning, "12:00", "disk almost full");
    assert_eq!("[WARN] [12:00] disk almost full", m.line());
    assert_eq!(LogLevel::Warning, m.level());
    assert_eq!("INFO", LogLevel::default().name());
}

#[test]
fn buffer_keeps_messages_at_or_above_the_print_level() {
    let mut b = LogBuffer::new(LogLevel::Warning);
    assert!(!b.record(LogMessage::new(LogLevel::Info, "t", "i")));
    assert!(b.record(LogMessage::new(LogLevel::Warning, "t", "w")));
    assert!(b.record(LogMessage::new(LogLevel::Error, "t", "e")));
    assert_eq!(
        vec![
            "[WARN] [t] w".to_string(),
            "[ERROR] [t] e".to_string(),
            "Check the full log file: /l/a.log or /l/latest.log".to_string(),
        ],
        b.flush_lines("/l/a.log", "/l/latest.log")
    );
    assert!(LogLevel::Info.at_most(LogLevel::Error));
    assert!(!LogLevel::Error.at_most(LogLevel::Warning));
}

#[test]
fn garbage_collection_picks_old_session_logs_only() {
    let day = 86_400u64;
    let entries = vec![
        ("patch-hub_1.log".to_string(), Some(10 * day)),
        ("patch-hub_2.log".to_string(), Some(2 * day)),
        ("other.log".to_string(), Some(100 * day)),
        ("patch-hub_3.txt".to_string(), Some(100 * day)),
        ("patch-hub_4.log".to_string(), None),
        ("patch-hub_5.log".to_string(), Some(4 * day - 1)),
    ];
    assert_eq!(vec![0], collect_garbage(&entries, 3));
    assert!(collect_garbage(&entries, 0).is_empty());
    assert!(!is_collectable("patch-hub_5.log", Some(4 * day - 1), 3));
    assert!(is_collectable("patch-hub_5.log", Some(4 * day), 3));
    assert_eq!("patch-hub_2024.log", session_log_file_name("2024"));
    assert_eq!("bad path", LoggerInitError::PathErr("bad path".to_string()).message());
}

// ───────────────────────────── bookmarks ─────────────────────────────

#[test]
fn bookmarking_twice_keeps_one_bookmark() {
    let mut s = BookmarkedPatchsets { bookmarked_patchsets: vec![], patchset_index: 0 };
    s.bookmark_selected_patch(&patch("a"));
    s.bookmark_selected_patch(&patch("b"));
    s.bookmark_selected_patch(&patch("a"));
    assert_eq!(2, s.bookmarked_patchsets.len());
    s.unbookmark_selected_patch(&patch("a"));
    assert_eq!(1, s.bookmarked_patchsets.len());
    assert_eq!("b", s.get_selected_patchset().message_id().href);
    s.unbookmark_selected_patch(&patch("zzz"));
    assert_eq!(1, s.bookmarked_patchsets.len());
}

#[test]
fn selection_stays_within_the_bookmarks() {
    let mut s = BookmarkedPatchsets {
        bookmarked_patchsets: vec![patch("a"), patch("b")],
        patchset_index: 0,
    };
    s.select_above_patchset();
    assert_eq!(0, s.patchset_index);
    s.select_below_patchset();
    s.select_below_patchset();
    assert_eq!(1, s.patchset_index);
    s.select_above_patchset();
    assert_eq!(0, s.patchset_index);
}

// ───────────────────────────── cache ─────────────────────────────

#[test]
fn staleness_follows_the_time_to_live() {
    assert!(!stale_verdict(Some(5), 5));
    assert!(stale_verdict(Some(6), 5));
    assert!(stale_verdict(None, u128::MAX));
    let ttl = CacheTtl::default();
    assert_eq!(86_400_000_000_000, ttl.mailing_lists);
    assert_eq!(3_600_000_000_000, ttl.feed);
    let entry = MailingListsCacheEntry::new(vec![MailingList::new("a", "b")]);
    assert!(!entry.is_stale(ttl.mailing_lists));
    let key = PatchsetCacheKey::from_patch(&patch("k"));
    assert_eq!("k", key.message_id);
    assert_eq!(2, key.version);
}

// ───────────────────────────── errors and responses ─────────────────────────────

#[test]
fn error_messages_name_their_cause() {
    assert_eq!("no kw job is running", KwError::NoJobRunning.message());
    assert_eq!("history error: disk full", KwError::History("disk full".into()).message());
    assert_eq!("a kw job is already running", KwStartError::JobAlreadyRunning.message());
    assert_eq!("filesystem error: ro", KwStartError::Fs("ro".into()).message());
    assert_eq!("feed ended", LoreError::EndOfFeed.message());
    assert_eq!(
        "http error: timeout",
        LoreError::Http(LoreHttpError::Net("timeout".into())).message()
    );
    assert_eq!("persistence error: x", LoreError::Persistence("x".into()).message());
}

#[test]
fn lore_response_hands_its_patches_back() {
    let r = LoreResponse::new(vec![]);
    assert!(r.get_patches().is_empty());
}
