use patch_hub::lore::domain::patch::{Author, MessageID, Patch, PatchRegex};
use patch_hub::patch::{Author as A, MessageID as M, Patch as P};

fn author() -> Author {
    Author { name: "Foo Bar".to_string(), email: "foo@bar.foo.bar".to_string() }
}

fn domain_patch(title: &str) -> Patch {
    Patch::from_parts(
        title.to_string(),
        1,
        1,
        1,
        author(),
        MessageID { href: "http://lore.kernel.org/some-list/1234-2-foo@bar.foo.bar".to_string() },
        Some(MessageID {
            href: "http://lore.kernel.org/some-list/1234-1-foo@bar.foo.bar".to_string(),
        }),
        "2024-07-06T19:16:53Z".to_string(),
    )
}

#[test]
fn patch_test_update_patch_metadata() {
    let patch_regex: PatchRegex = PatchRegex::new().unwrap();
    let mut patch = domain_patch(
        "[RESEND][v7 PATCH 3/42] hitchhiker/guide: Life, the Universe and Everything",
    );

    patch.update_patch_metadata(&patch_regex);

    assert_eq!(
        "[RESEND] hitchhiker/guide: Life, the Universe and Everything",
        patch.title(),
        "The title should have the patch tag `[v7 PATCH 3/42]` stripped"
    );
    assert_eq!(7, patch.version(), "Wrong version!");
    assert_eq!(3, patch.number_in_series(), "Wrong number in series!");
    assert_eq!(42, patch.total_in_series(), "Wrong total in series!");
}

#[test]
fn title_without_tag_is_left_alone() {
    let rx = PatchRegex::new().unwrap();
    let mut patch = domain_patch("hitchhiker/guide: no tag here");
    patch.update_patch_metadata(&rx);
    assert_eq!("hitchhiker/guide: no tag here", patch.title());
    assert_eq!(1, patch.version());
}

#[test]
fn rfc_tag_without_numbers_keeps_defaults() {
    let rx = PatchRegex::new().unwrap();
    let mut patch = domain_patch("[rfc] mm: try something");
    patch.update_patch_metadata(&rx);
    assert_eq!("mm: try something", patch.title());
    assert_eq!((1, 1, 1), (patch.version(), patch.number_in_series(), patch.total_in_series()));
}

#[test]
fn spaced_series_and_capital_version_are_read() {
    let rx = PatchRegex::new().unwrap();
    let mut patch = domain_patch("[PATCH V 3 2 / 5] x: y");
    patch.update_patch_metadata(&rx);
    assert_eq!("x: y", patch.title());
    assert_eq!((3, 2, 5), (patch.version(), patch.number_in_series(), patch.total_in_series()));
}

#[test]
fn numbers_too_large_leave_the_patch_unchanged() {
    let rx = PatchRegex::new().unwrap();
    let mut patch = domain_patch("[PATCH v99999999999999999999999 1/2] x");
    assert!(!patch.try_update_patch_metadata(&rx));
    assert_eq!("[PATCH v99999999999999999999999 1/2] x", patch.title());
    let mut ok = domain_patch("[PATCH v2 1/2] x");
    assert!(ok.try_update_patch_metadata(&rx));
    assert_eq!(2, ok.version());
}

#[test]
fn author_displays_name_and_email() {
    assert_eq!("Foo Bar <foo@bar.foo.bar>", author().display());
}

#[test]
fn tests_test_update_patch_metadata() {
    let patch_regex: PatchRegex = PatchRegex::new().unwrap();
    let mut patch: P = P::new(
        "[RESEND][v7 PATCH 3/42] hitchhiker/guide: Life, the Universe and Everything".to_string(),
        A { name: "Foo Bar".to_string(), email: "foo@bar.foo.bar".to_string() },
        M { href: "http://lore.kernel.org/some-list/1234-2-foo@bar.foo.bar".to_string() },
        Some(M { href: "http://lore.kernel.org/some-list/1234-1-foo@bar.foo.bar".to_string() }),
        "2024-07-06T19:16:53Z".to_string(),
    );

    patch.update_patch_metadata(&patch_regex);

    assert_eq!(
        "[RESEND] hitchhiker/guide: Life, the Universe and Everything",
        patch.get_title(),
        "The title should have the patch tag `[v7 PATCH 3/42]` stripped"
    );
    assert_eq!(7, patch.get_version(), "Wrong version!");
    assert_eq!(3, patch.get_number_in_series(), "Wrong number in series!");
    assert_eq!(42, patch.get_total_in_series(), "Wrong total in series!");
}

#[test]
fn top_level_patch_keeps_its_other_fields() {
    let rx = PatchRegex::new().unwrap();
    let mut patch = P::new(
        "[PATCH v2 1/2] x".to_string(),
        A { name: "Foo Bar".to_string(), email: "foo@bar.foo.bar".to_string() },
        M { href: "id".to_string() },
        None,
        "2024-07-06T19:16:53Z".to_string(),
    );
    assert_eq!(1, patch.get_version());
    patch.update_patch_metadata(&rx);
    assert_eq!("x", patch.get_title());
    assert_eq!(2, patch.get_version());
    assert_eq!("2024-07-06T19:16:53Z", patch.get_updated());
    assert_eq!(&None, patch.get_in_reply_to());
    assert_eq!("Foo Bar", patch.get_author().name);
    assert_eq!("id", patch.get_message_id().href);
    let mut too_big = P::new(
        "[PATCH v4294967296] x".to_string(),
        A { name: String::new(), email: String::new() },
        M { href: String::new() },
        None,
        String::new(),
    );
    assert!(!too_big.try_update_patch_metadata(&rx));
}
