//! The lore service: feed pages, patchset details, reply commands, the git
//! signature and the mailing lists, over the gateways, parsers and stores
//! it is given.
use vstd::prelude::*;

use crate::infra::{FileSystemTrait, ShellCommand, ShellTrait};
use crate::kw::status::opt_string_view;
use crate::lore::application::cache::{BootstrapLoreData, CacheMode, CacheTtl, MailingListsCacheEntry};
use crate::lore::application::dto::{PatchTagSummary, PatchsetDetails};
use crate::lore::application::errors::LoreError;
use crate::lore::application::api::LoreServiceApi;
use crate::lore::domain::patch::{Author, Patch, PatchFeed, PatchModel, PatchRegex};
use crate::lore::domain::patchset::{ingest, models_of, new_representatives, page_ids, PatchFeedIndex, LORE_PAGE_SIZE};
use crate::lore::infrastructure::http_lore_client::{
    FeedGateway, ListsGateway, LoreHttpError, PatchHtmlGateway,
};
use crate::lore::infrastructure::parsers::{
    available_lists_spec, concat_pages, pages_listing, parse_available_lists, FeedParser,
};
use crate::lore::infrastructure::patchset_fetcher::{PatchFetchError, PatchsetFetcher};
use crate::lore::infrastructure::patchset_parser::strings_view;
use crate::lore::infrastructure::patchset_parser::{
    extract_git_reply_command, reply_command_args, suggested_options, generate_reply_template, split_cover, split_cover_spec,
    PatchsetParser,
};
use crate::lore::infrastructure::persistence::LorePersistence;
use crate::mailing_list::{duplicate_lists, lists_view, sort_mailing_lists, sorted_by_name, MailingList};
use crate::pattern::{capture_group, compile_regex, group_of, regex_captures, regex_compiles};
use crate::text::{
    chars_of, find_char, find_char_exec, find_char_from, lines, lines_of, path_join, path_join_exec, slice_range,
    starts_with, starts_with_chars, str_eq, str_to_string, string_from_chars, trim, trim_chars,
    trim_end_char, trim_end_char_exec, trim_start, trim_start_chars, utf8_lossy, utf8_lossy_string,
    ws_words,
};

verus! {

// ───────────────────────────── review trailers ─────────────────────────────

pub open spec fn trailer_prefix(k: int) -> Seq<char> {
    if k == 0 {
        "Reviewed-by:"@
    } else if k == 1 {
        "Tested-by:"@
    } else {
        "Acked-by:"@
    }
}

/// Which trailer a line is (after its leading whitespace): reviewed, tested
/// or acked, checked in that order.
pub open spec fn trailer_kind(line: Seq<char>) -> Option<int> {
    let t = trim_start(line);
    if starts_with(t, trailer_prefix(0)) {
        Some(0)
    } else if starts_with(t, trailer_prefix(1)) {
        Some(1)
    } else if starts_with(t, trailer_prefix(2)) {
        Some(2)
    } else {
        None
    }
}

pub open spec fn count_char(s: Seq<char>, c: char) -> nat
    decreases s.len(),
{
    if s.len() == 0 {
        0
    } else {
        count_char(s.drop_last(), c) + if s.last() == c {
            1nat
        } else {
            0nat
        }
    }
}

/// The person a trailer names: `Name <email>`, split at its only `<`, the
/// name trimmed and the email without its closing `>`s, trimmed.
pub open spec fn trailer_author(rest: Seq<char>) -> Option<(Seq<char>, Seq<char>)> {
    let t = trim(rest);
    if count_char(t, '<') == 1 {
        let i = find_char(t, '<')->0;
        Some((trim(t.take(i)), trim(trim_end_char(t.skip(i + 1), '>'))))
    } else {
        None
    }
}

pub open spec fn insert_unique(s: Seq<(Seq<char>, Seq<char>)>, a: (Seq<char>, Seq<char>)) -> Seq<
    (Seq<char>, Seq<char>),
> {
    if s.contains(a) {
        s
    } else {
        s.push(a)
    }
}

pub type TrailerSets = (
    Seq<(Seq<char>, Seq<char>)>,
    Seq<(Seq<char>, Seq<char>)>,
    Seq<(Seq<char>, Seq<char>)>,
);

/// The trailers of the cover's lines, each person once per kind.
pub open spec fn trailer_fold(ls: Seq<Seq<char>>) -> TrailerSets
    decreases ls.len(),
{
    if ls.len() == 0 {
        (seq![], seq![], seq![])
    } else {
        let st = trailer_fold(ls.drop_last());
        let line = ls.last();
        match trailer_kind(line) {
            Some(k) => match trailer_author(trim_start(line).skip(trailer_prefix(k).len() as int)) {
                Some(a) => if k == 0 {
                    (insert_unique(st.0, a), st.1, st.2)
                } else if k == 1 {
                    (st.0, insert_unique(st.1, a), st.2)
                } else {
                    (st.0, st.1, insert_unique(st.2, a))
                },
                None => st,
            },
            None => st,
        }
    }
}

/// A line is a trailer with the given prefix (after its leading
/// whitespace) naming `a` as `Name <email>`.
pub open spec fn has_trailer(line: Seq<char>, prefix: Seq<char>, a: (Seq<char>, Seq<char>)) -> bool {
    let t = trim_start(line);
    starts_with(t, prefix) && trailer_author(t.skip(prefix.len() as int)) == Some(a)
}

/// Some line names `a` in a trailer with the given prefix.
pub open spec fn named_by(ls: Seq<Seq<char>>, prefix: Seq<char>, a: (Seq<char>, Seq<char>)) -> bool {
    exists|i: int| 0 <= i < ls.len() && #[trigger] has_trailer(ls[i], prefix, a)
}

proof fn lemma_prefixes_exclusive(t: Seq<char>)
    ensures
        !(starts_with(t, "Reviewed-by:"@) && starts_with(t, "Tested-by:"@)),
        !(starts_with(t, "Reviewed-by:"@) && starts_with(t, "Acked-by:"@)),
        !(starts_with(t, "Tested-by:"@) && starts_with(t, "Acked-by:"@)),
{
    reveal_strlit("Reviewed-by:");
    reveal_strlit("Tested-by:");
    reveal_strlit("Acked-by:");
    if starts_with(t, "Reviewed-by:"@) {
        assert(t[0] == "Reviewed-by:"@.subrange(0, 12)[0]);
    }
    if starts_with(t, "Tested-by:"@) {
        assert(t[0] == "Tested-by:"@.subrange(0, 10)[0]);
    }
    if starts_with(t, "Acked-by:"@) {
        assert(t[0] == "Acked-by:"@.subrange(0, 9)[0]);
    }
}

proof fn lemma_fold_by_prefix(ls: Seq<Seq<char>>, a: (Seq<char>, Seq<char>))
    ensures
        trailer_fold(ls).0.contains(a) <==> named_by(ls, "Reviewed-by:"@, a),
        trailer_fold(ls).1.contains(a) <==> named_by(ls, "Tested-by:"@, a),
        trailer_fold(ls).2.contains(a) <==> named_by(ls, "Acked-by:"@, a),
    decreases ls.len(),
{
    if ls.len() > 0 {
        let d = ls.drop_last();
        lemma_fold_by_prefix(d, a);
        let line = ls.last();
        let t = trim_start(line);
        lemma_prefixes_exclusive(t);
        let st = trailer_fold(d);
        assert forall|p: Seq<char>|
            named_by(ls, p, a) <==> (named_by(d, p, a) || has_trailer(line, p, a)) by {
            if named_by(ls, p, a) {
                let i = choose|i: int| 0 <= i < ls.len() && #[trigger] has_trailer(ls[i], p, a);
                if i < d.len() {
                    assert(d[i] == ls[i]);
                }
            }
            if named_by(d, p, a) {
                let i = choose|i: int| 0 <= i < d.len() && #[trigger] has_trailer(d[i], p, a);
                assert(ls[i] == d[i]);
            }
            if has_trailer(line, p, a) {
                assert(has_trailer(ls[ls.len() - 1], p, a));
            }
        }
        assert(trailer_prefix(0) == "Reviewed-by:"@);
        assert(trailer_prefix(1) == "Tested-by:"@);
        assert(trailer_prefix(2) == "Acked-by:"@);
        assert(trailer_fold(ls) == match trailer_kind(line) {
            Some(k) => match trailer_author(t.skip(trailer_prefix(k).len() as int)) {
                Some(b) => if k == 0 {
                    (insert_unique(st.0, b), st.1, st.2)
                } else if k == 1 {
                    (st.0, insert_unique(st.1, b), st.2)
                } else {
                    (st.0, st.1, insert_unique(st.2, b))
                },
                None => st,
            },
            None => st,
        });
        match trailer_kind(line) {
            Some(k) => match trailer_author(t.skip(trailer_prefix(k).len() as int)) {
                Some(b) => {
                    lemma_insert_unique_contains(st.0, b, a);
                    lemma_insert_unique_contains(st.1, b, a);
                    lemma_insert_unique_contains(st.2, b, a);
                },
                None => {},
            },
            None => {},
        }
    }
}

proof fn lemma_insert_unique_contains(
    s: Seq<(Seq<char>, Seq<char>)>,
    b: (Seq<char>, Seq<char>),
    a: (Seq<char>, Seq<char>),
)
    ensures
        insert_unique(s, b).contains(a) <==> (s.contains(a) || a == b),
{
    if !s.contains(b) {
        if s.push(b).contains(a) {
            let i = choose|i: int| 0 <= i < s.push(b).len() && s.push(b)[i] == a;
            if i < s.len() {
                assert(s[i] == a);
            }
        }
        if s.contains(a) {
            let i = choose|i: int| 0 <= i < s.len() && s[i] == a;
            assert(s.push(b)[i] == a);
        }
        assert(s.push(b)[s.len() as int] == b);
    }
}

/// Trailers are filed by their own prefix: a person is in a patch's
/// first, second or third trailer set exactly when a line of its cover
/// part (leading whitespace aside) starts with the first, second or third
/// prefix of [`trailer_prefix`] respectively and names them as
/// `Name <email>`. A line of the second kind alone never puts a person in
/// the third set, and one of the third kind never in the second.
pub proof fn lemma_trailers_filed_by_prefix(raw: Seq<char>, a: (Seq<char>, Seq<char>))
    ensures
        tag_summary_spec(raw).0.contains(a) <==> named_by(
            lines(split_cover_spec(raw).0),
            "Reviewed-by:"@,
            a,
        ),
        tag_summary_spec(raw).1.contains(a) <==> named_by(
            lines(split_cover_spec(raw).0),
            "Tested-by:"@,
            a,
        ),
        tag_summary_spec(raw).2.contains(a) <==> named_by(
            lines(split_cover_spec(raw).0),
            "Acked-by:"@,
            a,
        ),
{
    lemma_fold_by_prefix(lines(split_cover_spec(raw).0), a);
}

pub open spec fn tag_summary_spec(raw: Seq<char>) -> TrailerSets {
    trailer_fold(lines(split_cover_spec(raw).0))
}

pub open spec fn authors_view(s: Seq<Author>) -> Seq<(Seq<char>, Seq<char>)> {
    s.map_values(|a: Author| (a.name@, a.email@))
}

fn count_char_exec(s: &[char], c: char) -> (r: usize)
    ensures
        r == count_char(s@, c),
{
    let mut n: usize = 0;
    let mut i: usize = 0;
    assert(s@.take(0) =~= seq![]);
    while i < s.len()
        invariant
            i <= s@.len(),
            n == count_char(s@.take(i as int), c),
            n <= i,
        decreases s.len() - i,
    {
        assert(s@.take(i + 1).drop_last() =~= s@.take(i as int));
        if s[i] == c {
            n += 1;
        }
        i += 1;
    }
    assert(s@.take(i as int) =~= s@);
    n
}

proof fn lemma_find_none(s: Seq<char>, c: char, from: int)
    requires
        0 <= from,
        find_char_from(s, c, from) is None,
    ensures
        forall|k: int| from <= k < s.len() ==> s[k] != c,
    decreases s.len() - from,
{
    if from < s.len() {
        lemma_find_none(s, c, from + 1);
    }
}

proof fn lemma_count_some(s: Seq<char>, c: char)
    requires
        count_char(s, c) > 0,
    ensures
        exists|k: int| 0 <= k < s.len() && s[k] == c,
    decreases s.len(),
{
    if s.last() == c {
        assert(s[s.len() - 1] == c);
    } else {
        lemma_count_some(s.drop_last(), c);
        let k = choose|k: int| 0 <= k < s.drop_last().len() && s.drop_last()[k] == c;
        assert(s[k] == c);
    }
}

/// A character that occurs is found.
proof fn lemma_count_find(s: Seq<char>, c: char)
    requires
        count_char(s, c) > 0,
    ensures
        find_char(s, c) is Some,
{
    lemma_count_some(s, c);
    if find_char(s, c) is None {
        lemma_find_none(s, c, 0);
    }
}

fn trailer_author_exec(rest: &[char]) -> (r: Option<Author>)
    ensures
        match r {
            Some(a) => trailer_author(rest@) == Some((a.name@, a.email@)),
            None => trailer_author(rest@) is None,
        },
{
    let t = trim_chars(rest);
    if count_char_exec(t.as_slice(), '<') != 1 {
        return None;
    }
    proof {
        lemma_count_find(t@, '<');
    }
    let i = match find_char_exec(t.as_slice(), '<') {
        Some(i) => i,
        None => {
            return None;
        },
    };
    assert(i < t.len());
    let before = slice_range(t.as_slice(), 0, i);
    let after = slice_range(t.as_slice(), i + 1, t.len());
    assert(before@ =~= t@.take(i as int));
    assert(after@ =~= t@.skip(i + 1));
    let name = trim_chars(before.as_slice());
    let unclosed = trim_end_char_exec(after.as_slice(), '>');
    let email = trim_chars(unclosed.as_slice());
    Some(
        Author {
            name: string_from_chars(name.as_slice()),
            email: string_from_chars(email.as_slice()),
        },
    )
}

fn insert_author(set: &mut Vec<Author>, a: Author)
    ensures
        authors_view(final(set)@) == insert_unique(authors_view(old(set)@), (a.name@, a.email@)),
{
    let ghost sv = authors_view(set@);
    let mut i: usize = 0;
    while i < set.len()
        invariant
            i <= set@.len(),
            sv == authors_view(set@),
            set@ == old(set)@,
            forall|k: int| 0 <= k < i ==> sv[k] != (a.name@, a.email@),
        decreases set.len() - i,
    {
        if set[i].name == a.name && set[i].email == a.email {
            assert(sv[i as int] == (a.name@, a.email@));
            return;
        }
        i += 1;
    }
    assert(!sv.contains((a.name@, a.email@)));
    let ghost av = (a.name@, a.email@);
    set.push(a);
    assert(authors_view(set@) =~= sv.push(av));
}

/// The review trailers in the cover part of a raw patch.
pub fn extract_tag_summary(raw_patch: &str) -> (r: PatchTagSummary)
    ensures
        (authors_view(r.reviewed_by@), authors_view(r.tested_by@), authors_view(r.acked_by@))
            == tag_summary_spec(raw_patch@),
{
    let (cover, _) = split_cover(raw_patch);
    let cs = chars_of(cover.as_str());
    let ls = lines_of(cs.as_slice());
    let ghost all = lines(cs@);
    let prefixes = [chars_of("Reviewed-by:"), chars_of("Tested-by:"), chars_of("Acked-by:")];
    let mut reviewed_by: Vec<Author> = Vec::new();
    let mut tested_by: Vec<Author> = Vec::new();
    let mut acked_by: Vec<Author> = Vec::new();
    let mut i: usize = 0;
    assert(all.take(0) =~= seq![]);
    assert(authors_view(reviewed_by@) =~= seq![]);
    while i < ls.len()
        invariant
            i <= ls@.len(),
            ls@.len() == all.len(),
            forall|k: int| 0 <= k < ls@.len() ==> #[trigger] ls@[k]@ == all[k],
            prefixes@.len() == 3,
            forall|k: int| 0 <= k < 3 ==> #[trigger] prefixes@[k]@ == trailer_prefix(k),
            (authors_view(reviewed_by@), authors_view(tested_by@), authors_view(acked_by@))
                == trailer_fold(all.take(i as int)),
        decreases ls.len() - i,
    {
        assert(all.take(i + 1).drop_last() =~= all.take(i as int));
        assert(all.take(i + 1).last() == all[i as int]);
        let t = trim_start_chars(ls[i].as_slice());
        let mut k: usize = 0;
        let mut found = false;
        while k < 3 && !found
            invariant
                k <= 3,
                prefixes@.len() == 3,
                forall|x: int| 0 <= x < 3 ==> #[trigger] prefixes@[x]@ == trailer_prefix(x),
                forall|x: int| 0 <= x < k ==> !starts_with(t@, #[trigger] trailer_prefix(x)),
                found ==> k < 3 && starts_with(t@, trailer_prefix(k as int)),
            decreases 3 - k + (if found { 0int } else { 1int }),
        {
            if starts_with_chars(t.as_slice(), prefixes[k].as_slice()) {
                found = true;
            } else {
                k += 1;
            }
        }
        if found {
            assert(trailer_kind(all[i as int]) == Some(k as int));
            let p = &prefixes[k];
            assert(p@.len() <= t@.len());
            let rest = slice_range(t.as_slice(), p.len(), t.len());
            assert(rest@ =~= t@.skip(trailer_prefix(k as int).len() as int));
            match trailer_author_exec(rest.as_slice()) {
                Some(a) => {
                    if k == 0 {
                        insert_author(&mut reviewed_by, a);
                    } else if k == 1 {
                        insert_author(&mut tested_by, a);
                    } else {
                        insert_author(&mut acked_by, a);
                    }
                },
                None => {},
            }
        } else {
            assert(trailer_kind(all[i as int]) is None);
        }
        i += 1;
    }
    assert(all.take(i as int) =~= all);
    PatchTagSummary { reviewed_by, tested_by, acked_by }
}

// ───────────────────────────── git signature ─────────────────────────────

/// `git [-C <repo>] config <key>`: the global configuration for an empty
/// repository path.
pub open spec fn git_config_args(repo: Seq<char>, key: Seq<char>) -> Seq<Seq<char>> {
    if repo.len() == 0 {
        seq!["config"@, key]
    } else {
        seq!["-C"@, repo, "config"@, key]
    }
}

pub fn git_config_command(repo: &str, key: &str) -> (r: ShellCommand)
    ensures
        r.program@ == "git"@,
        r.args@.map_values(|a: String| a@) == git_config_args(repo@, key@),
{
    let cmd = if repo.is_empty() {
        ShellCommand::new("git").arg("config").arg(key)
    } else {
        ShellCommand::new("git").arg("-C").arg(repo).arg("config").arg(key)
    };
    assert(cmd.args@.map_values(|a: String| a@) =~= git_config_args(repo@, key@));
    cmd
}

/// A configuration value from `git config`: its output read leniently as
/// text and trimmed; empty when the command could not be run.
pub open spec fn config_value(out: Option<Seq<u8>>) -> Seq<char> {
    match out {
        Some(b) => trim(utf8_lossy(b)),
        None => seq![],
    }
}

/// The value a `git config` run printed, read as [`config_value`] says.
pub fn config_value_of(out: Option<Vec<u8>>) -> (r: String)
    ensures
        r@ == config_value(match out {
            Some(b) => Some(b@),
            None => None,
        }),
{
    match out {
        Some(bytes) => {
            let text = utf8_lossy_string(&bytes);
            let cs = chars_of(text.as_str());
            let t = trim_chars(cs.as_slice());
            string_from_chars(t.as_slice())
        },
        None => String::new(),
    }
}

fn read_config_value<S: ShellTrait>(shell: &S, cmd: &ShellCommand) -> (r: String)
    ensures
        exists|out: Option<Seq<u8>>| r@ == config_value(out),
{
    let out = match shell.execute(cmd) {
        Some(o) => Some(o.stdout),
        None => None,
    };
    let ghost seen = match &out {
        Some(b) => Some(b@),
        None => None,
    };
    let r = config_value_of(out);
    assert(r@ == config_value(seen));
    r
}

/// `(user.name, user.email)` from `git config` for a repository path, or
/// from the global configuration for an empty path. A value that cannot
/// be read is empty.
pub fn get_git_signature<S: ShellTrait>(shell: &S, git_repo_path: &str) -> (r: (String, String))
    ensures
        exists|a: Option<Seq<u8>>, b: Option<Seq<u8>>| r.0@ == config_value(a) && r.1@
            == config_value(b),
{
    let name_cmd = git_config_command(git_repo_path, "user.name");
    let email_cmd = git_config_command(git_repo_path, "user.email");
    let name = read_config_value(shell, &name_cmd);
    let email = read_config_value(shell, &email_cmd);
    (name, email)
}

// ───────────────────────────── reply files ─────────────────────────────

/// The `Message-Id:` header line of a raw patch.
pub open spec fn message_id_pattern() -> Seq<char> {
    "(?m)^Message-Id: <(.*?)>"@
}

/// The reply file of a message: `<tmp dir>/<message id>-reply.mbx`.
pub open spec fn reply_file(tmp_dir: Seq<char>, message_id: Seq<char>) -> Seq<char> {
    path_join(tmp_dir, message_id + "-reply.mbx"@)
}

/// What a reply to a patch holds: its reply template and a `Reviewed-by`
/// trailer with the signature.
pub open spec fn reply_text(patch: Seq<char>, signature: Seq<char>) -> Seq<char> {
    crate::lore::infrastructure::patchset_parser::reply_template_spec(patch) + "\nReviewed-by: "@
        + signature + "\n"@
}

// ───────────────────────────── the service ─────────────────────────────

/// The lore service over its gateways, parsers and stores.
pub struct LoreService<
    L: ListsGateway,
    G: FeedGateway,
    H: PatchHtmlGateway,
    P: LorePersistence,
    Fe: PatchsetFetcher,
    Pa: PatchsetParser,
    X: FeedParser,
    F: FileSystemTrait,
    S: ShellTrait,
> {
    lists_gateway: L,
    feed_gateway: G,
    patch_html_gateway: H,
    persistence: P,
    patchset_fetcher: Fe,
    patchset_parser: Pa,
    feed_parser: X,
    fs: F,
    shell: S,
    feed_indexes: Vec<PatchFeedIndex>,
    lists_cache: Option<MailingListsCacheEntry>,
    ttl: CacheTtl,
}

/// The position of the first index of `list`.
pub open spec fn index_position(indexes: Seq<PatchFeedIndex>, list: Seq<char>, from: int) -> Option<
    int,
>
    decreases indexes.len() - from,
{
    if from < 0 || from >= indexes.len() {
        None
    } else if indexes[from].list() == list {
        Some(from)
    } else {
        index_position(indexes, list, from + 1)
    }
}

impl<
    L: ListsGateway,
    G: FeedGateway,
    H: PatchHtmlGateway,
    P: LorePersistence,
    Fe: PatchsetFetcher,
    Pa: PatchsetParser,
    X: FeedParser,
    F: FileSystemTrait,
    S: ShellTrait,
> LoreService<L, G, H, P, Fe, Pa, X, F, S> {
    pub fn new(
        lists_gateway: L,
        feed_gateway: G,
        patch_html_gateway: H,
        persistence: P,
        patchset_fetcher: Fe,
        patchset_parser: Pa,
        feed_parser: X,
        fs: F,
        shell: S,
    ) -> (r: Self)
        ensures
            r.wf(),
            r.indexes().len() == 0,
            r.cached_lists() is None,
    {
        LoreService {
            lists_gateway,
            feed_gateway,
            patch_html_gateway,
            persistence,
            patchset_fetcher,
            patchset_parser,
            feed_parser,
            fs,
            shell,
            feed_indexes: Vec::new(),
            lists_cache: None,
            ttl: CacheTtl::default(),
        }
    }

    /// The splitter of downloaded patchsets.
    pub closed spec fn parser(&self) -> Pa {
        self.patchset_parser
    }

    /// The gateway to lore's patch pages.
    pub closed spec fn html_gateway(&self) -> H {
        self.patch_html_gateway
    }

    pub closed spec fn indexes(&self) -> Seq<PatchFeedIndex> {
        self.feed_indexes@
    }

    /// The mailing lists kept in memory by the last refresh, if any.
    pub closed spec fn cached_lists(&self) -> Option<Seq<(Seq<char>, Seq<char>)>> {
        match self.lists_cache {
            Some(entry) => Some(lists_view(entry.lists@)),
            None => None,
        }
    }

    /// Every feed index is well formed.
    pub closed spec fn wf(&self) -> bool {
        forall|i: int| 0 <= i < self.feed_indexes@.len() ==> (#[trigger] self.feed_indexes@[i]).wf()
    }

    /// The feed index of a list, if the list was paged.
    pub open spec fn index_for(&self, list: Seq<char>) -> Option<PatchFeedIndex> {
        match index_position(self.indexes(), list, 0) {
            Some(i) => Some(self.indexes()[i]),
            None => None,
        }
    }

    fn position_of(&self, list: &str) -> (r: Option<usize>)
        ensures
            match r {
                Some(i) => index_position(self.indexes(), list@, 0) == Some(i as int) && i
                    < self.indexes().len(),
                None => index_position(self.indexes(), list@, 0) is None,
            },
    {
        let mut i: usize = 0;
        while i < self.feed_indexes.len()
            invariant
                i <= self.feed_indexes@.len(),
                index_position(self.indexes(), list@, 0) == index_position(
                    self.indexes(),
                    list@,
                    i as int,
                ),
                self.indexes() == self.feed_indexes@,
            decreases self.feed_indexes.len() - i,
        {
            if str_eq(self.feed_indexes[i].target_list(), list) {
                return Some(i);
            }
            i += 1;
        }
        None
    }

    /// Forgets the feed state of `target_list`, so the next page request
    /// starts from the beginning.
    pub fn reset_feed_cursor(&mut self, target_list: &str)
        requires
            old(self).wf(),
        ensures
            final(self).wf(),
            index_position(old(self).indexes(), target_list@, 0) matches Some(i)
                ==> final(self).indexes() == old(self).indexes().remove(i),
            index_position(old(self).indexes(), target_list@, 0) is None ==> final(self).indexes()
                == old(self).indexes(),
            final(self).cached_lists() == old(self).cached_lists(),
    {
        match self.position_of(target_list) {
            Some(i) => {
                self.feed_indexes.remove(i);
                assert forall|k: int| 0 <= k < self.feed_indexes@.len() implies (
                #[trigger] self.feed_indexes@[k]).wf() by {
                    if k < i {
                        assert(self.feed_indexes@[k] == old(self).feed_indexes@[k]);
                    } else {
                        assert(self.feed_indexes@[k] == old(self).feed_indexes@[k + 1]);
                    }
                }
            },
            None => {},
        }
    }

    /// The patches of page `page_number` (from 1) of `target_list`, each
    /// page holding `page_size` patchsets. Feed pages are fetched until the
    /// list has enough representatives or the feed ends; the answer is the
    /// page of the list's index after that, or `EndOfFeed` when that page
    /// starts past the end.
    pub fn fetch_next_patch_page(
        &mut self,
        target_list: &str,
        page_size: usize,
        page_number: usize,
    ) -> (r: Result<Vec<Patch>, LoreError>)
        requires
            old(self).wf(),
            page_size >= 1,
            page_number >= 1,
            page_size * page_number <= usize::MAX,
        ensures
            final(self).wf(),
            final(self).cached_lists() == old(self).cached_lists(),
            r matches Ok(v) ==> final(self).index_for(target_list@) matches Some(ix) && page_ids(
                ix.reps(),
                page_size as int,
                page_number as int,
            ) matches Some(ids) && v@.len() == ids.len() && forall|i: int|
                0 <= i < ids.len() ==> (#[trigger] v@[i]).model() == ix.known()[ids[i]],
            r matches Err(LoreError::EndOfFeed) ==> final(self).index_for(target_list@) matches Some(
                ix,
            ) && page_ids(ix.reps(), page_size as int, page_number as int) is None,
            old(self).index_for(target_list@) matches Some(ix0) && ix0.reps().len() >= page_size
                * page_number ==> r is Ok && final(self).indexes() == old(self).indexes(),
            r matches Err(LoreError::Http(e)) ==> e is Net,
            r matches Err(e) ==> e is Http || e is Parse || e is EndOfFeed,
            (r is Ok || r matches Err(LoreError::EndOfFeed)) ==> paged_from(
                old(self).index_for(target_list@),
                final(self).index_for(target_list@),
            ),
    {
        let needed = page_size * page_number;
        let pos = match self.position_of(target_list) {
            Some(i) => i,
            None => {
                match PatchFeedIndex::new(str_to_string(target_list)) {
                    Some(ix) => {
                        self.feed_indexes.push(ix);
                        assert forall|k: int| 0 <= k < self.feed_indexes@.len() implies (
                        #[trigger] self.feed_indexes@[k]).wf() by {
                            if k < old(self).feed_indexes@.len() {
                                assert(self.feed_indexes@[k] == old(self).feed_indexes@[k]);
                            }
                        }
                        proof {
                            assert(index_position(self.indexes(), target_list@, 0)
                                == index_position(self.indexes(), target_list@, 0));
                            lemma_index_position_push(old(self).indexes(), self.indexes(), target_list@, 0);
                        }
                        self.feed_indexes.len() - 1
                    },
                    None => {
                        return Err(
                            LoreError::Parse(String::from_str("the patch tag expressions do not compile")),
                        );
                    },
                }
            },
        };
        let ghost others = self.feed_indexes@;
        assert(index_position(others, target_list@, 0) == Some(pos as int));
        proof {
            lemma_index_position_found(others, target_list@, 0, pos as int);
        }
        let mut ix = self.feed_indexes.remove(pos);
        let ghost ix0 = ix;
        let ghost start = start_state(old(self).index_for(target_list@));
        assert(index_state(ix0) == start);
        let ghost mut pages: Seq<Seq<PatchModel>> = seq![];
        assert(index_after(ix.regex(), start, pages) == index_state(ix));
        let mut result: Result<(), LoreError> = Ok(());
        while ix.representative_patch_ids().len() < needed
            invariant_except_break
                result is Ok,
            invariant
                result is Ok ==> index_after(ix.regex(), start, pages) == index_state(ix),
                needed == page_size * page_number,
                ix0.reps().len() >= needed ==> ix == ix0 && result is Ok,
                ix.wf(),
                ix.list() == target_list@,
                !(result matches Err(LoreError::EndOfFeed)),
                result matches Err(LoreError::Http(e)) ==> e is Net,
                result matches Err(e) ==> e is Http || e is Parse,
            decreases usize::MAX - ix.offset(),
        {
            let offset = ix.next_offset();
            let fetched = self.feed_gateway.fetch_patch_feed_page(target_list, offset);
            let parsed = match &fetched {
                Ok(body) => Some(self.feed_parser.parse_patch_feed(body.as_str())),
                Err(_) => None,
            };
            match feed_step(fetched, parsed) {
                FeedStep::Ingest(feed) => {
                    let ghost page = models_of(feed.spec_patches());
                    let ghost before = ix;
                    if !ix.try_process_feed_page(feed) {
                        result = Err(
                            LoreError::Parse(String::from_str("a patch tag's numbers do not fit")),
                        );
                        break;
                    }
                    if ix.next_offset() > usize::MAX - LORE_PAGE_SIZE {
                        result = Err(LoreError::Parse(String::from_str("the feed offset overflows")));
                        break;
                    }
                    ix.advance_offset();
                    proof {
                        let prev = pages;
                        pages = pages.push(page);
                        assert(pages.drop_last() =~= prev);
                        assert(index_after(ix.regex(), start, pages) == index_step(
                            ix.regex(),
                            index_after(ix.regex(), start, prev),
                            page,
                        ));
                    }
                },
                FeedStep::End => {
                    break;
                },
                FeedStep::Fail(e) => {
                    result = Err(e);
                    break;
                },
            }
        }
        let ghost ixv = ix;
        self.feed_indexes.insert(pos, ix);
        proof {
            assert(self.feed_indexes@ =~= others.update(pos as int, ixv));
            lemma_index_position_update(others, target_list@, 0, pos as int, ixv);
            assert forall|k: int| 0 <= k < self.feed_indexes@.len() implies (
            #[trigger] self.feed_indexes@[k]).wf() by {
                if k != pos {
                    assert(self.feed_indexes@[k] == others[k]);
                }
            }
        }
        match result {
            Ok(()) => {},
            Err(e) => {
                return Err(e);
            },
        }
        proof {
            if ix0.reps().len() >= needed {
                assert(page_size * (page_number - 1) < page_size * page_number) by (nonlinear_arith)
                    requires
                        page_size >= 1,
                        page_number >= 1,
                ;
            }
        }
        match self.feed_indexes[pos].get_page(page_size, page_number) {
            Some(patches) => Ok(patches),
            None => Err(LoreError::EndOfFeed),
        }
    }
}

impl<
    L: ListsGateway,
    G: FeedGateway,
    H: PatchHtmlGateway,
    P: LorePersistence,
    Fe: PatchsetFetcher,
    Pa: PatchsetParser,
    X: FeedParser,
    F: FileSystemTrait,
    S: ShellTrait,
> LoreService<L, G, H, P, Fe, Pa, X, F, S> {
    /// Downloads the patchset of `representative_patch` and splits it;
    /// each raw patch comes with the review trailers of its cover part.
    pub fn fetch_patchset_details(&self, representative_patch: &Patch) -> (r: Result<
        PatchsetDetails,
        LoreError,
    >)
        ensures
            r matches Ok(d) ==> d.representative_patch.model() == representative_patch.model()
                && d.tag_summary@.len() == d.raw_patches@.len() && forall|i: int|
                0 <= i < d.raw_patches@.len() ==> summary_view(#[trigger] d.tag_summary@[i])
                    == tag_summary_spec(d.raw_patches@[i]@),
            r matches Err(e) ==> e is PatchNotFound || e is Parse,
            exists|
                downloaded: Result<Seq<char>, Seq<char>>,
                split: Option<Result<Seq<Seq<char>>, Seq<char>>>,
            |
                #[trigger] details_holds(representative_patch.model(), downloaded, split, r)
                    && split_of_download(self.parser(), downloaded, split),
    {
        let downloaded = self.patchset_fetcher.download(representative_patch);
        let ghost dv = match &downloaded {
            Ok(p) => Ok::<Seq<char>, Seq<char>>(p@),
            Err(PatchFetchError::NotFound(m)) => Err::<Seq<char>, Seq<char>>(m@),
        };
        let split = match &downloaded {
            Ok(p) => Some(self.patchset_parser.split_patchset(p.as_str())),
            Err(_) => None,
        };
        let ghost sv = split_answer_view(split);
        assert(split_of_download(self.parser(), dv, sv));
        let r = details_from(representative_patch, downloaded, split);
        assert(details_holds(representative_patch.model(), dv, sv, r));
        r
    }

    /// The `git send-email` commands replying to the selected patches with
    /// a `Reviewed-by` trailer; each reply is written to
    /// `<tmp dir>/<message id>-reply.mbx` first. Stops at the first patch
    /// without a `Message-Id:` header, or whose reply cannot be written or
    /// whose lore page cannot be fetched.
    pub fn prepare_reply_commands(
        &self,
        tmp_dir: &str,
        target_list: &str,
        patches: &[String],
        patches_to_reply: &[bool],
        git_signature: &str,
        git_send_email_options: &str,
    ) -> (r: Result<Vec<ShellCommand>, LoreError>)
        requires
            patches_to_reply@.len() >= patches@.len(),
        ensures
            r matches Ok(cmds) ==> cmds@.len() == selected(
                patches_to_reply@,
                patches@.len() as int,
            ).len(),
            r matches Ok(cmds) ==> forall|j: int|
                0 <= j < cmds@.len() ==> (#[trigger] cmds@[j]).program@ == "git"@ && cmds@[j].args@.len()
                    > 0 && cmds@[j].args@.last()@ == reply_file(
                    tmp_dir@,
                    group_of(
                        regex_captures(
                            message_id_pattern(),
                            patches@[selected(patches_to_reply@, patches@.len() as int)[j]]@,
                        ),
                        1,
                    )->0,
                ),
            r matches Ok(cmds) ==> forall|j: int|
                0 <= j < cmds@.len() ==> replies_with(
                    #[trigger] cmds@[j],
                    git_send_email_options@,
                    reply_file(
                        tmp_dir@,
                        group_of(
                            regex_captures(
                                message_id_pattern(),
                                patches@[selected(patches_to_reply@, patches@.len() as int)[j]]@,
                            ),
                            1,
                        )->0,
                    ),
                ),
            r matches Ok(cmds) ==> forall|j: int|
                0 <= j < cmds@.len() ==> reply_from_page(
                    self.html_gateway(),
                    target_list@,
                    #[trigger] cmds@[j],
                    git_send_email_options@,
                    tmp_dir@,
                    group_of(
                        regex_captures(
                            message_id_pattern(),
                            patches@[selected(patches_to_reply@, patches@.len() as int)[j]]@,
                        ),
                        1,
                    )->0,
                ),
            !regex_compiles(message_id_pattern()) ==> r is Err,
            regex_compiles(message_id_pattern()) && selected(
                patches_to_reply@,
                patches@.len() as int,
            ).len() == 0 ==> (r matches Ok(cmds) && cmds@.len() == 0),
            r matches Err(e) ==> e is Parse || e is Persistence || e is Http,
            r is Ok ==> forall|j: int|
                0 <= j < selected(patches_to_reply@, patches@.len() as int).len() ==> has_message_id(
                    patches@[#[trigger] selected(patches_to_reply@, patches@.len() as int)[j]]@,
                ),
            r matches Err(LoreError::Parse(m)) ==> m@ == "the Message-Id expression does not compile"@
                || m@ == "the reply command expressions do not compile"@ || (m@
                == "Message-Id header not found"@ && first_selected_without_id(
                patches@,
                patches_to_reply@,
            )),
    {
        proof {
            lemma_selected_empty(patches_to_reply@, patches@.len() as int);
        }
        let re = match compile_regex("(?m)^Message-Id: <(.*?)>") {
            Some(re) => re,
            None => {
                return Err(
                    LoreError::Parse(String::from_str("the Message-Id expression does not compile")),
                );
            },
        };
        let mut commands: Vec<ShellCommand> = Vec::new();
        let mut i: usize = 0;
        while i < patches.len()
            invariant
                i <= patches@.len(),
                patches_to_reply@.len() >= patches@.len(),
                re@ == message_id_pattern(),
                regex_compiles(message_id_pattern()),
                selected(patches_to_reply@, patches@.len() as int).len() == 0 ==> forall|k: int|
                    0 <= k < patches@.len() ==> !#[trigger] patches_to_reply@[k],
                forall|j: int|
                    0 <= j < selected(patches_to_reply@, i as int).len() ==> has_message_id(
                        patches@[#[trigger] selected(patches_to_reply@, i as int)[j]]@,
                    ),
                forall|j: int|
                    0 <= j < commands@.len() ==> reply_from_page(
                        self.html_gateway(),
                        target_list@,
                        #[trigger] commands@[j],
                        git_send_email_options@,
                        tmp_dir@,
                        group_of(
                            regex_captures(
                                message_id_pattern(),
                                patches@[selected(patches_to_reply@, i as int)[j]]@,
                            ),
                            1,
                        )->0,
                    ),
                forall|j: int|
                    0 <= j < commands@.len() ==> replies_with(
                        #[trigger] commands@[j],
                        git_send_email_options@,
                        reply_file(
                            tmp_dir@,
                            group_of(
                                regex_captures(
                                    message_id_pattern(),
                                    patches@[selected(patches_to_reply@, i as int)[j]]@,
                                ),
                                1,
                            )->0,
                        ),
                    ),
                commands@.len() == selected(patches_to_reply@, i as int).len(),
                forall|j: int|
                    0 <= j < commands@.len() ==> (#[trigger] commands@[j]).program@ == "git"@
                        && commands@[j].args@.len() > 0 && commands@[j].args@.last()@ == reply_file(
                        tmp_dir@,
                        group_of(
                            regex_captures(
                                message_id_pattern(),
                                patches@[selected(patches_to_reply@, i as int)[j]]@,
                            ),
                            1,
                        )->0,
                    ),
            decreases patches.len() - i,
        {
            proof {
                lemma_selected_prefix(patches_to_reply@, i as int);
            }
            if !patches_to_reply[i] {
                i += 1;
                continue;
            }
            let patch = patches[i].as_str();
            let message_id = match capture_group(&re, patch, 1) {
                Some(m) => m,
                None => {
                    proof {
                        let n = patches@.len() as int;
                        let sel_i = selected(patches_to_reply@, i as int);
                        lemma_selected_extends(patches_to_reply@, i + 1, n);
                        let sel_n = selected(patches_to_reply@, n);
                        assert(selected(patches_to_reply@, i + 1) == sel_i.push(i as int));
                        let j = sel_i.len() as int;
                        assert(sel_n[j] == i);
                        assert forall|k: int| 0 <= k < j implies has_message_id(
                            patches@[#[trigger] sel_n[k]]@,
                        ) by {
                            assert(sel_n[k] == sel_i[k]);
                        }
                        assert(!has_message_id(patches@[sel_n[j]]@));
                        assert(first_selected_without_id(patches@, patches_to_reply@));
                    }
                    return Err(LoreError::Parse(String::from_str("Message-Id header not found")));
                },
            };
            let mut file_name = message_id.clone();
            file_name.append("-reply.mbx");
            let reply_path = path_join_exec(tmp_dir, file_name.as_str());
            let reply = reply_contents(patch, git_signature);
            match self.fs.write(reply_path.as_str(), reply.as_str().as_bytes()) {
                Ok(()) => {},
                Err(e) => {
                    return Err(LoreError::Persistence(e));
                },
            }
            let patch_html = match self.patch_html_gateway.fetch_patch_html(
                target_list,
                message_id.as_str(),
            ) {
                Ok(h) => h,
                Err(e) => {
                    return Err(LoreError::Http(e));
                },
            };
            let command = match extract_git_reply_command(
                patch_html.as_str(),
                git_send_email_options,
                reply_path.as_str(),
            ) {
                Some(c) => c,
                None => {
                    return Err(
                        LoreError::Parse(String::from_str("the reply command expressions do not compile")),
                    );
                },
            };
            proof {
                let ghost args = command.args@.map_values(|a: String| a@);
                assert(args.last() == reply_path@);
                assert(command.args@.last()@ == args.last());
                assert(args == reply_command_args(patch_html@, git_send_email_options@, reply_path@));
                assert(replies_with(command, git_send_email_options@, reply_path@));
                assert(self.patch_html_gateway.page_answer(
                    target_list@,
                    message_id@,
                    Ok(patch_html@),
                ));
                assert(reply_from_page(
                    self.html_gateway(),
                    target_list@,
                    command,
                    git_send_email_options@,
                    tmp_dir@,
                    message_id@,
                ));
            }
            commands.push(command);
            i += 1;
        }
        Ok(commands)
    }

    /// The mailing lists of every page of lore's list, fetched from the
    /// network until a page lists none, ordered by name.
    fn lists_from_network(&self) -> (r: Result<Vec<MailingList>, LoreError>)
        ensures
            r matches Ok(v) ==> sorted_by_name(lists_view(v@)),
            r matches Ok(v) ==> exists|pages: Seq<Seq<char>>| #[trigger] pages_listing(pages, lists_view(v@)),
            r matches Err(e) ==> e is Http || e is Parse,
    {
        let mut all: Vec<MailingList> = Vec::new();
        let mut offset: usize = 0;
        let ghost mut pages: Seq<Seq<char>> = seq![];
        loop
            invariant_except_break
                forall|i: int|
                    0 <= i < pages.len() ==> (available_lists_spec(#[trigger] pages[i]) matches Some(
                        l,
                    ) && l.len() > 0),
                concat_pages(pages) == Some(lists_view(all@)),
            ensures
                pages_unsorted(pages, lists_view(all@)),
            decreases usize::MAX - offset,
        {
            let body = match self.lists_gateway.fetch_available_lists_page(offset) {
                Ok(b) => b,
                Err(e) => {
                    return Err(LoreError::Http(e));
                },
            };
            let mut page = match parse_available_lists(body.as_str()) {
                Some(p) => p,
                None => {
                    return Err(LoreError::Parse(String::from_str("the list page cannot be read")));
                },
            };
            let ghost before = pages;
            proof {
                pages = pages.push(body@);
                assert(pages.drop_last() =~= before);
            }
            if page.len() == 0 {
                assert(lists_view(page@) =~= Seq::<(Seq<char>, Seq<char>)>::empty());
                assert(lists_view(all@) + lists_view(page@) =~= lists_view(all@));
                assert forall|i: int| 0 <= i < pages.len() - 1 implies (available_lists_spec(
                    #[trigger] pages[i],
                ) matches Some(l) && l.len() > 0) by {
                    assert(pages[i] == before[i]);
                }
                break;
            }
            let ghost av = lists_view(all@);
            let ghost pv = lists_view(page@);
            all.append(&mut page);
            assert(lists_view(all@) =~= av + pv);
            assert forall|i: int| 0 <= i < pages.len() implies (available_lists_spec(
                #[trigger] pages[i],
            ) matches Some(l) && l.len() > 0) by {
                if i < before.len() {
                    assert(pages[i] == before[i]);
                }
            }
            if offset > usize::MAX - LORE_PAGE_SIZE {
                return Err(LoreError::Parse(String::from_str("the list offset overflows")));
            }
            offset = offset + LORE_PAGE_SIZE;
        }
        let ghost unsorted = lists_view(all@);
        sort_mailing_lists(&mut all);
        let ghost sorted = lists_view(all@);
        assert(concat_pages(pages) == Some(unsorted));
        assert(sorted == crate::mailing_list::sort_by_name(unsorted));
        assert(pages_listing(pages, sorted));
        assert(exists|p: Seq<Seq<char>>| #[trigger] pages_listing(p, sorted));
        let r: Result<Vec<MailingList>, LoreError> = Ok(all);
        assert(r matches Ok(v) && lists_view(v@) == sorted);
        r
    }

    /// Fetches the mailing lists from the network, ordered by name, and
    /// saves them.
    pub fn refresh_available_lists(&self) -> (r: Result<Vec<MailingList>, LoreError>)
        ensures
            r matches Ok(v) ==> sorted_by_name(lists_view(v@)),
            r matches Ok(v) ==> exists|pages: Seq<Seq<char>>| #[trigger] pages_listing(pages, lists_view(v@)),
            r matches Err(e) ==> e is Http || e is Parse || e is Persistence,
            exists|fetched: Result<Seq<(Seq<char>, Seq<char>)>, LoreError>, saved: Result<(), Seq<char>>|
                #[trigger] refresh_holds(fetched, saved, r),
    {
        let all = match self.lists_from_network() {
            Ok(a) => a,
            Err(e) => {
                let r = Err(e);
                assert(refresh_holds(Err(r->Err_0), Ok(()), r));
                return r;
            },
        };
        let ghost av = lists_view(all@);
        match self.persistence.save_available_lists(all.as_slice()) {
            Ok(()) => {
                let r = Ok(all);
                assert(refresh_holds(Ok(av), Ok(()), r));
                r
            },
            Err(e) => {
                let ghost ev = e@;
                let r = Err(LoreError::Persistence(e));
                assert(refresh_holds(Ok(av), Err(ev), r));
                r
            },
        }
    }

    /// The mailing lists according to `mode`: `UseCache` answers from the
    /// in-memory copy while it is fresh, else from disk; `Refresh` fetches
    /// from the network, saves and keeps a copy; `Bypass` fetches from the
    /// network and leaves the copy alone.
    pub fn fetch_available_lists(&mut self, mode: CacheMode) -> (r: Result<
        Vec<MailingList>,
        LoreError,
    >)
        requires
            old(self).wf(),
        ensures
            final(self).wf(),
            final(self).indexes() == old(self).indexes(),
            mode != CacheMode::UseCache ==> (r matches Ok(v) ==> sorted_by_name(lists_view(v@))),
            mode != CacheMode::UseCache ==> (r matches Ok(v) ==> exists|pages: Seq<Seq<char>>|
                #[trigger] pages_listing(pages, lists_view(v@))),
            mode is Refresh && r is Ok ==> final(self).cached_lists() == Some(lists_view(r->Ok_0@)),
            !(mode is Refresh && r is Ok) ==> final(self).cached_lists() == old(self).cached_lists(),
            mode is UseCache ==> (r matches Err(e) ==> e is Persistence),
            mode is Bypass ==> (r matches Err(e) ==> e is Http || e is Parse),
            r matches Err(e) ==> e is Http || e is Parse || e is Persistence,
    {
        match mode {
            CacheMode::UseCache => {
                let fresh = match &self.lists_cache {
                    Some(entry) => !entry.is_stale(self.ttl.mailing_lists),
                    None => false,
                };
                if fresh {
                    match &self.lists_cache {
                        Some(entry) => {
                            return Ok(duplicate_lists(&entry.lists));
                        },
                        None => {},
                    }
                }
                match self.persistence.load_available_lists() {
                    Ok(lists) => Ok(lists),
                    Err(e) => Err(LoreError::Persistence(e)),
                }
            },
            CacheMode::Refresh => {
                let lists = match self.refresh_available_lists() {
                    Ok(l) => l,
                    Err(e) => {
                        return Err(e);
                    },
                };
                self.lists_cache = Some(MailingListsCacheEntry::new(duplicate_lists(&lists)));
                Ok(lists)
            },
            CacheMode::Bypass => self.lists_from_network(),
        }
    }

    /// The mailing lists saved on disk.
    pub fn load_available_lists(&self) -> (r: Result<Vec<MailingList>, LoreError>)
        ensures
            r matches Err(e) ==> e is Persistence,
    {
        match self.persistence.load_available_lists() {
            Ok(v) => Ok(v),
            Err(e) => Err(LoreError::Persistence(e)),
        }
    }

    pub fn load_bookmarked_patchsets(&self) -> (r: Result<Vec<Patch>, LoreError>)
        ensures
            r matches Err(e) ==> e is Persistence,
    {
        match self.persistence.load_bookmarked_patchsets() {
            Ok(v) => Ok(v),
            Err(e) => Err(LoreError::Persistence(e)),
        }
    }

    pub fn save_bookmarked_patchsets(&self, patchsets: &[Patch]) -> (r: Result<(), LoreError>)
        ensures
            r matches Err(e) ==> e is Persistence,
    {
        match self.persistence.save_bookmarked_patchsets(patchsets) {
            Ok(()) => Ok(()),
            Err(e) => Err(LoreError::Persistence(e)),
        }
    }

    pub fn load_reviewed_patchsets(&self) -> (r: Result<Vec<(String, Vec<usize>)>, LoreError>)
        ensures
            r matches Err(e) ==> e is Persistence,
    {
        match self.persistence.load_reviewed_patchsets() {
            Ok(v) => Ok(v),
            Err(e) => Err(LoreError::Persistence(e)),
        }
    }

    pub fn save_reviewed_patchsets(&self, reviewed: &[(String, Vec<usize>)]) -> (r: Result<
        (),
        LoreError,
    >)
        ensures
            r matches Err(e) ==> e is Persistence,
    {
        match self.persistence.save_reviewed_patchsets(reviewed) {
            Ok(()) => Ok(()),
            Err(e) => Err(LoreError::Persistence(e)),
        }
    }

    /// `(user.name, user.email)` from `git config`.
    pub fn git_signature(&self, git_repo_path: &str) -> (r: (String, String))
        ensures
            exists|a: Option<Seq<u8>>, b: Option<Seq<u8>>| r.0@ == config_value(a) && r.1@
                == config_value(b),
    {
        get_git_signature(&self.shell, git_repo_path)
    }

    /// Everything the application starts from: the lists from the cache
    /// or disk, the bookmarks and the reviewed patches, each empty when it
    /// cannot be had; so it always succeeds.
    pub fn warm_bootstrap_cache(&mut self) -> (r: Result<BootstrapLoreData, LoreError>)
        requires
            old(self).wf(),
        ensures
            r is Ok,
            final(self).wf(),
            final(self).indexes() == old(self).indexes(),
            final(self).cached_lists() == old(self).cached_lists(),
    {
        let mailing_lists = match self.fetch_available_lists(CacheMode::UseCache) {
            Ok(l) => l,
            Err(_) => Vec::new(),
        };
        let bookmarks = match self.load_bookmarked_patchsets() {
            Ok(b) => b,
            Err(_) => Vec::new(),
        };
        let reviewed = match self.load_reviewed_patchsets() {
            Ok(r) => r,
            Err(_) => Vec::new(),
        };
        Ok(BootstrapLoreData { mailing_lists, bookmarks, reviewed })
    }
}

impl<
    L: ListsGateway,
    G: FeedGateway,
    H: PatchHtmlGateway,
    P: LorePersistence,
    Fe: PatchsetFetcher,
    Pa: PatchsetParser,
    X: FeedParser,
    F: FileSystemTrait,
    S: ShellTrait,
> LoreServiceApi for LoreService<L, G, H, P, Fe, Pa, X, F, S> {
    open spec fn valid(&self) -> bool {
        self.wf()
    }

    fn fetch_available_lists(&mut self, mode: CacheMode) -> (r: Result<Vec<MailingList>, LoreError>)
        ensures
            final(self).indexes() == old(self).indexes(),
            mode != CacheMode::UseCache ==> (r matches Ok(v) ==> sorted_by_name(lists_view(v@))),
            mode != CacheMode::UseCache ==> (r matches Ok(v) ==> exists|pages: Seq<Seq<char>>|
                #[trigger] pages_listing(pages, lists_view(v@))),
            mode is Refresh && r is Ok ==> final(self).cached_lists() == Some(lists_view(r->Ok_0@)),
            !(mode is Refresh && r is Ok) ==> final(self).cached_lists() == old(self).cached_lists(),
            mode is UseCache ==> (r matches Err(e) ==> e is Persistence),
            mode is Bypass ==> (r matches Err(e) ==> e is Http || e is Parse),
    {
        LoreService::fetch_available_lists(self, mode)
    }

    fn load_bookmarked_patchsets(&self) -> (r: Result<Vec<Patch>, LoreError>)
        ensures
            r matches Err(e) ==> e is Persistence,
    {
        LoreService::load_bookmarked_patchsets(self)
    }

    fn save_bookmarked_patchsets(&self, patchsets: &[Patch]) -> (r: Result<(), LoreError>)
        ensures
            r matches Err(e) ==> e is Persistence,
    {
        LoreService::save_bookmarked_patchsets(self, patchsets)
    }

    fn load_reviewed_patchsets(&self) -> (r: Result<Vec<(String, Vec<usize>)>, LoreError>)
        ensures
            r matches Err(e) ==> e is Persistence,
    {
        LoreService::load_reviewed_patchsets(self)
    }

    fn save_reviewed_patchsets(&self, reviewed: &[(String, Vec<usize>)]) -> (r: Result<
        (),
        LoreError,
    >)
        ensures
            r matches Err(e) ==> e is Persistence,
    {
        LoreService::save_reviewed_patchsets(self, reviewed)
    }

    fn fetch_next_patch_page(
        &mut self,
        target_list: &str,
        page_size: usize,
        page_number: usize,
    ) -> (r: Result<Vec<Patch>, LoreError>)
        ensures
            final(self).cached_lists() == old(self).cached_lists(),
            r matches Ok(v) ==> final(self).index_for(target_list@) matches Some(ix) && page_ids(
                ix.reps(),
                page_size as int,
                page_number as int,
            ) matches Some(ids) && v@.len() == ids.len() && forall|i: int|
                0 <= i < ids.len() ==> (#[trigger] v@[i]).model() == ix.known()[ids[i]],
            r matches Err(LoreError::EndOfFeed) ==> final(self).index_for(target_list@) matches Some(
                ix,
            ) && page_ids(ix.reps(), page_size as int, page_number as int) is None,
            old(self).index_for(target_list@) matches Some(ix0) && ix0.reps().len() >= page_size
                * page_number ==> r is Ok && final(self).indexes() == old(self).indexes(),
            r matches Err(LoreError::Http(e)) ==> e is Net,
            r matches Err(e) ==> e is Http || e is Parse || e is EndOfFeed,
            (r is Ok || r matches Err(LoreError::EndOfFeed)) ==> paged_from(
                old(self).index_for(target_list@),
                final(self).index_for(target_list@),
            ),
    {
        LoreService::fetch_next_patch_page(self, target_list, page_size, page_number)
    }

    fn reset_feed_cursor(&mut self, target_list: &str)
        ensures
            index_position(old(self).indexes(), target_list@, 0) matches Some(i)
                ==> final(self).indexes() == old(self).indexes().remove(i),
            index_position(old(self).indexes(), target_list@, 0) is None ==> final(self).indexes()
                == old(self).indexes(),
            final(self).cached_lists() == old(self).cached_lists(),
    {
        LoreService::reset_feed_cursor(self, target_list)
    }

    fn fetch_patchset_details(&self, representative_patch: &Patch) -> (r: Result<
        PatchsetDetails,
        LoreError,
    >)
        ensures
            r matches Ok(d) ==> d.representative_patch.model() == representative_patch.model()
                && d.tag_summary@.len() == d.raw_patches@.len() && forall|i: int|
                0 <= i < d.raw_patches@.len() ==> summary_view(#[trigger] d.tag_summary@[i])
                    == tag_summary_spec(d.raw_patches@[i]@),
            r matches Err(e) ==> e is PatchNotFound || e is Parse,
            exists|
                downloaded: Result<Seq<char>, Seq<char>>,
                split: Option<Result<Seq<Seq<char>>, Seq<char>>>,
            |
                #[trigger] details_holds(representative_patch.model(), downloaded, split, r)
                    && split_of_download(self.parser(), downloaded, split),
    {
        LoreService::fetch_patchset_details(self, representative_patch)
    }

    fn prepare_reply_commands(
        &self,
        tmp_dir: &str,
        target_list: &str,
        patches: &[String],
        patches_to_reply: &[bool],
        git_signature: &str,
        git_send_email_options: &str,
    ) -> (r: Result<Vec<ShellCommand>, LoreError>)
        ensures
            r matches Ok(cmds) ==> cmds@.len() == selected(
                patches_to_reply@,
                patches@.len() as int,
            ).len(),
            r matches Ok(cmds) ==> forall|j: int|
                0 <= j < cmds@.len() ==> (#[trigger] cmds@[j]).program@ == "git"@ && cmds@[j].args@.len()
                    > 0 && cmds@[j].args@.last()@ == reply_file(
                    tmp_dir@,
                    group_of(
                        regex_captures(
                            message_id_pattern(),
                            patches@[selected(patches_to_reply@, patches@.len() as int)[j]]@,
                        ),
                        1,
                    )->0,
                ),
            r matches Ok(cmds) ==> forall|j: int|
                0 <= j < cmds@.len() ==> replies_with(
                    #[trigger] cmds@[j],
                    git_send_email_options@,
                    reply_file(
                        tmp_dir@,
                        group_of(
                            regex_captures(
                                message_id_pattern(),
                                patches@[selected(patches_to_reply@, patches@.len() as int)[j]]@,
                            ),
                            1,
                        )->0,
                    ),
                ),
            r matches Ok(cmds) ==> forall|j: int|
                0 <= j < cmds@.len() ==> reply_from_page(
                    self.html_gateway(),
                    target_list@,
                    #[trigger] cmds@[j],
                    git_send_email_options@,
                    tmp_dir@,
                    group_of(
                        regex_captures(
                            message_id_pattern(),
                            patches@[selected(patches_to_reply@, patches@.len() as int)[j]]@,
                        ),
                        1,
                    )->0,
                ),
            !regex_compiles(message_id_pattern()) ==> r is Err,
            regex_compiles(message_id_pattern()) && selected(
                patches_to_reply@,
                patches@.len() as int,
            ).len() == 0 ==> (r matches Ok(cmds) && cmds@.len() == 0),
            r matches Err(e) ==> e is Parse || e is Persistence || e is Http,
            r is Ok ==> forall|j: int|
                0 <= j < selected(patches_to_reply@, patches@.len() as int).len() ==> has_message_id(
                    patches@[#[trigger] selected(patches_to_reply@, patches@.len() as int)[j]]@,
                ),
            r matches Err(LoreError::Parse(m)) ==> m@ == "the Message-Id expression does not compile"@
                || m@ == "the reply command expressions do not compile"@ || (m@
                == "Message-Id header not found"@ && first_selected_without_id(
                patches@,
                patches_to_reply@,
            )),
    {
        LoreService::prepare_reply_commands(
            self,
            tmp_dir,
            target_list,
            patches,
            patches_to_reply,
            git_signature,
            git_send_email_options,
        )
    }

    fn get_git_signature(&self, git_repo_path: &str) -> (r: (String, String))
        ensures
            exists|a: Option<Seq<u8>>, b: Option<Seq<u8>>| r.0@ == config_value(a) && r.1@
                == config_value(b),
    {
        self.git_signature(git_repo_path)
    }

    fn warm_bootstrap_cache(&mut self) -> (r: Result<BootstrapLoreData, LoreError>)
        ensures
            r is Ok,
            final(self).indexes() == old(self).indexes(),
            final(self).cached_lists() == old(self).cached_lists(),
    {
        LoreService::warm_bootstrap_cache(self)
    }
}

/// What fetching a patchset's details comes to, from what the fetcher
/// (the file's path, or the reason it was not found) and the splitter (the
/// raw patches, or its message; asked only after a download) answered: a
/// download failure is `PatchNotFound` with the fetch error's message, a
/// split failure `Parse` with the splitter's message; otherwise the
/// representative, the path, the raw patches as split and one tag summary
/// per raw patch, in order.
pub open spec fn details_holds(
    representative: PatchModel,
    downloaded: Result<Seq<char>, Seq<char>>,
    split: Option<Result<Seq<Seq<char>>, Seq<char>>>,
    r: Result<PatchsetDetails, LoreError>,
) -> bool {
    match downloaded {
        Err(m) => r matches Err(LoreError::PatchNotFound(x)) && x@ == "patchset not found: "@ + m,
        Ok(path) => match split {
            None => false,
            Some(Err(m)) => r matches Err(LoreError::Parse(x)) && x@ == m,
            Some(Ok(raws)) => r matches Ok(d) && d.representative_patch.model() == representative
                && d.patchset_path@ == path && strings_view(d.raw_patches@) == raws
                && d.tag_summary@.len() == raws.len() && forall|i: int|
                0 <= i < raws.len() ==> summary_view(#[trigger] d.tag_summary@[i])
                    == tag_summary_spec(raws[i]),
        },
    }
}

/// After a download the splitter was asked for exactly the downloaded
/// file, and `split` is its answer for that path.
pub open spec fn split_of_download<Pa: PatchsetParser>(
    parser: Pa,
    downloaded: Result<Seq<char>, Seq<char>>,
    split: Option<Result<Seq<Seq<char>>, Seq<char>>>,
) -> bool {
    match downloaded {
        Ok(path) => split matches Some(sr) && parser.split_answer(path, sr),
        Err(_) => split is None,
    }
}

pub open spec fn split_answer_view(split: Option<Result<Vec<String>, String>>) -> Option<
    Result<Seq<Seq<char>>, Seq<char>>,
> {
    match split {
        None => None,
        Some(Ok(v)) => Some(Ok(strings_view(v@))),
        Some(Err(e)) => Some(Err(e@)),
    }
}

/// The details from the fetcher's and the splitter's answers.
pub fn details_from(
    representative_patch: &Patch,
    downloaded: Result<String, PatchFetchError>,
    split: Option<Result<Vec<String>, String>>,
) -> (r: Result<PatchsetDetails, LoreError>)
    requires
        downloaded is Ok ==> split is Some,
    ensures
        details_holds(
            representative_patch.model(),
            match downloaded {
                Ok(p) => Ok::<Seq<char>, Seq<char>>(p@),
                Err(PatchFetchError::NotFound(m)) => Err::<Seq<char>, Seq<char>>(m@),
            },
            split_answer_view(split),
            r,
        ),
{
    let patchset_path = match downloaded {
        Ok(p) => p,
        Err(e) => {
            return Err(LoreError::PatchNotFound(e.message()));
        },
    };
    let raw_patches = match split {
        Some(Ok(v)) => v,
        Some(Err(e)) => {
            return Err(LoreError::Parse(e));
        },
        None => {
            return Err(LoreError::Parse(String::new()));
        },
    };
    let mut tag_summary: Vec<PatchTagSummary> = Vec::new();
    let mut i: usize = 0;
    while i < raw_patches.len()
        invariant
            i <= raw_patches@.len(),
            tag_summary@.len() == i,
            forall|k: int|
                0 <= k < i ==> summary_view(#[trigger] tag_summary@[k]) == tag_summary_spec(
                    raw_patches@[k]@,
                ),
        decreases raw_patches.len() - i,
    {
        tag_summary.push(extract_tag_summary(raw_patches[i].as_str()));
        i += 1;
    }
    Ok(
        PatchsetDetails {
            representative_patch: representative_patch.duplicate(),
            patchset_path,
            raw_patches,
            tag_summary,
        },
    )
}

/// A feed index as its known patches, its representatives and its next
/// offset.
pub open spec fn index_state(ix: PatchFeedIndex) -> (Map<Seq<char>, PatchModel>, Seq<Seq<char>>, nat) {
    (ix.known(), ix.reps(), ix.offset())
}

/// Where paging a list starts: its index, or an empty one at offset 0.
pub open spec fn start_state(ix: Option<PatchFeedIndex>) -> (Map<Seq<char>, PatchModel>, Seq<Seq<char>>, nat) {
    match ix {
        Some(x) => index_state(x),
        None => (Map::empty(), seq![], 0),
    }
}

/// An index after taking in one feed page: its new patches known, their
/// representatives appended, the offset one page further.
pub open spec fn index_step(
    rx: &PatchRegex,
    st: (Map<Seq<char>, PatchModel>, Seq<Seq<char>>, nat),
    page: Seq<PatchModel>,
) -> (Map<Seq<char>, PatchModel>, Seq<Seq<char>>, nat) {
    let (known, ids) = ingest(rx, st.0, page);
    (known, st.1 + new_representatives(known, ids), (st.2 + LORE_PAGE_SIZE) as nat)
}

/// The index `now` is the one `before` (or an empty one) after taking in
/// some feed pages.
pub open spec fn paged_from(before: Option<PatchFeedIndex>, now: Option<PatchFeedIndex>) -> bool {
    now matches Some(fx) && exists|pages: Seq<Seq<PatchModel>>|
        #[trigger] index_after(fx.regex(), start_state(before), pages) == index_state(fx)
}

/// An index after taking in feed pages one after another.
pub open spec fn index_after(
    rx: &PatchRegex,
    st: (Map<Seq<char>, PatchModel>, Seq<Seq<char>>, nat),
    pages: Seq<Seq<PatchModel>>,
) -> (Map<Seq<char>, PatchModel>, Seq<Seq<char>>, nat)
    decreases pages.len(),
{
    if pages.len() == 0 {
        st
    } else {
        index_step(rx, index_after(rx, st, pages.drop_last()), pages.last())
    }
}

/// What refreshing the lists comes to: the network's failure as it came;
/// else the fetched lists are saved, a failed save being a `Persistence`
/// error with its message, and the answer is the lists saved.
pub open spec fn refresh_holds(
    fetched: Result<Seq<(Seq<char>, Seq<char>)>, LoreError>,
    saved: Result<(), Seq<char>>,
    r: Result<Vec<MailingList>, LoreError>,
) -> bool {
    match fetched {
        Err(e) => r == Err::<Vec<MailingList>, LoreError>(e),
        Ok(lists) => match saved {
            Err(m) => r matches Err(LoreError::Persistence(x)) && x@ == m,
            Ok(()) => r matches Ok(v) && lists_view(v@) == lists,
        },
    }
}

/// What one answer of the feed gateway (and, for a page, of the feed
/// parser) means for paging.
pub enum FeedStep {
    /// A page of the feed to take in.
    Ingest(PatchFeed),
    /// The feed has no more entries.
    End,
    /// The gateway or the parser failed.
    Fail(LoreError),
}

/// A feed step from the answers: the gateway's end of feed ends paging,
/// its other errors are `Http`; a page is taken in when it parses, and a
/// parse error is `Parse` with the parser's message.
pub open spec fn feed_step_holds(
    fetched: Result<(), LoreHttpError>,
    parsed: Option<Result<PatchFeed, Seq<char>>>,
    r: FeedStep,
) -> bool {
    match fetched {
        Err(LoreHttpError::EndOfFeed) => r is End,
        Err(LoreHttpError::Net(m)) => r matches FeedStep::Fail(LoreError::Http(LoreHttpError::Net(x)))
            && x@ == m@,
        Ok(()) => match parsed {
            Some(Ok(f)) => r matches FeedStep::Ingest(g) && g == f,
            Some(Err(m)) => r matches FeedStep::Fail(LoreError::Parse(x)) && x@ == m,
            None => r matches FeedStep::Fail(LoreError::Parse(_)),
        },
    }
}

/// The paging step for the gateway's answer and, when it gave a page,
/// the parser's.
pub fn feed_step(
    fetched: Result<String, LoreHttpError>,
    parsed: Option<Result<PatchFeed, String>>,
) -> (r: FeedStep)
    ensures
        feed_step_holds(
            match fetched {
                Ok(_) => Ok::<(), LoreHttpError>(()),
                Err(e) => Err::<(), LoreHttpError>(e),
            },
            match parsed {
                Some(Ok(f)) => Some(Ok::<PatchFeed, Seq<char>>(f)),
                Some(Err(m)) => Some(Err::<PatchFeed, Seq<char>>(m@)),
                None => None,
            },
            r,
        ),
{
    match fetched {
        Err(LoreHttpError::EndOfFeed) => FeedStep::End,
        Err(LoreHttpError::Net(m)) => FeedStep::Fail(LoreError::Http(LoreHttpError::Net(m))),
        Ok(_) => match parsed {
            Some(Ok(f)) => FeedStep::Ingest(f),
            Some(Err(m)) => FeedStep::Fail(LoreError::Parse(m)),
            None => FeedStep::Fail(LoreError::Parse(String::new())),
        },
    }
}

/// `cmd` replies to the message `message_id` of `list` with the file
/// `<tmp_dir>/<message_id>-reply.mbx`: `git send-email`, the given
/// options, the options suggested by the page the gateway answered for
/// that list and message, then the file.
pub open spec fn reply_from_page<H: PatchHtmlGateway>(
    gateway: H,
    list: Seq<char>,
    cmd: ShellCommand,
    options: Seq<char>,
    tmp_dir: Seq<char>,
    message_id: Seq<char>,
) -> bool {
    &&& cmd.program@ == "git"@
    &&& exists|html: Seq<char>|
        #[trigger] gateway.page_answer(list, message_id, Ok(html)) && cmd.args@.map_values(
            |a: String| a@,
        ) == reply_command_args(html, options, reply_file(tmp_dir, message_id))
}

/// A reply command is threaded from the patch's own lore page: after
/// `send-email` and the user's options come exactly the options suggested
/// by a page the gateway answered for that list and message id, and last
/// the reply file named after that message id.
pub proof fn lemma_reply_threads_from_the_patch_page<H: PatchHtmlGateway>(
    gateway: H,
    list: Seq<char>,
    cmd: ShellCommand,
    options: Seq<char>,
    tmp_dir: Seq<char>,
    message_id: Seq<char>,
)
    requires
        reply_from_page(gateway, list, cmd, options, tmp_dir, message_id),
    ensures
        exists|html: Seq<char>|
            #[trigger] gateway.page_answer(list, message_id, Ok(html)) && {
                let args = cmd.args@.map_values(|a: String| a@);
                let n = ws_words(options).len() as int;
                &&& args.len() == 2 + n + suggested_options(html).len()
                &&& args[0] == "send-email"@
                &&& args.subrange(1, 1 + n) == ws_words(options)
                &&& args.subrange(1 + n, args.len() - 1) == suggested_options(html)
                &&& args.last() == reply_file(tmp_dir, message_id)
            },
{
    let html = choose|html: Seq<char>|
        #[trigger] gateway.page_answer(list, message_id, Ok(html)) && cmd.args@.map_values(
            |a: String| a@,
        ) == reply_command_args(html, options, reply_file(tmp_dir, message_id));
    let args = cmd.args@.map_values(|a: String| a@);
    let n = ws_words(options).len() as int;
    assert(args.subrange(1, 1 + n) =~= ws_words(options));
    assert(args.subrange(1 + n, args.len() - 1) =~= suggested_options(html));
}

/// The details of a patchset are the splitter's answer for the very file
/// the fetcher downloaded: their path is the downloaded path, and their
/// raw patches what the splitter answers for that path.
pub proof fn lemma_details_are_the_split_of_the_download<Pa: PatchsetParser>(
    parser: Pa,
    representative: PatchModel,
    downloaded: Result<Seq<char>, Seq<char>>,
    split: Option<Result<Seq<Seq<char>>, Seq<char>>>,
    r: Result<PatchsetDetails, LoreError>,
)
    requires
        details_holds(representative, downloaded, split, r),
        split_of_download(parser, downloaded, split),
    ensures
        r matches Ok(d) ==> downloaded == Ok::<Seq<char>, Seq<char>>(d.patchset_path@)
            && parser.split_answer(d.patchset_path@, Ok(strings_view(d.raw_patches@))),
        r matches Err(LoreError::Parse(m)) ==> downloaded matches Ok(p) && parser.split_answer(
            p,
            Err(m@),
        ),
{
}

/// `cmd` replies with the file at `reply_path`: `git send-email`, the
/// given options, the options lore's page of the patch suggests, then the
/// file.
pub open spec fn replies_with(cmd: ShellCommand, options: Seq<char>, reply_path: Seq<char>) -> bool {
    &&& cmd.program@ == "git"@
    &&& exists|html: Seq<char>|
        cmd.args@.map_values(|a: String| a@) == #[trigger] reply_command_args(
            html,
            options,
            reply_path,
        )
}

/// The pages fetched list some lists each up to a last one that lists
/// none, and `v` is their lists in page order.
pub open spec fn pages_unsorted(pages: Seq<Seq<char>>, v: Seq<(Seq<char>, Seq<char>)>) -> bool {
    &&& pages.len() >= 1
    &&& available_lists_spec(pages.last()) == Some(Seq::<(Seq<char>, Seq<char>)>::empty())
    &&& forall|i: int|
        0 <= i < pages.len() - 1 ==> (available_lists_spec(#[trigger] pages[i]) matches Some(l)
            && l.len() > 0)
    &&& concat_pages(pages) == Some(v)
}

/// The indexes among the first `n` flags that are set, in order.
pub open spec fn selected(flags: Seq<bool>, n: int) -> Seq<int>
    decreases n,
{
    if n <= 0 {
        seq![]
    } else if flags[n - 1] {
        selected(flags, n - 1).push(n - 1)
    } else {
        selected(flags, n - 1)
    }
}

/// A patch has a `Message-Id: <..>` header line.
pub open spec fn has_message_id(patch: Seq<char>) -> bool {
    group_of(regex_captures(message_id_pattern(), patch), 1) is Some
}

/// Some selected patch lacks a `Message-Id:` header while every selected
/// patch before it has one.
pub open spec fn first_selected_without_id(patches: Seq<String>, flags: Seq<bool>) -> bool {
    let sel = selected(flags, patches.len() as int);
    exists|j: int|
        0 <= j < sel.len() && !has_message_id(patches[#[trigger] sel[j]]@) && forall|k: int|
            0 <= k < j ==> has_message_id(patches[#[trigger] sel[k]]@)
}

proof fn lemma_selected_extends(flags: Seq<bool>, a: int, b: int)
    requires
        0 <= a <= b,
    ensures
        selected(flags, a).len() <= selected(flags, b).len(),
        forall|j: int|
            0 <= j < selected(flags, a).len() ==> #[trigger] selected(flags, b)[j] == selected(
                flags,
                a,
            )[j],
    decreases b - a,
{
    if a < b {
        lemma_selected_extends(flags, a, b - 1);
        let p = selected(flags, b - 1);
        assert forall|j: int| 0 <= j < p.len() implies #[trigger] selected(flags, b)[j] == p[j] by {}
    }
}

proof fn lemma_selected_empty(flags: Seq<bool>, n: int)
    requires
        0 <= n,
    ensures
        selected(flags, n).len() == 0 ==> forall|k: int| 0 <= k < n ==> !#[trigger] flags[k],
    decreases n,
{
    if n > 0 {
        lemma_selected_empty(flags, n - 1);
    }
}

proof fn lemma_selected_prefix(flags: Seq<bool>, n: int)
    requires
        0 <= n,
    ensures
        forall|j: int| 0 <= j < selected(flags, n).len() ==> 0 <= #[trigger] selected(flags, n)[j] < n,
    decreases n,
{
    if n > 0 {
        lemma_selected_prefix(flags, n - 1);
        let p = selected(flags, n - 1);
        assert forall|j: int| 0 <= j < selected(flags, n).len() implies 0 <= #[trigger] selected(
            flags,
            n,
        )[j] < n by {
            if j < p.len() {
                assert(selected(flags, n)[j] == p[j]);
            }
        }
    }
}

/// The trailers of a summary, as text.
pub open spec fn summary_view(s: PatchTagSummary) -> TrailerSets {
    (authors_view(s.reviewed_by@), authors_view(s.tested_by@), authors_view(s.acked_by@))
}

/// The text of the reply to a patch.
pub fn reply_contents(patch: &str, git_signature: &str) -> (r: String)
    ensures
        r@ == reply_text(patch@, git_signature@),
{
    let mut reply = generate_reply_template(patch);
    reply.append("\nReviewed-by: ");
    reply.append(git_signature);
    reply.append("\n");
    reply
}

proof fn lemma_index_position_found(s: Seq<PatchFeedIndex>, list: Seq<char>, from: int, pos: int)
    requires
        0 <= from,
        index_position(s, list, from) == Some(pos),
    ensures
        from <= pos < s.len(),
        s[pos].list() == list,
        forall|k: int| from <= k < pos ==> s[k].list() != list,
    decreases s.len() - from,
{
    if from < s.len() && s[from].list() != list {
        lemma_index_position_found(s, list, from + 1, pos);
    }
}

proof fn lemma_index_position_update(
    s: Seq<PatchFeedIndex>,
    list: Seq<char>,
    from: int,
    pos: int,
    x: PatchFeedIndex,
)
    requires
        0 <= from <= pos < s.len(),
        x.list() == list,
        forall|k: int| from <= k < pos ==> s[k].list() != list,
    ensures
        index_position(s.update(pos, x), list, from) == Some(pos),
    decreases pos - from,
{
    if from < pos {
        lemma_index_position_update(s, list, from + 1, pos, x);
    }
}

proof fn lemma_index_position_push(
    before: Seq<PatchFeedIndex>,
    after: Seq<PatchFeedIndex>,
    list: Seq<char>,
    from: int,
)
    requires
        0 <= from <= before.len(),
        after.len() == before.len() + 1,
        forall|k: int| 0 <= k < before.len() ==> after[k] == before[k],
        index_position(before, list, from) is None,
        after[before.len() as int].list() == list,
    ensures
        index_position(after, list, from) == Some(before.len() as int),
    decreases before.len() - from,
{
    if from < before.len() {
        assert(after[from] == before[from]);
        lemma_index_position_push(before, after, list, from + 1);
    }
}

} // verus!
