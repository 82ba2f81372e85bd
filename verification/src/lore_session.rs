//! A lore session over one mailing list: the patch feed read page by page,
//! its representative patches, and the files and commands of a review.
use vstd::prelude::*;

use crate::kw::status::opt_string_view;
use crate::infra::{FileSystemTrait, ShellCommand, ShellTrait};
use crate::lore::application::service::{
    config_value, get_git_signature as service_git_signature, message_id_pattern, reply_contents,
    reply_file,
};
use crate::lore::domain::patch::{patch_regexes_compile, 
    fits, metadata_model, number_digits, number_or, read_number, read_patch_tag, tag_numbers_fit,
    tag_of, total_digits, version_digits, Patch as DomainPatch, PatchFeed as DomainFeed,
    PatchModel, PatchRegex,
};
use crate::lore::domain::patchset::{
    ingest, models_of, new_representatives, PatchFeedIndex, LORE_PAGE_SIZE,
};
use crate::lore::infrastructure::parsers::{available_lists_spec, concat_pages, parse_available_lists};
use crate::lore::infrastructure::patchset_fetcher::{
    b4_command, cached_file, extract_mbox_name_from_message_id,
};
use crate::lore::infrastructure::patchset_parser::{
    cover_letter_path, split_outcome, split_result_view, extract_git_reply_command, mbox_patches, split_error, split_patchset_with,
    strings_view,
};
use crate::lore_api_client::{AvailableListsRequest, ClientError, PatchFeedRequest, PatchHTMLRequest};
use crate::mailing_list::{lists_view, sort_by_name, sort_mailing_lists, sorted_by_name, MailingList};
use crate::patch::{Patch, PatchFeed};
use crate::pattern::{capture_group, compile_regex, group_of, regex_captures, regex_compiles};
use crate::text::{path_join_exec, str_to_string};

verus! {

// ───────────────────────────── the session ─────────────────────────────

/// Reads a feed page's XML into patches; the error is the reader's
/// message.
pub trait PatchFeedDecoder {
    fn decode_patch_feed(&self, xml: &str) -> Result<PatchFeed, String>;
}

/// Why reading more of the feed stopped.
#[derive(Debug, Clone, PartialEq, Eq)]
pub enum FailedFeedRequest {
    /// The request failed, or the feed ended.
    Request(ClientError),
    /// The page is not a feed; the reader's message.
    Malformed(String),
    /// A patch's tag holds a number that does not fit in 32 bits.
    NumberTooLarge,
    /// The next feed offset does not fit in a `usize`.
    OffsetOverflow,
}

pub open spec fn fits_u32(m: PatchModel) -> bool {
    m.1 <= u32::MAX && m.2 <= u32::MAX && m.3 <= u32::MAX
}

pub open spec fn all_fit_u32(known: Map<Seq<char>, PatchModel>) -> bool {
    forall|k: Seq<char>| known.dom().contains(k) ==> fits_u32(#[trigger] known[k])
}

pub open spec fn top_models(s: Seq<Patch>) -> Seq<PatchModel> {
    s.map_values(|p: Patch| p.model())
}

/// The links of page `n` (from 1) of `size` representatives, as the
/// session cuts them: `None` unless the page starts before the last
/// representative.
pub open spec fn session_page_ids(reps: Seq<Seq<char>>, size: int, n: int) -> Option<
    Seq<Seq<char>>,
> {
    let lower = size * (n - 1);
    if reps.len() - 1 <= lower {
        None
    } else {
        let upper = if size * n > reps.len() {
            reps.len() as int
        } else {
            size * n
        };
        Some(reps.subrange(lower, upper))
    }
}

proof fn lemma_metadata_fits(rx: &PatchRegex, m: PatchModel)
    requires
        fits_u32(m),
        tag_numbers_fit(rx, m.0, u32::MAX as nat),
    ensures
        fits_u32(metadata_model(rx, m)),
{
}

proof fn lemma_ingest_fits(rx: &PatchRegex, known: Map<Seq<char>, PatchModel>, feed: Seq<PatchModel>)
    requires
        all_fit_u32(known),
        forall|i: int|
            0 <= i < feed.len() ==> fits_u32(#[trigger] feed[i]) && tag_numbers_fit(
                rx,
                feed[i].0,
                u32::MAX as nat,
            ),
    ensures
        all_fit_u32(ingest(rx, known, feed).0),
    decreases feed.len(),
{
    if feed.len() > 0 {
        lemma_ingest_fits(rx, known, feed.drop_last());
        lemma_metadata_fits(rx, feed.last());
    }
}

/// Whether every number of the title's tag fits in 32 bits.
pub fn tag_fits_u32(rx: &PatchRegex, title: &str) -> (r: bool)
    ensures
        r == tag_numbers_fit(rx, title@, u32::MAX as nat),
{
    match read_patch_tag(rx, title) {
        Some(tag) => {
            let max = u32::MAX as u64;
            read_number(&tag.version, 0, max).is_some() && read_number(
                &tag.number_in_series,
                0,
                max,
            ).is_some() && read_number(&tag.total_in_series, 0, max).is_some()
        },
        None => true,
    }
}

/// The feed of one mailing list read so far: the patches seen, by link,
/// the representatives among them in feed order, and where the next feed
/// request starts.
pub struct LoreSession {
    index: PatchFeedIndex,
}

impl LoreSession {
    /// The index is well formed and every number fits in 32 bits.
    pub closed spec fn wf(&self) -> bool {
        self.index.wf() && all_fit_u32(self.index.known())
    }

    pub closed spec fn reps(&self) -> Seq<Seq<char>> {
        self.index.reps()
    }

    pub closed spec fn known(&self) -> Map<Seq<char>, PatchModel> {
        self.index.known()
    }

    pub closed spec fn min_index(&self) -> nat {
        self.index.offset()
    }

    pub closed spec fn list(&self) -> Seq<char> {
        self.index.list()
    }

    pub closed spec fn regex(&self) -> &PatchRegex {
        self.index.regex()
    }

    /// A fresh session for `target_list`; `None` if the patch tag
    /// expressions do not compile.
    pub fn new(target_list: String) -> (r: Option<LoreSession>)
        ensures
            r is Some <==> patch_regexes_compile(),
            r matches Some(s) ==> s.wf() && s.list() == target_list@ && s.min_index() == 0
                && s.reps().len() == 0 && s.known() == Map::<Seq<char>, PatchModel>::empty(),
    {
        match PatchFeedIndex::new(target_list) {
            Some(index) => Some(LoreSession { index }),
            None => None,
        }
    }

    pub fn get_representative_patches_ids(&self) -> (r: &Vec<String>)
        ensures
            r@.map_values(|s: String| s@) == self.reps(),
    {
        self.index.representative_patch_ids()
    }

    /// The patch with link `message_id`, if it was seen.
    pub fn get_processed_patch(&self, message_id: &str) -> (r: Option<Patch>)
        requires
            self.wf(),
        ensures
            r is Some <==> self.known().dom().contains(message_id@),
            r matches Some(p) ==> p.model() == self.known()[message_id@],
    {
        match self.index.get_patch(message_id) {
            Some(p) => {
                assert(fits_u32(self.known()[message_id@]));
                Some(Patch::from_domain(p))
            },
            None => None,
        }
    }

    /// Adds a feed page, as the index does, when every patch's tag numbers
    /// fit in 32 bits; otherwise the session is left as it is and `false`
    /// returned.
    pub fn process_feed_page(&mut self, feed: PatchFeed) -> (r: bool)
        requires
            old(self).wf(),
        ensures
            final(self).wf(),
            final(self).list() == old(self).list(),
            final(self).regex() == old(self).regex(),
            final(self).min_index() == old(self).min_index(),
            r == forall|i: int|
                0 <= i < feed.spec_patches().len() ==> tag_numbers_fit(
                    old(self).regex(),
                    (#[trigger] feed.spec_patches()[i]).spec_title(),
                    u32::MAX as nat,
                ),
            !r ==> final(self).known() == old(self).known() && final(self).reps() == old(
                self,
            ).reps(),
            r ==> final(self).known() == ingest(
                old(self).regex(),
                old(self).known(),
                top_models(feed.spec_patches()),
            ).0,
            r ==> final(self).reps() == old(self).reps() + new_representatives(
                final(self).known(),
                ingest(old(self).regex(), old(self).known(), top_models(feed.spec_patches())).1,
            ),
    {
        let ghost tops = feed.spec_patches();
        let patches = feed.get_patches();
        let mut converted: Vec<DomainPatch> = Vec::new();
        let mut ok = true;
        let mut i: usize = 0;
        while i < patches.len()
            invariant
                i <= patches@.len(),
                patches@ == tops,
                converted@.len() == i,
                forall|k: int| 0 <= k < i ==> (#[trigger] converted@[k]).model() == tops[k].model(),
                ok == forall|k: int|
                    0 <= k < i ==> tag_numbers_fit(
                        self.regex(),
                        (#[trigger] tops[k]).spec_title(),
                        u32::MAX as nat,
                    ),
            decreases patches.len() - i,
        {
            let fits_here = tag_fits_u32(self.index.patch_regex_ref(), patches[i].get_title());
            ok = ok && fits_here;
            converted.push(patches[i].to_domain());
            i += 1;
        }
        if !ok {
            return false;
        }
        proof {
            assert(models_of(converted@) =~= top_models(tops));
            assert forall|k: int| 0 <= k < converted@.len() implies tag_numbers_fit(
                self.regex(),
                (#[trigger] converted@[k]).spec_title(),
                usize::MAX as nat,
            ) by {
                assert(converted@[k].model().0 == tops[k].model().0);
                assert(tag_numbers_fit(self.regex(), tops[k].spec_title(), u32::MAX as nat));
            }
            assert forall|k: int| 0 <= k < top_models(tops).len() implies fits_u32(
                #[trigger] top_models(tops)[k],
            ) && tag_numbers_fit(self.regex(), top_models(tops)[k].0, u32::MAX as nat) by {
                tops[k].lemma_model_fits_u32();
                assert(tag_numbers_fit(self.regex(), tops[k].spec_title(), u32::MAX as nat));
            }
            lemma_ingest_fits(self.regex(), self.known(), top_models(tops));
        }
        let dfeed = DomainFeed::new(converted);
        self.index.process_feed_page(dfeed);
        true
    }

    /// Reads feed pages of the session's list until it has `n`
    /// representatives. Stops at the first failed request (the end of the
    /// feed among them), page that is not a feed, tag number that does not
    /// fit, or offset that would overflow.
    pub fn process_n_representative_patches<T: PatchFeedRequest, D: PatchFeedDecoder>(
        &mut self,
        lore_api_client: &T,
        decoder: &D,
        n: usize,
    ) -> (r: Result<(), FailedFeedRequest>)
        requires
            old(self).wf(),
        ensures
            final(self).wf(),
            final(self).list() == old(self).list(),
            final(self).regex() == old(self).regex(),
            old(self).reps().is_prefix_of(final(self).reps()),
            r is Ok ==> final(self).reps().len() >= n,
            old(self).reps().len() >= n ==> r is Ok && final(self).reps() == old(self).reps()
                && final(self).known() == old(self).known(),
    {
        while self.index.representative_patch_ids().len() < n
            invariant
                self.wf(),
                self.list() == old(self).list(),
                self.regex() == old(self).regex(),
                old(self).reps().is_prefix_of(self.reps()),
                old(self).reps().len() >= n ==> self.reps() == old(self).reps() && self.known()
                    == old(self).known(),
            decreases usize::MAX - self.min_index(),
        {
            let body = match lore_api_client.request_patch_feed(
                self.index.target_list(),
                self.index.next_offset(),
            ) {
                Ok(b) => b,
                Err(e) => {
                    return Err(FailedFeedRequest::Request(e));
                },
            };
            let feed = match decoder.decode_patch_feed(body.as_str()) {
                Ok(f) => f,
                Err(e) => {
                    return Err(FailedFeedRequest::Malformed(e));
                },
            };
            let ghost before = self.reps();
            if !self.process_feed_page(feed) {
                return Err(FailedFeedRequest::NumberTooLarge);
            }
            assert(before.is_prefix_of(self.reps()));
            if self.index.next_offset() > usize::MAX - LORE_PAGE_SIZE {
                return Err(FailedFeedRequest::OffsetOverflow);
            }
            self.index.advance_offset();
        }
        Ok(())
    }

    /// The patches of page `page_number` (from 1) of `page_size`
    /// representatives; `None` unless the page starts before the last
    /// representative.
    pub fn get_patch_feed_page(&self, page_size: usize, page_number: usize) -> (r: Option<
        Vec<Patch>,
    >)
        requires
            self.wf(),
            self.reps().len() >= 1,
            page_size >= 1 || self.reps().len() == 1,
            page_number >= 1,
            page_size * page_number <= usize::MAX,
        ensures
            session_page_ids(self.reps(), page_size as int, page_number as int) is None
                ==> r is None,
            session_page_ids(self.reps(), page_size as int, page_number as int) matches Some(ids)
                ==> r matches Some(v) && v@.len() == ids.len() && forall|i: int|
                0 <= i < ids.len() ==> (#[trigger] v@[i]).model() == self.known()[ids[i]],
    {
        proof {
            self.index.lemma_reps_known();
        }
        let ids_vec = self.index.representative_patch_ids();
        let max_index = ids_vec.len() - 1;
        assert(page_size * (page_number - 1) <= page_size * page_number) by (nonlinear_arith)
            requires
                page_number >= 1,
        ;
        assert(page_size * (page_number - 1) == page_size * page_number - page_size) by (
        nonlinear_arith);
        let lower_end = page_size * (page_number - 1);
        let mut upper_end = page_size * page_number;
        if max_index <= lower_end {
            return None;
        }
        if max_index < upper_end - 1 {
            upper_end = max_index + 1;
        }
        let ghost ids = self.reps().subrange(lower_end as int, upper_end as int);
        let mut page: Vec<Patch> = Vec::new();
        let mut i = lower_end;
        while i < upper_end
            invariant
                lower_end <= i <= upper_end <= ids_vec@.len(),
                ids_vec@.map_values(|s: String| s@) == self.reps(),
                self.wf(),
                ids == self.reps().subrange(lower_end as int, upper_end as int),
                page@.len() == i - lower_end,
                forall|x: int|
                    0 <= x < self.reps().len() ==> self.known().dom().contains(
                        #[trigger] self.reps()[x],
                    ),
                forall|x: int|
                    0 <= x < page@.len() ==> (#[trigger] page@[x]).model() == self.known()[ids[x]],
            decreases upper_end - i,
        {
            let id = ids_vec[i].as_str();
            assert(self.reps()[i as int] == id@);
            match self.get_processed_patch(id) {
                Some(p) => {
                    page.push(p);
                },
                None => {
                    assert(false);
                },
            }
            i += 1;
        }
        Some(page)
    }
}

// ───────────────────────────── files and commands ─────────────────────────────

/// Splits the patchset file at `patchset_path_str` into its patches, the
/// cover letter's first when its `.cover` file exists.
pub fn split_patchset<F: FileSystemTrait>(fs: &F, patchset_path_str: &str) -> (r: Result<
    Vec<String>,
    String,
>)
    ensures
        exists|
            exists: bool,
            is_file: bool,
            cover_present: bool,
            cover: Option<Seq<char>>,
            mbox: Option<Seq<char>>,
        |
            split_result_view(r) == split_outcome(
                patchset_path_str@,
                exists,
                is_file,
                cover_present,
                cover,
                mbox,
            ),
        r matches Err(e) ==> e@ == split_error(patchset_path_str@, "Path doesn't exist"@) || e@
            == split_error(patchset_path_str@, "Not a file"@) || e@ == split_error(
            patchset_path_str@,
            "Could not be read"@,
        ) || e@ == split_error(cover_letter_path(patchset_path_str@), "Could not be read"@),
        r matches Ok(ps) ==> exists|cover: Seq<char>, mbox: Seq<char>|
            strings_view(ps@) == mbox_patches(cover) + mbox_patches(mbox),
{
    split_patchset_with(fs, patchset_path_str)
}

/// What downloading a patchset file comes to: the file system's error when
/// the directory was missing and could not be created; an error when the
/// file was not there and `b4` could not be run; else the file's path.
pub open spec fn download_outcome(
    file: Seq<char>,
    dir_error: Option<Seq<char>>,
    existed: bool,
    b4_ran: bool,
) -> Result<Seq<char>, Seq<char>> {
    match dir_error {
        Some(e) => Err(e),
        None => if !existed && !b4_ran {
            Err("b4 could not be run"@)
        } else {
            Ok(file)
        },
    }
}

pub open spec fn string_result_view(r: Result<String, String>) -> Result<Seq<char>, Seq<char>> {
    match r {
        Ok(p) => Ok(p@),
        Err(e) => Err(e@),
    }
}

/// The download's answer from what was reported, for the file at `file`.
pub fn download_verdict(file: String, dir_error: Option<String>, existed: bool, b4_ran: bool) -> (r:
    Result<String, String>)
    ensures
        string_result_view(r) == download_outcome(file@, opt_string_view(dir_error), existed, b4_ran),
{
    match dir_error {
        Some(e) => Err(e),
        None => if !existed && !b4_ran {
            Err(String::from_str("b4 could not be run"))
        } else {
            Ok(file)
        },
    }
}

/// Downloads the patchset of `patch` into `output_dir` with `b4`, unless
/// its file is there already (b4 only runs then), and gives the file's
/// path: [`download_outcome`] of what the file system and the shell
/// reported.
pub fn download_patchset<S: ShellTrait, F: FileSystemTrait>(
    shell: &S,
    fs: &F,
    output_dir: &str,
    patch: &Patch,
) -> (r: Result<String, String>)
    ensures
        exists|dir_error: Option<Seq<char>>, existed: bool, b4_ran: bool|
            string_result_view(r) == download_outcome(
                cached_file(output_dir@, patch.spec_message_id().href@),
                dir_error,
                existed,
                b4_ran,
            ),
        r matches Ok(p) ==> p@ == cached_file(output_dir@, patch.spec_message_id().href@),
{
    let message_id = patch.get_message_id().href.as_str();
    let mbox_name = extract_mbox_name_from_message_id(message_id);
    let mut filepath = str_to_string(output_dir);
    filepath.append("/");
    filepath.append(mbox_name.as_str());
    let ghost file = cached_file(output_dir@, patch.spec_message_id().href@);
    if !fs.path_exists(output_dir) {
        match fs.create_dir_all(output_dir) {
            Ok(()) => {},
            Err(e) => {
                let ghost ev = e@;
                let r = download_verdict(filepath, Some(e), false, false);
                assert(string_result_view(r) == download_outcome(file, Some(ev), false, false));
                return r;
            },
        }
    }
    let existed = fs.path_exists(filepath.as_str());
    let mut b4_ran = false;
    if !existed {
        let cmd = b4_command(patch.get_version() as usize, message_id, output_dir, mbox_name.as_str());
        b4_ran = shell.execute(&cmd).is_some();
    }
    let r = download_verdict(filepath, None, existed, b4_ran);
    assert(string_result_view(r) == download_outcome(file, None, existed, b4_ran));
    r
}

/// `v` is made of pages read one after another, each listing some lists:
/// all their lists ordered by name.
pub open spec fn read_pages_listing(pages: Seq<Seq<char>>, v: Seq<(Seq<char>, Seq<char>)>) -> bool {
    &&& forall|i: int|
        0 <= i < pages.len() ==> (available_lists_spec(#[trigger] pages[i]) matches Some(l) && l.len()
            > 0)
    &&& concat_pages(pages) matches Some(all) && v == sort_by_name(all)
}

/// Every archived mailing list, page after page until a page lists none
/// or cannot be read, ordered by name.
pub fn fetch_available_lists<T: AvailableListsRequest>(lore_api_client: &T) -> (r: Result<
    Vec<MailingList>,
    ClientError,
>)
    ensures
        r matches Ok(v) ==> sorted_by_name(lists_view(v@)),
        r matches Ok(v) ==> exists|pages: Seq<Seq<char>>| #[trigger] read_pages_listing(pages, lists_view(v@)),
{
    let mut available_lists: Vec<MailingList> = Vec::new();
    let mut min_index: usize = 0;
    let ghost mut pages: Seq<Seq<char>> = seq![];
    loop
        invariant
            forall|i: int|
                0 <= i < pages.len() ==> (available_lists_spec(#[trigger] pages[i]) matches Some(l)
                    && l.len() > 0),
            concat_pages(pages) == Some(lists_view(available_lists@)),
        decreases usize::MAX - min_index,
    {
        let page_text = match lore_api_client.request_available_lists(min_index) {
            Ok(t) => t,
            Err(e) => {
                return Err(e);
            },
        };
        let mut page = match parse_available_lists(page_text.as_str()) {
            Some(p) => p,
            None => Vec::new(),
        };
        if page.len() == 0 {
            break;
        }
        let ghost before = pages;
        let ghost av = lists_view(available_lists@);
        let ghost pv = lists_view(page@);
        proof {
            pages = pages.push(page_text@);
            assert(pages.drop_last() =~= before);
        }
        available_lists.append(&mut page);
        assert(lists_view(available_lists@) =~= av + pv);
        assert forall|i: int| 0 <= i < pages.len() implies (available_lists_spec(
            #[trigger] pages[i],
        ) matches Some(l) && l.len() > 0) by {
            if i < before.len() {
                assert(pages[i] == before[i]);
            }
        }
        if min_index > usize::MAX - LORE_PAGE_SIZE {
            break;
        }
        min_index = min_index + LORE_PAGE_SIZE;
    }
    let ghost unsorted = lists_view(available_lists@);
    sort_mailing_lists(&mut available_lists);
    let ghost sorted = lists_view(available_lists@);
    assert(read_pages_listing(pages, sorted));
    let r: Result<Vec<MailingList>, ClientError> = Ok(available_lists);
    assert(r matches Ok(v) && lists_view(v@) == sorted);
    r
}

/// Why replies could not be prepared.
#[derive(Debug, Clone, PartialEq, Eq)]
pub enum PrepareReplyError {
    /// A patch's page could not be fetched.
    Request(ClientError),
    /// A patch has no `Message-Id:` header.
    MissingMessageId,
    /// A reply file could not be written; the file system's message.
    Write(String),
    /// The regex crate refused an expression.
    Expression,
}

/// For each patch, writes its reply (the reply template and a
/// `Reviewed-by` trailer) to `<tmp_dir>/<message id>-reply.mbx` and builds
/// the `git send-email --dry-run --suppress-cc=all` command that sends it,
/// with the options lore's page suggests.
pub fn prepare_reply_patchset_with_reviewed_by<T: PatchHTMLRequest, F: FileSystemTrait>(
    lore_api_client: &T,
    fs: &F,
    tmp_dir: &str,
    target_list: &str,
    patches: &[String],
    git_signature: &str,
) -> (r: Result<Vec<ShellCommand>, PrepareReplyError>)
    ensures
        r matches Ok(cmds) ==> cmds@.len() == patches@.len() && forall|j: int|
            0 <= j < cmds@.len() ==> (#[trigger] cmds@[j]).program@ == "git"@
                && cmds@[j].args@.len() >= 4 && cmds@[j].args@[0]@ == "send-email"@
                && cmds@[j].args@[1]@ == "--dry-run"@ && cmds@[j].args@[2]@ == "--suppress-cc=all"@
                && cmds@[j].args@.last()@ == reply_file(
                tmp_dir@,
                group_of(regex_captures(message_id_pattern(), patches@[j]@), 1)->0,
            ),
        !regex_compiles(message_id_pattern()) ==> r == Err::<Vec<ShellCommand>, PrepareReplyError>(
            PrepareReplyError::Expression,
        ),
        regex_compiles(message_id_pattern()) && patches@.len() == 0 ==> (r matches Ok(cmds)
            && cmds@.len() == 0),
        regex_compiles(message_id_pattern()) && patches@.len() > 0 && group_of(
            regex_captures(message_id_pattern(), patches@[0]@),
            1,
        ) is None ==> r == Err::<Vec<ShellCommand>, PrepareReplyError>(
            PrepareReplyError::MissingMessageId,
        ),
{
    let re = match compile_regex("(?m)^Message-Id: <(.*?)>") {
        Some(re) => re,
        None => {
            return Err(PrepareReplyError::Expression);
        },
    };
    let no_options = "";
    proof {
        reveal_strlit("");
    }
    assert(crate::text::ws_words(no_options@) =~= seq![]);
    let mut commands: Vec<ShellCommand> = Vec::new();
    let mut i: usize = 0;
    while i < patches.len()
        invariant
            i <= patches@.len(),
            re@ == message_id_pattern(),
            regex_compiles(message_id_pattern()),
            crate::text::ws_words(no_options@) == Seq::<Seq<char>>::empty(),
            commands@.len() == i,
            i > 0 ==> group_of(regex_captures(message_id_pattern(), patches@[0]@), 1) is Some,
            forall|j: int|
                0 <= j < i ==> (#[trigger] commands@[j]).program@ == "git"@
                    && commands@[j].args@.len() >= 4 && commands@[j].args@[0]@ == "send-email"@
                    && commands@[j].args@[1]@ == "--dry-run"@ && commands@[j].args@[2]@
                    == "--suppress-cc=all"@ && commands@[j].args@.last()@ == reply_file(
                    tmp_dir@,
                    group_of(regex_captures(message_id_pattern(), patches@[j]@), 1)->0,
                ),
        decreases patches.len() - i,
    {
        let patch = patches[i].as_str();
        let message_id = match capture_group(&re, patch, 1) {
            Some(m) => m,
            None => {
                return Err(PrepareReplyError::MissingMessageId);
            },
        };
        let mut file_name = message_id.clone();
        file_name.append("-reply.mbx");
        let reply_path = path_join_exec(tmp_dir, file_name.as_str());
        let reply = reply_contents(patch, git_signature);
        match fs.write(reply_path.as_str(), reply.as_str().as_bytes()) {
            Ok(()) => {},
            Err(e) => {
                return Err(PrepareReplyError::Write(e));
            },
        }
        let patch_html = match lore_api_client.request_patch_html(target_list, message_id.as_str()) {
            Ok(h) => h,
            Err(e) => {
                return Err(PrepareReplyError::Request(e));
            },
        };
        let suggested = match extract_git_reply_command(
            patch_html.as_str(),
            no_options,
            reply_path.as_str(),
        ) {
            Some(c) => c,
            None => {
                return Err(PrepareReplyError::Expression);
            },
        };
        proof {
            let ghost args = suggested.args@.map_values(|a: String| a@);
            assert(args.last() == reply_path@);
            assert(suggested.args@.last()@ == args.last());
            assert(args[0] == "send-email"@);
            assert(suggested.args@[0]@ == args[0]);
        }
        let ShellCommand { program, mut args } = suggested;
        let ghost before = args@;
        args.insert(1, String::from_str("--dry-run"));
        args.insert(2, String::from_str("--suppress-cc=all"));
        assert(args@.last() == before.last());
        assert(args@[0] == before[0]);
        let command = ShellCommand { program, args };
        commands.push(command);
        i += 1;
    }
    Ok(commands)
}

/// `(user.name, user.email)` from `git config` for a repository path, or
/// from the global configuration for an empty path.
pub fn get_git_signature<S: ShellTrait>(shell: &S, git_repo_path: &str) -> (r: (String, String))
    ensures
        exists|a: Option<Seq<u8>>, b: Option<Seq<u8>>| r.0@ == config_value(a) && r.1@
            == config_value(b),
{
    service_git_signature(shell, git_repo_path)
}

} // verus!
