//! Feed pagination for one mailing list: which patches were seen, which of
//! them represent a patchset, and where the next feed request starts.
use vstd::prelude::*;

use crate::lore::domain::patch::{patch_regexes_compile, 
    metadata_model, tag_numbers_fit, Patch, PatchFeed, PatchModel, PatchRegex,
};
use crate::text::str_eq;

verus! {

/// How many feed entries lore serves per request.
pub const LORE_PAGE_SIZE: usize = 200;

/// A patch's key: its link.
pub open spec fn key_of(m: PatchModel) -> Seq<char> {
    m.6
}

/// What was known after ingesting a feed page: every patch whose link was
/// new is added (with its tag's metadata moved in), and the new links are
/// listed in feed order. A link seen before is skipped.
pub open spec fn ingest(rx: &PatchRegex, known: Map<Seq<char>, PatchModel>, feed: Seq<PatchModel>) -> (
    Map<Seq<char>, PatchModel>,
    Seq<Seq<char>>,
)
    decreases feed.len(),
{
    if feed.len() == 0 {
        (known, seq![])
    } else {
        let (m, ids) = ingest(rx, known, feed.drop_last());
        let p = metadata_model(rx, feed.last());
        if m.dom().contains(key_of(p)) {
            (m, ids)
        } else {
            (m.insert(key_of(p), p), ids.push(key_of(p)))
        }
    }
}

/// A patch represents a patchset unless it is a later patch of a series,
/// or the first patch of a series whose cover letter (the patch it replies
/// to, numbered 0 in the same version) is known.
pub open spec fn is_representative(known: Map<Seq<char>, PatchModel>, id: Seq<char>) -> bool {
    let p = known[id];
    if p.2 > 1 {
        false
    } else if p.2 == 1 && p.7 is Some && known.dom().contains(p.7->0) && known[p.7->0].2 == 0
        && p.1 == known[p.7->0].1 {
        false
    } else {
        true
    }
}

/// The representatives among new links, in order.
pub open spec fn new_representatives(known: Map<Seq<char>, PatchModel>, ids: Seq<Seq<char>>) -> Seq<
    Seq<char>,
>
    decreases ids.len(),
{
    if ids.len() == 0 {
        seq![]
    } else {
        let r = new_representatives(known, ids.drop_last());
        if is_representative(known, ids.last()) {
            r.push(ids.last())
        } else {
            r
        }
    }
}

/// The links of page `n` (from 1) of `size` entries, `None` when the page
/// starts past the end.
pub open spec fn page_ids(reps: Seq<Seq<char>>, size: int, n: int) -> Option<Seq<Seq<char>>> {
    let lower = size * (n - 1);
    if reps.len() == 0 || lower >= reps.len() {
        None
    } else {
        let upper = if size * n > reps.len() {
            reps.len() as int
        } else {
            size * n
        };
        Some(reps.subrange(lower, upper))
    }
}

pub open spec fn models_of(s: Seq<Patch>) -> Seq<PatchModel> {
    s.map_values(|p: Patch| p.model())
}

/// The map a list of patches with distinct links denotes.
pub open spec fn patches_map(s: Seq<Patch>) -> Map<Seq<char>, PatchModel>
    decreases s.len(),
{
    if s.len() == 0 {
        Map::empty()
    } else {
        patches_map(s.drop_last()).insert(key_of(s.last().model()), s.last().model())
    }
}

pub open spec fn keys_distinct(s: Seq<Patch>) -> bool {
    forall|i: int, j: int| 0 <= i < j < s.len() ==> key_of(s[i].model()) != key_of(s[j].model())
}

pub open spec fn distinct_ids(s: Seq<Seq<char>>) -> bool {
    forall|i: int, j: int| 0 <= i < j < s.len() ==> s[i] != s[j]
}

/// Tracks feed pagination for a single mailing list.
pub struct PatchFeedIndex {
    target_list: String,
    next_offset: usize,
    representative_patch_ids: Vec<String>,
    patches: Vec<Patch>,
    patch_regex: PatchRegex,
}

proof fn lemma_patches_map(s: Seq<Patch>)
    requires
        keys_distinct(s),
    ensures
        forall|i: int|
            0 <= i < s.len() ==> #[trigger] patches_map(s).dom().contains(key_of(s[i].model())),
        forall|i: int|
            0 <= i < s.len() ==> #[trigger] patches_map(s)[key_of(s[i].model())] == s[i].model(),
        forall|k: Seq<char>| #[trigger] patches_map(s).dom().contains(k) ==> exists|i: int|
            0 <= i < s.len() && key_of(s[i].model()) == k,
    decreases s.len(),
{
    if s.len() > 0 {
        let d = s.drop_last();
        assert(keys_distinct(d)) by {
            assert forall|i: int, j: int| 0 <= i < j < d.len() implies key_of(d[i].model())
                != key_of(d[j].model()) by {
                assert(d[i] == s[i] && d[j] == s[j]);
            }
        }
        lemma_patches_map(d);
        let m = patches_map(s);
        assert forall|i: int| 0 <= i < s.len() implies m.dom().contains(key_of(s[i].model()))
            && #[trigger] m[key_of(s[i].model())] == s[i].model() by {
            if i < s.len() - 1 {
                assert(s[i] == d[i]);
                assert(patches_map(d).dom().contains(key_of(d[i].model())));
                assert(patches_map(d)[key_of(d[i].model())] == d[i].model());
                assert(key_of(s[i].model()) != key_of(s[s.len() - 1].model()));
            } else {
                assert(s[i] == s.last());
            }
        }
        assert forall|i: int| 0 <= i < s.len() implies #[trigger] patches_map(s).dom().contains(
            key_of(s[i].model()),
        ) by {
            assert(m[key_of(s[i].model())] == s[i].model());
        }
        assert forall|k: Seq<char>| #[trigger] m.dom().contains(k) implies exists|i: int|
            0 <= i < s.len() && key_of(s[i].model()) == k by {
            if k != key_of(s.last().model()) {
                assert(patches_map(d).dom().contains(k));
                let i = choose|i: int| 0 <= i < d.len() && key_of(d[i].model()) == k;
                assert(s[i] == d[i]);
            } else {
                assert(key_of(s[s.len() - 1].model()) == k);
            }
        }
    }
}

/// What ingesting keeps and adds: earlier patches stay as they were, the
/// new links are distinct, were unknown before and are known after, every
/// link of the page is known after, and nothing else is added.
proof fn lemma_ingest(rx: &PatchRegex, known: Map<Seq<char>, PatchModel>, feed: Seq<PatchModel>)
    ensures
        forall|k: Seq<char>| #[trigger] known.dom().contains(k) ==> ingest(rx, known, feed).0.dom().contains(
            k,
        ) && ingest(rx, known, feed).0[k] == known[k],
        distinct_ids(ingest(rx, known, feed).1),
        forall|i: int|
            0 <= i < ingest(rx, known, feed).1.len() ==> !known.dom().contains(
                #[trigger] ingest(rx, known, feed).1[i],
            ) && ingest(rx, known, feed).0.dom().contains(ingest(rx, known, feed).1[i]),
        forall|i: int|
            0 <= i < feed.len() ==> ingest(rx, known, feed).0.dom().contains(
                key_of(metadata_model(rx, #[trigger] feed[i])),
            ),
        forall|k: Seq<char>| #[trigger] ingest(rx, known, feed).0.dom().contains(k) ==> known.dom().contains(
            k,
        ) || ingest(rx, known, feed).1.contains(k),
    decreases feed.len(),
{
    if feed.len() > 0 {
        let d = feed.drop_last();
        lemma_ingest(rx, known, d);
        let (m, ids) = ingest(rx, known, d);
        let p = metadata_model(rx, feed.last());
        assert forall|i: int| 0 <= i < feed.len() implies ingest(rx, known, feed).0.dom().contains(
            key_of(metadata_model(rx, #[trigger] feed[i])),
        ) by {
            if i < feed.len() - 1 {
                assert(feed[i] == d[i]);
                assert(m.dom().contains(key_of(metadata_model(rx, d[i]))));
            }
        }
        if !m.dom().contains(key_of(p)) {
            let ids2 = ids.push(key_of(p));
            assert forall|i: int, j: int| 0 <= i < j < ids2.len() implies ids2[i] != ids2[j] by {
                if j == ids.len() {
                    assert(m.dom().contains(ids[i]));
                }
            }
            assert forall|k: Seq<char>| #[trigger] m.insert(key_of(p), p).dom().contains(k) implies known.dom().contains(
                k,
            ) || ids2.contains(k) by {
                if k == key_of(p) {
                    assert(ids2[ids.len() as int] == k);
                } else {
                    if ids.contains(k) {
                        let i = choose|i: int| 0 <= i < ids.len() && ids[i] == k;
                        assert(ids2[i] == k);
                    }
                }
            }
        }
    }
}

/// The representatives are among the new links, in their order.
proof fn lemma_new_representatives(known: Map<Seq<char>, PatchModel>, ids: Seq<Seq<char>>)
    ensures
        forall|i: int|
            0 <= i < new_representatives(known, ids).len() ==> ids.contains(
                #[trigger] new_representatives(known, ids)[i],
            ),
        distinct_ids(ids) ==> distinct_ids(new_representatives(known, ids)),
    decreases ids.len(),
{
    if ids.len() > 0 {
        let d = ids.drop_last();
        lemma_new_representatives(known, d);
        let r = new_representatives(known, d);
        assert forall|i: int| 0 <= i < new_representatives(known, ids).len() implies ids.contains(
            #[trigger] new_representatives(known, ids)[i],
        ) by {
            let x = new_representatives(known, ids)[i];
            if i < r.len() {
                assert(x == r[i]);
                assert(d.contains(x));
                let k = choose|k: int| 0 <= k < d.len() && d[k] == x;
                assert(ids[k] == x);
            } else {
                assert(ids[ids.len() - 1] == x);
            }
        }
        if distinct_ids(ids) && is_representative(known, ids.last()) {
            assert(distinct_ids(d)) by {
                assert forall|a: int, b: int| 0 <= a < b < d.len() implies d[a] != d[b] by {
                    assert(d[a] == ids[a] && d[b] == ids[b]);
                }
            }
            let r2 = r.push(ids.last());
            assert forall|a: int, b: int| 0 <= a < b < r2.len() implies r2[a] != r2[b] by {
                if b == r.len() {
                    assert(d.contains(r[a]));
                    let k = choose|k: int| 0 <= k < d.len() && d[k] == r[a];
                    assert(ids[k] == r[a]);
                    assert(ids[ids.len() - 1] == ids.last());
                }
            }
        } else if distinct_ids(ids) {
            assert(distinct_ids(d)) by {
                assert forall|a: int, b: int| 0 <= a < b < d.len() implies d[a] != d[b] by {
                    assert(d[a] == ids[a] && d[b] == ids[b]);
                }
            }
        }
    }
}

impl PatchFeedIndex {
    /// Every patch has its own link, and the representatives are distinct
    /// known links.
    pub closed spec fn wf(&self) -> bool {
        &&& keys_distinct(self.patches@)
        &&& distinct_ids(self.reps())
        &&& forall|i: int|
            0 <= i < self.reps().len() ==> patches_map(self.patches@).dom().contains(
                #[trigger] self.reps()[i],
            )
    }

    /// In a well-formed index every representative is a known link, and
    /// no link represents twice.
    pub proof fn lemma_reps_known(&self)
        requires
            self.wf(),
        ensures
            forall|i: int|
                0 <= i < self.reps().len() ==> self.known().dom().contains(#[trigger] self.reps()[i]),
            distinct_ids(self.reps()),
    {
    }

    pub closed spec fn reps(&self) -> Seq<Seq<char>> {
        self.representative_patch_ids@.map_values(|s: String| s@)
    }

    pub closed spec fn known(&self) -> Map<Seq<char>, PatchModel> {
        patches_map(self.patches@)
    }

    pub closed spec fn offset(&self) -> nat {
        self.next_offset as nat
    }

    pub closed spec fn list(&self) -> Seq<char> {
        self.target_list@
    }

    pub closed spec fn regex(&self) -> &PatchRegex {
        &self.patch_regex
    }

    /// An empty index for `target_list`; `None` if the patch tag
    /// expressions do not compile.
    pub fn new(target_list: String) -> (r: Option<Self>)
        ensures
            r is Some <==> patch_regexes_compile(),
            r matches Some(x) ==> x.wf() && x.list() == target_list@ && x.offset() == 0
                && x.reps().len() == 0 && x.known() == Map::<Seq<char>, PatchModel>::empty(),
    {
        match PatchRegex::new() {
            Some(rx) => {
                let r = PatchFeedIndex {
                    target_list,
                    next_offset: 0,
                    representative_patch_ids: Vec::new(),
                    patches: Vec::new(),
                    patch_regex: rx,
                };
                assert(r.reps() =~= seq![]);
                Some(r)
            },
            None => None,
        }
    }

    pub fn target_list(&self) -> (r: &str)
        ensures
            r@ == self.list(),
    {
        self.target_list.as_str()
    }

    /// The tag expressions the index reads titles with.
    pub fn patch_regex_ref(&self) -> (r: &PatchRegex)
        ensures
            r == self.regex(),
    {
        &self.patch_regex
    }

    pub fn next_offset(&self) -> (r: usize)
        ensures
            r == self.offset(),
    {
        self.next_offset
    }

    pub fn representative_patch_ids(&self) -> (r: &Vec<String>)
        ensures
            r@.map_values(|s: String| s@) == self.reps(),
    {
        &self.representative_patch_ids
    }

    /// The patch with link `id`, if seen.
    pub fn get_patch(&self, id: &str) -> (r: Option<&Patch>)
        requires
            self.wf(),
        ensures
            r is Some <==> self.known().dom().contains(id@),
            r matches Some(p) ==> p.model() == self.known()[id@],
    {
        proof {
            lemma_patches_map(self.patches@);
        }
        let mut i: usize = 0;
        while i < self.patches.len()
            invariant
                i <= self.patches@.len(),
                keys_distinct(self.patches@),
                forall|k: int| 0 <= k < i ==> key_of(self.patches@[k].model()) != id@,
            decreases self.patches.len() - i,
        {
            if str_eq(self.patches[i].message_id().href.as_str(), id) {
                proof {
                    lemma_patches_map(self.patches@);
                }
                return Some(&self.patches[i]);
            }
            i += 1;
        }
        None
    }

    /// Moves the offset one feed request further.
    pub fn advance_offset(&mut self)
        requires
            old(self).offset() + LORE_PAGE_SIZE <= usize::MAX,
        ensures
            old(self).wf() ==> final(self).wf(),
            final(self).offset() == old(self).offset() + LORE_PAGE_SIZE,
            final(self).reps() == old(self).reps(),
            final(self).known() == old(self).known(),
            final(self).list() == old(self).list(),
            final(self).regex() == old(self).regex(),
    {
        self.next_offset = self.next_offset + LORE_PAGE_SIZE;
    }

    /// Adds a page of the feed: patches with a new link are kept (with
    /// their tag's metadata moved in) and the representatives among them
    /// appended, in feed order. Every patch's tag numbers must fit.
    pub fn process_feed_page(&mut self, feed: PatchFeed)
        requires
            old(self).wf(),
            forall|i: int|
                0 <= i < feed.spec_patches().len() ==> tag_numbers_fit(
                    old(self).regex(),
                    (#[trigger] feed.spec_patches()[i]).spec_title(),
                    usize::MAX as nat,
                ),
        ensures
            final(self).wf(),
            final(self).known() == ingest(
                old(self).regex(),
                old(self).known(),
                models_of(feed.spec_patches()),
            ).0,
            final(self).reps() == old(self).reps() + new_representatives(
                final(self).known(),
                ingest(old(self).regex(), old(self).known(), models_of(feed.spec_patches())).1,
            ),
            final(self).offset() == old(self).offset(),
            final(self).list() == old(self).list(),
            final(self).regex() == old(self).regex(),
    {
        let ghost rx = self.regex();
        let ghost known0 = self.known();
        let ghost fm = models_of(feed.spec_patches());
        let mut patches: Vec<Patch> = Vec::new();
        std::mem::swap(&mut patches, &mut self.patches);
        let mut new_ids: Vec<String> = Vec::new();
        let fps = feed.patches();
        let mut i: usize = 0;
        assert(fm.take(0) =~= seq![]);
        assert(new_ids@.map_values(|s: String| s@) =~= seq![]);
        while i < fps.len()
            invariant
                i <= fps@.len(),
                fps@ == feed.spec_patches(),
                fm == models_of(fps@),
                rx == &self.patch_regex,
                known0 == patches_map(old(self).patches@),
                keys_distinct(patches@),
                forall|k: int|
                    0 <= k < fps@.len() ==> tag_numbers_fit(
                        rx,
                        (#[trigger] fps@[k]).spec_title(),
                        usize::MAX as nat,
                    ),
                (patches_map(patches@), new_ids@.map_values(|s: String| s@)) == ingest(
                    rx,
                    known0,
                    fm.take(i as int),
                ),
            decreases fps.len() - i,
        {
            let mut p = fps[i].duplicate();
            assert(fm[i as int] == fps@[i as int].model());
            p.update_patch_metadata(&self.patch_regex);
            let ghost pm = p.model();
            assert(fm.take(i + 1).drop_last() =~= fm.take(i as int));
            assert(fm.take(i + 1).last() == fm[i as int]);
            let mut seen = false;
            let mut j: usize = 0;
            while j < patches.len()
                invariant
                    j <= patches@.len(),
                    keys_distinct(patches@),
                    seen ==> patches_map(patches@).dom().contains(key_of(pm)),
                    !seen ==> forall|k: int| 0 <= k < j ==> key_of(patches@[k].model()) != key_of(pm),
                    p.model() == pm,
                decreases patches.len() - j,
            {
                if !seen && patches[j].message_id().href == p.message_id().href {
                    proof {
                        lemma_patches_map(patches@);
                    }
                    seen = true;
                }
                j += 1;
            }
            if !seen {
                proof {
                    lemma_patches_map(patches@);
                }
                assert(!patches_map(patches@).dom().contains(key_of(pm)));
                let id = p.message_id().href.clone();
                let ghost before = patches@;
                patches.push(p);
                proof {
                    assert(patches@.drop_last() =~= before);
                    assert forall|a: int, b: int| 0 <= a < b < patches@.len() implies key_of(
                        patches@[a].model(),
                    ) != key_of(patches@[b].model()) by {
                        if b == before.len() {
                            assert(patches@[a] == before[a]);
                            assert(patches_map(before).dom().contains(key_of(before[a].model())));
                        } else {
                            assert(patches@[a] == before[a] && patches@[b] == before[b]);
                        }
                    }
                }
                let ghost ids_before = new_ids@;
                new_ids.push(id);
                assert(new_ids@.map_values(|s: String| s@) =~= ids_before.map_values(
                    |s: String| s@,
                ).push(key_of(pm)));
            }
            i += 1;
        }
        assert(fm.take(i as int) =~= fm);
        let ghost known1 = patches_map(patches@);
        let ghost ids = new_ids@.map_values(|s: String| s@);
        proof {
            lemma_ingest(rx, known0, fm);
            lemma_patches_map(patches@);
            lemma_new_representatives(known1, ids);
        }
        // The representatives among the new links.
        let mut reps: Vec<String> = Vec::new();
        std::mem::swap(&mut reps, &mut self.representative_patch_ids);
        let ghost reps0 = reps@.map_values(|s: String| s@);
        let mut k: usize = 0;
        assert(ids.take(0) =~= seq![]);
        assert(reps@.map_values(|s: String| s@) =~= reps0 + new_representatives(
            known1,
            ids.take(0),
        ));
        while k < new_ids.len()
            invariant
                k <= new_ids@.len(),
                ids == new_ids@.map_values(|s: String| s@),
                known1 == patches_map(patches@),
                keys_distinct(patches@),
                forall|x: int| 0 <= x < ids.len() ==> known1.dom().contains(#[trigger] ids[x]),
                reps@.map_values(|s: String| s@) == reps0 + new_representatives(
                    known1,
                    ids.take(k as int),
                ),
            decreases new_ids.len() - k,
        {
            let id = &new_ids[k];
            assert(ids[k as int] == id@);
            assert(known1.dom().contains(id@));
            assert(ids.take(k + 1).drop_last() =~= ids.take(k as int));
            assert(ids.take(k + 1).last() == ids[k as int]);
            let keep = is_representative_exec(&patches, id.as_str());
            if keep {
                let ghost rb = reps@;
                reps.push(id.clone());
                assert(reps@.map_values(|s: String| s@) =~= rb.map_values(|s: String| s@).push(
                    id@,
                ));
            }
            k += 1;
        }
        assert(ids.take(k as int) =~= ids);
        proof {
            let all = reps@.map_values(|s: String| s@);
            let nr = new_representatives(known1, ids);
            assert forall|a: int, b: int| 0 <= a < b < all.len() implies all[a] != all[b] by {
                if b >= reps0.len() && a < reps0.len() {
                    assert(all[b] == nr[b - reps0.len()]);
                    assert(ids.contains(nr[b - reps0.len()]));
                    let x = choose|x: int| 0 <= x < ids.len() && ids[x] == nr[b - reps0.len()];
                    assert(!known0.dom().contains(ids[x]));
                    assert(all[a] == reps0[a]);
                } else if a >= reps0.len() {
                    assert(all[a] == nr[a - reps0.len()] && all[b] == nr[b - reps0.len()]);
                } else {
                    assert(all[a] == reps0[a] && all[b] == reps0[b]);
                }
            }
            assert forall|a: int| 0 <= a < all.len() implies known1.dom().contains(
                #[trigger] all[a],
            ) by {
                if a >= reps0.len() {
                    assert(all[a] == nr[a - reps0.len()]);
                    assert(ids.contains(nr[a - reps0.len()]));
                } else {
                    assert(all[a] == reps0[a]);
                }
            }
        }
        self.patches = patches;
        self.representative_patch_ids = reps;
    }

    /// Whether every patch of the page has tag numbers that fit; if so the
    /// page is added as [`Self::process_feed_page`] does, and otherwise the
    /// index is left as it is.
    pub fn try_process_feed_page(&mut self, feed: PatchFeed) -> (r: bool)
        requires
            old(self).wf(),
        ensures
            final(self).wf(),
            final(self).list() == old(self).list(),
            final(self).regex() == old(self).regex(),
            final(self).offset() == old(self).offset(),
            r == forall|i: int|
                0 <= i < feed.spec_patches().len() ==> tag_numbers_fit(
                    old(self).regex(),
                    (#[trigger] feed.spec_patches()[i]).spec_title(),
                    usize::MAX as nat,
                ),
            !r ==> final(self).known() == old(self).known() && final(self).reps() == old(
                self,
            ).reps() && final(self).offset() == old(self).offset(),
            r ==> final(self).known() == ingest(
                old(self).regex(),
                old(self).known(),
                models_of(feed.spec_patches()),
            ).0,
            r ==> final(self).reps() == old(self).reps() + new_representatives(
                final(self).known(),
                ingest(old(self).regex(), old(self).known(), models_of(feed.spec_patches())).1,
            ),
    {
        let fps = feed.patches();
        let mut i: usize = 0;
        let mut ok = true;
        while i < fps.len()
            invariant
                i <= fps@.len(),
                fps@ == feed.spec_patches(),
                ok == forall|k: int|
                    0 <= k < i ==> tag_numbers_fit(
                        self.regex(),
                        (#[trigger] fps@[k]).spec_title(),
                        usize::MAX as nat,
                    ),
            decreases fps.len() - i,
        {
            let mut probe = fps[i].duplicate();
            let fits = probe.try_update_patch_metadata(&self.patch_regex);
            ok = ok && fits;
            i += 1;
        }
        if ok {
            self.process_feed_page(feed);
        }
        ok
    }

    /// The patches of page `page_number` (from 1) of `page_size`
    /// representatives, `None` when that page starts past what has been
    /// seen so far.
    pub fn get_page(&self, page_size: usize, page_number: usize) -> (r: Option<Vec<Patch>>)
        requires
            self.wf(),
            page_size >= 1,
            page_number >= 1,
            page_size * page_number <= usize::MAX,
        ensures
            page_ids(self.reps(), page_size as int, page_number as int) is None ==> r is None,
            page_ids(self.reps(), page_size as int, page_number as int) matches Some(ids) ==> r matches Some(
                v,
            ) && v@.len() == ids.len() && forall|i: int|
                0 <= i < ids.len() ==> (#[trigger] v@[i]).model() == self.known()[ids[i]],
    {
        if self.representative_patch_ids.len() == 0 {
            return None;
        }
        let max_index = self.representative_patch_ids.len() - 1;
        assert(page_size * (page_number - 1) <= page_size * page_number) by (nonlinear_arith)
            requires
                page_number >= 1,
        ;
        assert(page_size * (page_number - 1) == page_size * page_number - page_size) by (
        nonlinear_arith);
        let lower_end = page_size * (page_number - 1);
        let mut upper_end = page_size * page_number;
        if max_index < lower_end {
            return None;
        }
        if max_index < upper_end - 1 {
            upper_end = max_index + 1;
        }
        let ghost ids = self.reps().subrange(lower_end as int, upper_end as int);
        let mut page: Vec<Patch> = Vec::new();
        let mut i = lower_end;
        while i < upper_end
            invariant
                lower_end <= i <= upper_end <= self.representative_patch_ids@.len(),
                self.wf(),
                ids == self.reps().subrange(lower_end as int, upper_end as int),
                page@.len() == i - lower_end,
                forall|x: int| 0 <= x < self.reps().len() ==> self.known().dom().contains(
                    #[trigger] self.reps()[x],
                ),
                forall|x: int|
                    0 <= x < page@.len() ==> (#[trigger] page@[x]).model() == self.known()[ids[x]],
            decreases upper_end - i,
        {
            let id = self.representative_patch_ids[i].as_str();
            assert(self.reps()[i as int] == id@);
            match self.get_patch(id) {
                Some(p) => {
                    page.push(p.duplicate());
                },
                None => {
                    assert(false);
                },
            }
            i += 1;
        }
        Some(page)
    }
}

/// Whether the new link `id` represents a patchset.
fn is_representative_exec(patches: &Vec<Patch>, id: &str) -> (r: bool)
    requires
        keys_distinct(patches@),
        patches_map(patches@).dom().contains(id@),
    ensures
        r == is_representative(patches_map(patches@), id@),
{
    proof {
        lemma_patches_map(patches@);
    }
    let p = match find_patch(patches, id) {
        Some(p) => p,
        None => {
            return true;
        },
    };
    let n = p.number_in_series();
    if n > 1 {
        return false;
    }
    if n == 1 {
        match p.in_reply_to() {
            Some(r) => match find_patch(patches, r.href.as_str()) {
                Some(referenced) => {
                    if referenced.number_in_series() == 0 && p.version() == referenced.version() {
                        return false;
                    }
                },
                None => {},
            },
            None => {},
        }
    }
    true
}

fn find_patch<'a>(patches: &'a Vec<Patch>, id: &str) -> (r: Option<&'a Patch>)
    requires
        keys_distinct(patches@),
    ensures
        r is Some <==> patches_map(patches@).dom().contains(id@),
        r matches Some(p) ==> p.model() == patches_map(patches@)[id@],
{
    proof {
        lemma_patches_map(patches@);
    }
    let mut i: usize = 0;
    while i < patches.len()
        invariant
            i <= patches@.len(),
            keys_distinct(patches@),
            forall|k: int| 0 <= k < i ==> key_of(patches@[k].model()) != id@,
        decreases patches.len() - i,
    {
        if str_eq(patches[i].message_id().href.as_str(), id) {
            proof {
                lemma_patches_map(patches@);
            }
            return Some(&patches[i]);
        }
        i += 1;
    }
    None
}

// ───────────────────────────── laws ─────────────────────────────

/// Ingesting a page whose links are all known changes nothing and finds
/// no new link.
pub proof fn lemma_known_page_adds_nothing(
    rx: &PatchRegex,
    known: Map<Seq<char>, PatchModel>,
    feed: Seq<PatchModel>,
)
    requires
        forall|i: int|
            0 <= i < feed.len() ==> known.dom().contains(key_of(metadata_model(rx, #[trigger] feed[i]))),
    ensures
        ingest(rx, known, feed) == (known, Seq::<Seq<char>>::empty()),
    decreases feed.len(),
{
    if feed.len() > 0 {
        let d = feed.drop_last();
        assert forall|i: int| 0 <= i < d.len() implies known.dom().contains(
            key_of(metadata_model(rx, #[trigger] d[i])),
        ) by {
            assert(d[i] == feed[i]);
        }
        lemma_known_page_adds_nothing(rx, known, d);
        assert(feed.last() == feed[feed.len() - 1]);
    }
}

/// Processing the same page twice is the same as processing it once: the
/// second time every link is known, so the index does not change.
pub proof fn lemma_reprocessing_changes_nothing(
    rx: &PatchRegex,
    known: Map<Seq<char>, PatchModel>,
    feed: Seq<PatchModel>,
)
    ensures
        ingest(rx, ingest(rx, known, feed).0, feed) == (
            ingest(rx, known, feed).0,
            Seq::<Seq<char>>::empty(),
        ),
        new_representatives(ingest(rx, known, feed).0, Seq::<Seq<char>>::empty()) == Seq::<
            Seq<char>,
        >::empty(),
{
    lemma_ingest(rx, known, feed);
    lemma_known_page_adds_nothing(rx, ingest(rx, known, feed).0, feed);
}

/// Pages split the representatives in order: page `n` starts where page
/// `n - 1` ends, and no page is longer than the page size.
pub proof fn lemma_pages_are_consecutive(reps: Seq<Seq<char>>, size: int, n: int)
    requires
        size >= 1,
        n >= 2,
        page_ids(reps, size, n) is Some,
    ensures
        page_ids(reps, size, n - 1) matches Some(prev) && prev.len() == size && prev + page_ids(
            reps,
            size,
            n,
        )->0 == reps.subrange(size * (n - 2), page_ids(reps, size, n)->0.len() + size * (n - 1)),
        page_ids(reps, size, n)->0.len() <= size,
{
    assert(size * (n - 1) == size * (n - 2) + size) by (nonlinear_arith);
    assert(size * n == size * (n - 1) + size) by (nonlinear_arith);
    assert(size * (n - 2) >= 0) by (nonlinear_arith)
        requires
            size >= 1,
            n >= 2,
    ;
    let prev = page_ids(reps, size, n - 1)->0;
    let cur = page_ids(reps, size, n)->0;
    assert(prev + cur =~= reps.subrange(size * (n - 2), cur.len() + size * (n - 1)));
}

} // verus!
