//! The bookmarked-patchsets screen: the bookmarks and the selection in them.
use vstd::prelude::*;

use crate::lore::domain::patch::{Patch, PatchModel};

verus! {

pub struct BookmarkedPatchsets {
    pub bookmarked_patchsets: Vec<Patch>,
    pub patchset_index: usize,
}

pub open spec fn models(s: Seq<Patch>) -> Seq<PatchModel> {
    s.map_values(|p: Patch| p.model())
}

/// The first position of `m` in `s` at or after `from`.
pub open spec fn first_index_from(s: Seq<PatchModel>, m: PatchModel, from: int) -> Option<int>
    decreases s.len() - from,
{
    if from < 0 || from >= s.len() {
        None
    } else if s[from] == m {
        Some(from)
    } else {
        first_index_from(s, m, from + 1)
    }
}

/// The bookmarks after bookmarking `m`: appended unless already there.
pub open spec fn bookmarked(s: Seq<PatchModel>, m: PatchModel) -> Seq<PatchModel> {
    if s.contains(m) {
        s
    } else {
        s.push(m)
    }
}

/// The bookmarks after unbookmarking `m`: its first occurrence removed.
pub open spec fn unbookmarked(s: Seq<PatchModel>, m: PatchModel) -> Seq<PatchModel> {
    match first_index_from(s, m, 0) {
        Some(i) => s.remove(i),
        None => s,
    }
}

pub open spec fn no_duplicates(s: Seq<PatchModel>) -> bool {
    forall|i: int, j: int| 0 <= i < j < s.len() ==> s[i] != s[j]
}

proof fn lemma_first_index(s: Seq<PatchModel>, m: PatchModel, from: int)
    requires
        0 <= from,
    ensures
        first_index_from(s, m, from) matches Some(i) ==> from <= i < s.len() && s[i] == m
            && forall|k: int| from <= k < i ==> s[k] != m,
        first_index_from(s, m, from) is None ==> forall|k: int| from <= k < s.len() ==> s[k] != m,
    decreases s.len() - from,
{
    if from < s.len() && s[from] != m {
        lemma_first_index(s, m, from + 1);
    }
}

impl BookmarkedPatchsets {
    /// Moves the selection one down, unless it is on the last bookmark.
    pub fn select_below_patchset(&mut self)
        requires
            old(self).patchset_index < usize::MAX,
        ensures
            final(self).bookmarked_patchsets@ == old(self).bookmarked_patchsets@,
            final(self).patchset_index == (if old(self).patchset_index + 1 < old(
                self,
            ).bookmarked_patchsets@.len() {
                old(self).patchset_index + 1
            } else {
                old(self).patchset_index as int
            }),
    {
        if self.patchset_index + 1 < self.bookmarked_patchsets.len() {
            self.patchset_index += 1;
        }
    }

    /// Moves the selection one up, stopping at the first bookmark.
    pub fn select_above_patchset(&mut self)
        ensures
            final(self).bookmarked_patchsets@ == old(self).bookmarked_patchsets@,
            final(self).patchset_index == (if old(self).patchset_index > 0 {
                old(self).patchset_index - 1
            } else {
                0
            }),
    {
        self.patchset_index = self.patchset_index.saturating_sub(1);
    }

    /// A copy of the selected bookmark.
    pub fn get_selected_patchset(&self) -> (r: Patch)
        requires
            self.patchset_index < self.bookmarked_patchsets@.len(),
        ensures
            r.model() == self.bookmarked_patchsets@[self.patchset_index as int].model(),
    {
        self.bookmarked_patchsets[self.patchset_index].duplicate()
    }

    fn position(&self, patch: &Patch) -> (r: Option<usize>)
        ensures
            match r {
                Some(i) => first_index_from(models(self.bookmarked_patchsets@), patch.model(), 0)
                    == Some(i as int),
                None => first_index_from(models(self.bookmarked_patchsets@), patch.model(), 0)
                    is None,
            },
    {
        let ghost ms = models(self.bookmarked_patchsets@);
        let mut i: usize = 0;
        while i < self.bookmarked_patchsets.len()
            invariant
                i <= self.bookmarked_patchsets@.len(),
                ms == models(self.bookmarked_patchsets@),
                first_index_from(ms, patch.model(), 0) == first_index_from(
                    ms,
                    patch.model(),
                    i as int,
                ),
            decreases self.bookmarked_patchsets.len() - i,
        {
            if self.bookmarked_patchsets[i].same_patch(patch) {
                return Some(i);
            }
            i += 1;
        }
        None
    }

    /// Bookmarks a patch unless it already is.
    pub fn bookmark_selected_patch(&mut self, patch_to_bookmark: &Patch)
        ensures
            models(final(self).bookmarked_patchsets@) == bookmarked(
                models(old(self).bookmarked_patchsets@),
                patch_to_bookmark.model(),
            ),
            final(self).patchset_index == old(self).patchset_index,
    {
        let ghost ms = models(self.bookmarked_patchsets@);
        proof {
            lemma_first_index(ms, patch_to_bookmark.model(), 0);
        }
        match self.position(patch_to_bookmark) {
            Some(_) => {
                proof {
                    let i = first_index_from(ms, patch_to_bookmark.model(), 0)->0;
                    assert(ms[i] == patch_to_bookmark.model());
                }
            },
            None => {
                proof {
                    assert(!ms.contains(patch_to_bookmark.model()));
                }
                let p = patch_to_bookmark.duplicate();
                self.bookmarked_patchsets.push(p);
                proof {
                    assert(models(self.bookmarked_patchsets@) =~= ms.push(
                        patch_to_bookmark.model(),
                    ));
                }
            },
        }
    }

    /// Removes the first bookmark equal to the patch, if there is one.
    pub fn unbookmark_selected_patch(&mut self, patch_to_unbookmark: &Patch)
        ensures
            models(final(self).bookmarked_patchsets@) == unbookmarked(
                models(old(self).bookmarked_patchsets@),
                patch_to_unbookmark.model(),
            ),
            final(self).patchset_index == old(self).patchset_index,
    {
        let ghost ms = models(self.bookmarked_patchsets@);
        proof {
            lemma_first_index(ms, patch_to_unbookmark.model(), 0);
        }
        match self.position(patch_to_unbookmark) {
            Some(i) => {
                self.bookmarked_patchsets.remove(i);
                proof {
                    assert(models(self.bookmarked_patchsets@) =~= ms.remove(i as int));
                }
            },
            None => {},
        }
    }
}

/// A bookmarked patch is among the bookmarks, and bookmarking it again
/// changes nothing.
pub proof fn lemma_bookmark_idempotent(s: Seq<PatchModel>, m: PatchModel)
    ensures
        bookmarked(s, m).contains(m),
        bookmarked(bookmarked(s, m), m) == bookmarked(s, m),
{
    if !s.contains(m) {
        assert(s.push(m)[s.len() as int] == m);
    }
}

/// Bookmarking never creates a duplicate.
pub proof fn lemma_bookmark_keeps_unique(s: Seq<PatchModel>, m: PatchModel)
    requires
        no_duplicates(s),
    ensures
        no_duplicates(bookmarked(s, m)),
{
    if !s.contains(m) {
        let t = s.push(m);
        assert forall|i: int, j: int| 0 <= i < j < t.len() implies t[i] != t[j] by {
            if j == s.len() {
                assert(t[i] == s[i]);
                assert(s.contains(s[i]));
            } else {
                assert(t[i] == s[i] && t[j] == s[j]);
            }
        }
    }
}

/// In bookmarks without duplicates, unbookmarking a patch removes it, and
/// bookmarking then unbookmarking a new patch gives the bookmarks back.
pub proof fn lemma_unbookmark_removes(s: Seq<PatchModel>, m: PatchModel)
    requires
        no_duplicates(s),
    ensures
        !unbookmarked(s, m).contains(m),
        !s.contains(m) ==> unbookmarked(bookmarked(s, m), m) == s,
{
    lemma_first_index(s, m, 0);
    match first_index_from(s, m, 0) {
        Some(i) => {
            let r = s.remove(i);
            assert forall|k: int| 0 <= k < r.len() implies r[k] != m by {
                if k < i {
                    assert(r[k] == s[k]);
                } else {
                    assert(r[k] == s[k + 1]);
                    assert(s[i] == m);
                }
            }
        },
        None => {
            assert forall|k: int| 0 <= k < s.len() implies s[k] != m by {}
        },
    }
    if !s.contains(m) {
        let t = s.push(m);
        lemma_first_index(t, m, 0);
        assert forall|k: int| 0 <= k < s.len() implies t[k] != m by {
            assert(t[k] == s[k]);
            assert(s.contains(s[k]));
        }
        assert(t[s.len() as int] == m);
        assert(first_index_from(t, m, 0) == Some(s.len() as int));
        assert(t.remove(s.len() as int) =~= s);
    }
}

} // verus!
