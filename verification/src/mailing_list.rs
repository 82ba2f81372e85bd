//! Mailing lists archived on lore, and their order by name.
use vstd::prelude::*;

use crate::text::{chars_of, lex_lt, lex_lt_exec, str_to_string};

verus! {

#[derive(Debug, Clone, PartialEq, Eq)]
pub struct MailingList {
    name: String,
    description: String,
}

impl View for MailingList {
    type V = (Seq<char>, Seq<char>);

    closed spec fn view(&self) -> (Seq<char>, Seq<char>) {
        (self.name@, self.description@)
    }
}

impl MailingList {
    pub fn new(name: &str, description: &str) -> (r: Self)
        ensures
            r@ == (name@, description@),
    {
        MailingList { name: str_to_string(name), description: str_to_string(description) }
    }

    pub fn get_name(&self) -> (r: &str)
        ensures
            r@ == self@.0,
    {
        self.name.as_str()
    }

    pub fn get_description(&self) -> (r: &str)
        ensures
            r@ == self@.1,
    {
        self.description.as_str()
    }

    pub fn name(&self) -> (r: &String)
        ensures
            r@ == self@.0,
    {
        &self.name
    }

    pub fn description(&self) -> (r: &String)
        ensures
            r@ == self@.1,
    {
        &self.description
    }

    /// A copy of the list.
    pub fn duplicate(&self) -> (r: Self)
        ensures
            r@ == self@,
    {
        MailingList { name: self.name.clone(), description: self.description.clone() }
    }
}

/// Copies of the lists.
pub fn duplicate_lists(lists: &Vec<MailingList>) -> (r: Vec<MailingList>)
    ensures
        lists_view(r@) == lists_view(lists@),
{
    let mut out: Vec<MailingList> = Vec::new();
    let mut i: usize = 0;
    while i < lists.len()
        invariant
            i <= lists@.len(),
            lists_view(out@) == lists_view(lists@).take(i as int),
        decreases lists.len() - i,
    {
        let ghost before = out@;
        let d = lists[i].duplicate();
        out.push(d);
        assert(out@ =~= before.push(d));
        assert(lists_view(out@) =~= lists_view(before).push(d@));
        assert(lists_view(lists@).take(i + 1) =~= lists_view(lists@).take(i as int).push(
            lists@[i as int]@,
        ));
        i += 1;
    }
    assert(lists_view(lists@).take(i as int) =~= lists_view(lists@));
    out
}

pub open spec fn lists_view(s: Seq<MailingList>) -> Seq<(Seq<char>, Seq<char>)> {
    s.map_values(|m: MailingList| m@)
}

/// Where `x` goes in `s` to keep it ordered by name: after every list whose
/// name does not sort after `x`'s.
pub open spec fn insert_pos(s: Seq<(Seq<char>, Seq<char>)>, x: (Seq<char>, Seq<char>), from: int) -> int
    decreases s.len() - from,
{
    if from < 0 || from >= s.len() {
        s.len() as int
    } else if lex_lt(x.0, s[from].0) {
        from
    } else {
        insert_pos(s, x, from + 1)
    }
}

pub open spec fn insert_sorted(s: Seq<(Seq<char>, Seq<char>)>, x: (Seq<char>, Seq<char>)) -> Seq<
    (Seq<char>, Seq<char>),
> {
    s.take(insert_pos(s, x, 0)) + seq![x] + s.skip(insert_pos(s, x, 0))
}

/// Lists ordered by name, lists of equal name kept in their order.
pub open spec fn sort_by_name(s: Seq<(Seq<char>, Seq<char>)>) -> Seq<(Seq<char>, Seq<char>)>
    decreases s.len(),
{
    if s.len() == 0 {
        s
    } else {
        insert_sorted(sort_by_name(s.drop_last()), s.last())
    }
}

pub open spec fn sorted_by_name(s: Seq<(Seq<char>, Seq<char>)>) -> bool {
    forall|i: int, j: int| 0 <= i < j < s.len() ==> !lex_lt(s[j].0, s[i].0)
}

proof fn lemma_insert_pos_bounds(s: Seq<(Seq<char>, Seq<char>)>, x: (Seq<char>, Seq<char>), from: int)
    requires
        0 <= from <= s.len(),
    ensures
        from <= insert_pos(s, x, from) <= s.len(),
        forall|k: int| from <= k < insert_pos(s, x, from) ==> !lex_lt(x.0, #[trigger] s[k].0),
        insert_pos(s, x, from) < s.len() ==> lex_lt(x.0, s[insert_pos(s, x, from)].0),
    decreases s.len() - from,
{
    if from < s.len() && !lex_lt(x.0, s[from].0) {
        lemma_insert_pos_bounds(s, x, from + 1);
    }
}

proof fn lemma_lex_total(a: Seq<char>, b: Seq<char>)
    ensures
        lex_lt(a, b) || lex_lt(b, a) || a == b,
    decreases a.len(),
{
    if a.len() > 0 && b.len() > 0 && a[0] == b[0] {
        lemma_lex_total(a.drop_first(), b.drop_first());
        if a.drop_first() == b.drop_first() {
            assert(a =~= seq![a[0]] + a.drop_first());
            assert(b =~= seq![b[0]] + b.drop_first());
        }
    } else if a.len() == 0 && b.len() == 0 {
        assert(a =~= b);
    }
}

proof fn lemma_lex_trans(a: Seq<char>, b: Seq<char>, c: Seq<char>)
    requires
        lex_lt(a, b),
        lex_lt(b, c),
    ensures
        lex_lt(a, c),
    decreases a.len(),
{
    if a.len() > 0 && b.len() > 0 && c.len() > 0 && a[0] == b[0] && b[0] == c[0] {
        lemma_lex_trans(a.drop_first(), b.drop_first(), c.drop_first());
    }
}

proof fn lemma_lex_asym(a: Seq<char>, b: Seq<char>)
    requires
        lex_lt(a, b),
    ensures
        !lex_lt(b, a),
    decreases a.len(),
{
    if a.len() > 0 && b.len() > 0 && a[0] == b[0] {
        lemma_lex_asym(a.drop_first(), b.drop_first());
    }
}

/// Inserting into an ordered sequence keeps it ordered.
proof fn lemma_insert_keeps_sorted(s: Seq<(Seq<char>, Seq<char>)>, x: (Seq<char>, Seq<char>))
    requires
        sorted_by_name(s),
    ensures
        sorted_by_name(insert_sorted(s, x)),
        insert_sorted(s, x).len() == s.len() + 1,
{
    let p = insert_pos(s, x, 0);
    lemma_insert_pos_bounds(s, x, 0);
    let r = insert_sorted(s, x);
    assert forall|i: int, j: int| 0 <= i < j < r.len() implies !lex_lt(r[j].0, r[i].0) by {
        if i < p && j < p {
            assert(r[i] == s[i] && r[j] == s[j]);
        } else if i < p && j == p {
            assert(r[i] == s[i] && r[j] == x);
            assert(!lex_lt(x.0, s[i].0));
        } else if i < p && j > p {
            assert(r[i] == s[i] && r[j] == s[j - 1]);
        } else if i == p {
            assert(r[i] == x && r[j] == s[j - 1]);
            assert(lex_lt(x.0, s[p].0));
            if j - 1 > p {
                assert(!lex_lt(s[j - 1].0, s[p].0));
                lemma_lex_total(s[j - 1].0, s[p].0);
                if lex_lt(s[p].0, s[j - 1].0) {
                    lemma_lex_trans(x.0, s[p].0, s[j - 1].0);
                }
            }
            lemma_lex_asym(x.0, s[j - 1].0);
        } else {
            assert(r[i] == s[i - 1] && r[j] == s[j - 1]);
        }
    }
}

/// Sorting by name orders the lists by name.
pub proof fn lemma_sort_by_name_sorted(s: Seq<(Seq<char>, Seq<char>)>)
    ensures
        sorted_by_name(sort_by_name(s)),
        sort_by_name(s).len() == s.len(),
    decreases s.len(),
{
    if s.len() > 0 {
        lemma_sort_by_name_sorted(s.drop_last());
        lemma_insert_keeps_sorted(sort_by_name(s.drop_last()), s.last());
    }
}

proof fn lemma_insert_sorted_multiset(s: Seq<(Seq<char>, Seq<char>)>, x: (Seq<char>, Seq<char>))
    ensures
        insert_sorted(s, x).to_multiset() =~= s.to_multiset().insert(x),
{
    broadcast use vstd::seq_lib::group_to_multiset_ensures;
    broadcast use vstd::multiset::group_multiset_axioms;

    let p = insert_pos(s, x, 0);
    lemma_insert_pos_bounds(s, x, 0);
    let a = s.take(p);
    let b = s.skip(p);
    vstd::seq_lib::lemma_multiset_commutative(a + seq![x], b);
    vstd::seq_lib::lemma_multiset_commutative(a, seq![x]);
    vstd::seq_lib::lemma_multiset_commutative(a, b);
    assert(a + b =~= s);
    assert(seq![x] =~= Seq::<(Seq<char>, Seq<char>)>::empty().push(x));
    assert(seq![x].to_multiset() =~= vstd::multiset::Multiset::empty().insert(x));
}

/// Sorting keeps every list: the sorted lists are the given ones, each as
/// often as it was given.
pub proof fn lemma_sort_by_name_permutes(s: Seq<(Seq<char>, Seq<char>)>)
    ensures
        sort_by_name(s).to_multiset() =~= s.to_multiset(),
    decreases s.len(),
{
    broadcast use vstd::seq_lib::group_to_multiset_ensures;

    if s.len() > 0 {
        lemma_sort_by_name_permutes(s.drop_last());
        lemma_insert_sorted_multiset(sort_by_name(s.drop_last()), s.last());
        assert(s.drop_last().push(s.last()) =~= s);
    } else {
        assert(sort_by_name(s) =~= s);
    }
}

/// Orders mailing lists by name; lists with the same name keep their
/// relative order.
pub fn sort_mailing_lists(lists: &mut Vec<MailingList>)
    ensures
        lists_view(final(lists)@) == sort_by_name(lists_view(old(lists)@)),
        sorted_by_name(lists_view(final(lists)@)),
{
    let mut input: Vec<MailingList> = Vec::new();
    std::mem::swap(&mut input, lists);
    let ghost iv = lists_view(input@);
    let mut out: Vec<MailingList> = Vec::new();
    let mut i: usize = 0;
    assert(iv.take(0) =~= seq![]);
    assert(lists_view(out@) =~= seq![]);
    while i < input.len()
        invariant
            i <= input@.len(),
            iv == lists_view(input@),
            lists_view(out@) == sort_by_name(iv.take(i as int)),
        decreases input.len() - i,
    {
        let x = MailingList {
            name: input[i].name.clone(),
            description: input[i].description.clone(),
        };
        let ghost xv = iv[i as int];
        assert(x@ == xv) by {
            assert(input@[i as int]@ == iv[i as int]);
        }
        let xn = chars_of(x.name.as_str());
        let ghost ov = lists_view(out@);
        let mut p: usize = 0;
        let mut found = false;
        while p < out.len() && !found
            invariant
                p <= out@.len(),
                ov == lists_view(out@),
                insert_pos(ov, xv, 0) == insert_pos(ov, xv, p as int),
                found ==> p < out@.len() && lex_lt(xv.0, ov[p as int].0),
                xn@ == xv.0,
            decreases out.len() - p + (if found { 0int } else { 1int }),
        {
            let on = chars_of(out[p].name.as_str());
            assert(on@ == ov[p as int].0);
            if lex_lt_exec(xn.as_slice(), on.as_slice()) {
                found = true;
            } else {
                p += 1;
            }
        }
        assert(insert_pos(ov, xv, p as int) == p);
        out.insert(p, x);
        proof {
            assert(iv.take(i + 1).drop_last() =~= iv.take(i as int));
            assert(iv.take(i + 1).last() == xv);
            assert(lists_view(out@) =~= ov.take(p as int) + seq![xv] + ov.skip(p as int));
        }
        i += 1;
    }
    assert(iv.take(i as int) =~= iv);
    proof {
        lemma_sort_by_name_sorted(iv);
    }
    *lists = out;
}

} // verus!
