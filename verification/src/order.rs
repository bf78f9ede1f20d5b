//! Ordering text lexicographically, and a stable sort by textual keys.

use vstd::prelude::*;
use vstd::multiset::Multiset;
use crate::text::chars_of;

verus! {

/// `a` comes before `b` in lexicographic order, looking from index `i` on:
/// at the first position where they differ the character of `a` is the
/// smaller, or `a` ends first.
pub open spec fn lex_lt_from(a: Seq<char>, b: Seq<char>, i: nat) -> bool
    decreases a.len() - i,
{
    if i >= a.len() {
        i < b.len()
    } else if i >= b.len() {
        false
    } else if a[i as int] != b[i as int] {
        (a[i as int] as int) < (b[i as int] as int)
    } else {
        lex_lt_from(a, b, i + 1)
    }
}

/// `a` comes strictly before `b` in lexicographic (code point) order.
pub open spec fn lex_lt(a: Seq<char>, b: Seq<char>) -> bool {
    lex_lt_from(a, b, 0)
}

pub proof fn lemma_lex_irreflexive_from(a: Seq<char>, i: nat)
    ensures
        !lex_lt_from(a, a, i),
    decreases a.len() - i,
{
    if i < a.len() {
        lemma_lex_irreflexive_from(a, i + 1);
    }
}

pub proof fn lemma_lex_transitive_from(a: Seq<char>, b: Seq<char>, c: Seq<char>, i: nat)
    requires
        lex_lt_from(a, b, i),
        lex_lt_from(b, c, i),
    ensures
        lex_lt_from(a, c, i),
    decreases a.len() - i,
{
    if i < a.len() && i < b.len() && i < c.len() && a[i as int] == b[i as int] && b[i as int] == c[i as int] {
        lemma_lex_transitive_from(a, b, c, i + 1);
    }
}

pub proof fn lemma_lex_total_from(a: Seq<char>, b: Seq<char>, i: nat)
    requires
        i <= a.len(),
        i <= b.len(),
        a.subrange(0, i as int) == b.subrange(0, i as int),
    ensures
        lex_lt_from(a, b, i) || lex_lt_from(b, a, i) || a == b,
    decreases a.len() - i,
{
    if i < a.len() && i < b.len() && a[i as int] == b[i as int] {
        assert(a.subrange(0, (i + 1) as int) =~= a.subrange(0, i as int).push(a[i as int]));
        assert(b.subrange(0, (i + 1) as int) =~= b.subrange(0, i as int).push(b[i as int]));
        lemma_lex_total_from(a, b, i + 1);
    } else if i == a.len() && i == b.len() {
        assert(a =~= a.subrange(0, i as int));
        assert(b =~= b.subrange(0, i as int));
    }
}

/// Lexicographic order is a strict total order.
pub proof fn lemma_lex_order(a: Seq<char>, b: Seq<char>, c: Seq<char>)
    ensures
        !lex_lt(a, a),
        lex_lt(a, b) && lex_lt(b, c) ==> lex_lt(a, c),
        lex_lt(a, b) || lex_lt(b, a) || a == b,
{
    lemma_lex_irreflexive_from(a, 0);
    if lex_lt(a, b) && lex_lt(b, c) {
        lemma_lex_transitive_from(a, b, c, 0);
    }
    assert(a.subrange(0, 0) =~= b.subrange(0, 0));
    lemma_lex_total_from(a, b, 0);
}

/// Whether `a` comes strictly before `b` in lexicographic order.
pub fn chars_lt(a: &Vec<char>, b: &Vec<char>) -> (r: bool)
    ensures
        r == lex_lt(a@, b@),
{
    let mut i: usize = 0;
    while i < a.len() && i < b.len() && a[i] == b[i]
        invariant
            i <= a.len(),
            i <= b.len(),
            lex_lt(a@, b@) == lex_lt_from(a@, b@, i as nat),
        decreases a.len() - i,
    {
        i = i + 1;
    }
    if i >= a.len() {
        i < b.len()
    } else if i >= b.len() {
        false
    } else {
        a[i] < b[i]
    }
}

/// Keys compared first by their first part, then by their second.
pub open spec fn pair_lt(a: (Seq<char>, Seq<char>), b: (Seq<char>, Seq<char>)) -> bool {
    lex_lt(a.0, b.0) || (a.0 == b.0 && lex_lt(a.1, b.1))
}

pub proof fn lemma_pair_order(a: (Seq<char>, Seq<char>), b: (Seq<char>, Seq<char>), c: (Seq<char>, Seq<char>))
    ensures
        !pair_lt(a, a),
        pair_lt(a, b) && pair_lt(b, c) ==> pair_lt(a, c),
{
    lemma_lex_order(a.0, b.0, c.0);
    lemma_lex_order(a.1, b.1, c.1);
    lemma_lex_order(a.0, a.0, a.0);
    lemma_lex_order(a.1, a.1, a.1);
}

/// A value sorted by a textual key of two parts.
pub trait SortKey: Sized {
    spec fn sort_key(&self) -> (Seq<char>, Seq<char>);

    fn key_lt(&self, other: &Self) -> (r: bool)
        ensures
            r == pair_lt(self.sort_key(), other.sort_key()),
    ;
}

impl SortKey for String {
    open spec fn sort_key(&self) -> (Seq<char>, Seq<char>) {
        (self@, Seq::empty())
    }

    fn key_lt(&self, other: &Self) -> (r: bool) {
        proof {
            lemma_lex_order(Seq::<char>::empty(), Seq::<char>::empty(), Seq::<char>::empty());
        }
        chars_lt(&chars_of(self.as_str()), &chars_of(other.as_str()))
    }
}

/// No element's key comes before the key of an element earlier in `s`.
pub open spec fn sorted_by_key<T: SortKey>(s: Seq<T>) -> bool {
    forall|i: int, j: int| 0 <= i < j < s.len() ==> !pair_lt(#[trigger] s[j].sort_key(), #[trigger] s[i].sort_key())
}

/// Inserts `x` after every element whose key does not come after its key.
fn insert_by_key<T: SortKey>(sorted: &mut Vec<T>, x: T)
    requires
        sorted_by_key(old(sorted)@),
    ensures
        sorted_by_key(final(sorted)@),
        final(sorted)@.to_multiset() == old(sorted)@.to_multiset().insert(x),
{
    let mut p: usize = 0;
    while p < sorted.len() && !x.key_lt(&sorted[p])
        invariant
            p <= sorted@.len(),
            forall|k: int| 0 <= k < p ==> !pair_lt(x.sort_key(), #[trigger] sorted@[k].sort_key()),
        decreases sorted.len() - p,
    {
        p = p + 1;
    }
    let ghost before = sorted@;
    let ghost xk = x.sort_key();
    sorted.insert(p, x);
    proof {
        vstd::seq_lib::to_multiset_insert(before, p as int, x);
        let after = sorted@;
        assert(after == before.insert(p as int, x));
        assert forall|i: int, j: int| 0 <= i < j < after.len() implies !pair_lt(#[trigger] after[j].sort_key(), #[trigger] after[i].sort_key()) by {
            if j < p {
                assert(after[i] == before[i] && after[j] == before[j]);
            } else if j == p {
                assert(after[i] == before[i]);
            } else if i < p {
                assert(after[i] == before[i] && after[j] == before[j - 1]);
            } else if i == p {
                let y = before[j - 1].sort_key();
                let first = before[p as int].sort_key();
                assert(pair_lt(xk, first));
                lemma_pair_order(y, xk, first);
                if j - 1 > p {
                    assert(!pair_lt(before[j - 1].sort_key(), before[p as int].sort_key()));
                }
            } else {
                assert(after[i] == before[i - 1] && after[j] == before[j - 1]);
            }
        }
    }
}

/// The elements of `items` ordered by key; elements with equal keys keep
/// no particular order among themselves.
pub fn sort_by_key<T: SortKey>(items: Vec<T>) -> (sorted: Vec<T>)
    ensures
        sorted_by_key(sorted@),
        sorted@.to_multiset() == items@.to_multiset(),
{
    let mut rest = items;
    let mut sorted: Vec<T> = Vec::new();
    assert(sorted@.to_multiset() =~= Multiset::<T>::empty()) by {
        broadcast use vstd::seq_lib::group_to_multiset_ensures;
    }
    while rest.len() > 0
        invariant
            sorted_by_key(sorted@),
            sorted@.to_multiset().add(rest@.to_multiset()) == items@.to_multiset(),
        decreases rest.len(),
    {
        let ghost before = rest@;
        let x = rest.pop().unwrap();
        proof {
            assert(before == rest@.push(x));
            vstd::seq_lib::to_multiset_build(rest@, x);
        }
        let ghost sorted_before = sorted@;
        insert_by_key(&mut sorted, x);
        assert(sorted@.to_multiset().add(rest@.to_multiset()) =~= sorted_before.to_multiset().add(before.to_multiset()));
    }
    assert(rest@.to_multiset() =~= Multiset::<T>::empty()) by {
        broadcast use vstd::seq_lib::group_to_multiset_ensures;
        assert(rest@.len() == 0);
        vstd::seq_lib::to_multiset_len(rest@);
    }
    assert(sorted@.to_multiset() =~= sorted@.to_multiset().add(rest@.to_multiset()));
    sorted
}

/// Sequences holding the same elements, in any order, still do so after
/// every element is mapped by `f`.
pub proof fn lemma_map_values_multiset<A, B>(s1: Seq<A>, s2: Seq<A>, f: spec_fn(A) -> B)
    requires
        s1.to_multiset() == s2.to_multiset(),
    ensures
        s1.map_values(f).to_multiset() == s2.map_values(f).to_multiset(),
    decreases s1.len(),
{
    broadcast use vstd::seq_lib::group_to_multiset_ensures;
    broadcast use vstd::multiset::group_multiset_axioms;

    assert(s1.len() == s1.to_multiset().len());
    assert(s2.len() == s2.to_multiset().len());
    if s1.len() == 0 {
        assert(s2.len() == 0);
        assert(s1.map_values(f) =~= s2.map_values(f));
    } else {
        let x = s1.last();
        let s1r = s1.drop_last();
        assert(s1 =~= s1r.push(x));
        assert(s1.to_multiset().count(x) > 0);
        assert(s2.to_multiset().count(x) > 0);
        assert(s2.contains(x));
        let k = choose|k: int| 0 <= k < s2.len() && s2[k] == x;
        let s2r = s2.remove(k);
        assert(s1r.to_multiset() =~= s2r.to_multiset());
        lemma_map_values_multiset(s1r, s2r, f);
        assert(s1.map_values(f) =~= s1r.map_values(f).push(f(x)));
        assert(s2.map_values(f) =~= s2r.map_values(f).insert(k, f(x)));
        vstd::seq_lib::to_multiset_insert(s2r.map_values(f), k, f(x));
    }
}

} // verus!
