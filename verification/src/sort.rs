//! Stable sorting of keyed items, the order that `slice::sort_by_key` and
//! `slice::sort_by` produce: ascending by key, items with equal keys in their
//! input order.

use vstd::prelude::*;

verus! {

broadcast use vstd::seq_lib::group_seq_properties;

/// The items of `s` whose key is `k`, in their order in `s`.
pub open spec fn key_group<T>(s: Seq<(i128, T)>, k: i128) -> Seq<(i128, T)>
    decreases s.len(),
{
    if s.len() == 0 {
        Seq::empty()
    } else {
        let g = key_group(s.drop_last(), k);
        if s.last().0 == k {
            g.push(s.last())
        } else {
            g
        }
    }
}

/// Keys do not decrease along `s`.
pub open spec fn is_sorted_by_key<T>(s: Seq<(i128, T)>) -> bool {
    forall|i: int, j: int| 0 <= i <= j < s.len() ==> s[i].0 <= s[j].0
}

/// `out` is the stable sort of `input` by key: sorted, and for every key the
/// items with that key appear in the same order as in `input` (which also
/// makes `out` a permutation of `input`).
pub open spec fn is_stable_sort_of<T>(out: Seq<(i128, T)>, input: Seq<(i128, T)>) -> bool {
    &&& is_sorted_by_key(out)
    &&& forall|k: i128| #[trigger] key_group(out, k) == key_group(input, k)
}

/// Grouping distributes over concatenation.
pub proof fn lemma_key_group_concat<T>(a: Seq<(i128, T)>, b: Seq<(i128, T)>, k: i128)
    ensures
        key_group(a + b, k) == key_group(a, k) + key_group(b, k),
    decreases b.len(),
{
    if b.len() == 0 {
        assert(a + b =~= a);
        assert(key_group(b, k) =~= Seq::<(i128, T)>::empty());
        assert(key_group(a, k) + key_group(b, k) =~= key_group(a, k));
    } else {
        lemma_key_group_concat(a, b.drop_last(), k);
        assert((a + b).drop_last() =~= a + b.drop_last());
        assert((a + b).last() == b.last());
        if b.last().0 == k {
            assert(key_group(a, k) + key_group(b.drop_last(), k).push(b.last()) =~= (key_group(a, k)
                + key_group(b.drop_last(), k)).push(b.last()));
        }
    }
}

/// No item of `s` has key `k`, so its group for `k` is empty.
pub proof fn lemma_key_group_none<T>(s: Seq<(i128, T)>, k: i128)
    requires
        forall|i: int| 0 <= i < s.len() ==> s[i].0 != k,
    ensures
        key_group(s, k) == Seq::<(i128, T)>::empty(),
    decreases s.len(),
{
    if s.len() > 0 {
        lemma_key_group_none(s.drop_last(), k);
    }
}

/// Inserting an item after every item with a key up to its own, and before
/// every item with a larger key, keeps a sorted sequence sorted and appends
/// the item to its key's group.
pub proof fn lemma_insert_after_key<T>(before: Seq<(i128, T)>, x: (i128, T), p: int)
    requires
        is_sorted_by_key(before),
        0 <= p <= before.len(),
        forall|j: int| 0 <= j < p ==> before[j].0 <= x.0,
        forall|j: int| p <= j < before.len() ==> before[j].0 > x.0,
    ensures
        is_sorted_by_key(before.insert(p, x)),
        forall|k: i128|
            #[trigger] key_group(before.insert(p, x), k) == if k == x.0 {
                key_group(before, k).push(x)
            } else {
                key_group(before, k)
            },
{
    let after = before.insert(p, x);
    let lo = before.subrange(0, p);
    let hi = before.subrange(p, before.len() as int);
    assert(before =~= lo + hi);
    assert(after =~= lo + seq![x] + hi);
    assert forall|i: int, j: int| 0 <= i <= j < after.len() implies after[i].0 <= after[j].0 by {
        if j > p {
            assert(after[j] == before[j - 1]);
        }
        if i > p {
            assert(after[i] == before[i - 1]);
        }
    }
    assert forall|k: i128| #[trigger] key_group(after, k) == if k == x.0 {
        key_group(before, k).push(x)
    } else {
        key_group(before, k)
    } by {
        lemma_key_group_concat(lo + seq![x], hi, k);
        lemma_key_group_concat(lo, seq![x], k);
        lemma_key_group_concat(lo, hi, k);
        assert(seq![x].drop_last() =~= Seq::<(i128, T)>::empty());
        if x.0 == k {
            assert forall|i: int| 0 <= i < hi.len() implies hi[i].0 != k by {
                assert(hi[i] == before[p + i]);
            }
            lemma_key_group_none(hi, k);
            assert(key_group(seq![x], k) =~= seq![x]);
            assert(key_group(lo, k) + seq![x] + Seq::<(i128, T)>::empty() =~= (key_group(lo, k)
                + Seq::<(i128, T)>::empty()).push(x));
        } else {
            assert(key_group(seq![x], k) =~= Seq::<(i128, T)>::empty());
            assert(key_group(lo, k) + Seq::<(i128, T)>::empty() =~= key_group(lo, k));
        }
    }
}

/// An item is in the group of key `k` exactly when it is in the sequence and
/// has key `k`.
pub proof fn lemma_key_group_contains<T>(s: Seq<(i128, T)>, k: i128, x: (i128, T))
    ensures
        key_group(s, k).contains(x) <==> (s.contains(x) && x.0 == k),
    decreases s.len(),
{
    if s.len() > 0 {
        let d = s.drop_last();
        lemma_key_group_contains(d, k, x);
        assert(d.push(s.last()) =~= s);
        let g = key_group(d, k);
        if s.last().0 == k {
            assert(key_group(s, k) == g.push(s.last()));
            if g.push(s.last()).contains(x) && x != s.last() {
                let i = choose|i: int| 0 <= i < g.push(s.last()).len() && g.push(s.last())[i] == x;
                assert(g[i] == x);
            }
            if g.contains(x) {
                let i = choose|i: int| 0 <= i < g.len() && g[i] == x;
                assert(g.push(s.last())[i] == x);
            }
            assert(g.push(s.last())[g.len() as int] == s.last());
        }
        if s.contains(x) && x != s.last() {
            let i = choose|i: int| 0 <= i < s.len() && s[i] == x;
            assert(d[i] == x);
        }
        if d.contains(x) {
            let i = choose|i: int| 0 <= i < d.len() && d[i] == x;
            assert(s[i] == x);
        }
        assert(s[s.len() - 1] == s.last());
    }
}

/// A stable sort holds exactly the items of its input.
pub proof fn lemma_stable_sort_same_items<T>(out: Seq<(i128, T)>, input: Seq<(i128, T)>, x: (i128, T))
    requires
        is_stable_sort_of(out, input),
    ensures
        out.contains(x) <==> input.contains(x),
{
    lemma_key_group_contains(out, x.0, x);
    lemma_key_group_contains(input, x.0, x);
    assert(key_group(out, x.0) == key_group(input, x.0));
}

/// Sorts stably by key: ascending keys, equal keys in their input order.
pub fn stable_sort_by_key<T>(items: Vec<(i128, T)>) -> (sorted: Vec<(i128, T)>)
    ensures
        is_stable_sort_of(sorted@, items@),
        sorted@.len() == items@.len(),
{
    let ghost orig = items@;
    let mut rest = items;
    let mut sorted: Vec<(i128, T)> = Vec::new();
    let ghost mut done: int = 0;
    assert(orig.take(0) =~= Seq::<(i128, T)>::empty());
    assert(orig.skip(0) =~= orig);
    while rest.len() > 0
        invariant
            0 <= done <= orig.len(),
            rest@ == orig.skip(done),
            sorted@.len() == done,
            is_sorted_by_key(sorted@),
            forall|k: i128| #[trigger] key_group(sorted@, k) == key_group(orig.take(done), k),
        decreases rest@.len(),
    {
        let x = rest.remove(0);
        let mut pos: usize = 0;
        while pos < sorted.len() && sorted[pos].0 <= x.0
            invariant
                pos <= sorted@.len(),
                forall|j: int| 0 <= j < pos ==> sorted@[j].0 <= x.0,
            decreases sorted@.len() - pos,
        {
            pos = pos + 1;
        }
        let ghost before = sorted@;
        proof {
            assert forall|j: int| pos <= j < before.len() implies before[j].0 > x.0 by {
                assert(before[pos as int].0 > x.0);
                assert(before[pos as int].0 <= before[j].0);
            }
        }
        sorted.insert(pos, x);
        proof {
            lemma_insert_after_key(before, x, pos as int);
            assert(orig.take(done + 1) =~= orig.take(done).push(x));
            assert(orig.take(done + 1).drop_last() =~= orig.take(done));
            assert(rest@ =~= orig.skip(done + 1));
            done = done + 1;
        }
    }
    assert(orig.take(done) =~= orig);
    sorted
}

} // verus!
