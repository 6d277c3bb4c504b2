//! Stable sorting: items are ordered by a strict order `lt`, and items that neither precedes
//! keep the order they had.

use vstd::prelude::*;

verus! {

broadcast use vstd::seq_lib::group_to_multiset_ensures;

/// The first position, from `p` on, whose item `x` strictly precedes; `s.len()` if none.
pub open spec fn first_after<A>(s: Seq<A>, x: A, lt: spec_fn(A, A) -> bool, p: int) -> int
    decreases s.len() - p,
{
    if p < 0 || p >= s.len() {
        s.len() as int
    } else if lt(x, s[p]) {
        p
    } else {
        first_after(s, x, lt, p + 1)
    }
}

/// `x` put into `s` after every item that it does not strictly precede.
pub open spec fn insert_sorted<A>(s: Seq<A>, x: A, lt: spec_fn(A, A) -> bool) -> Seq<A> {
    s.insert(first_after(s, x, lt, 0), x)
}

/// `s` sorted by `lt`, each item taken in turn and put after every item it does not
/// strictly precede; so items that neither precedes keep their order.
pub open spec fn stable_sort<A>(s: Seq<A>, lt: spec_fn(A, A) -> bool) -> Seq<A>
    decreases s.len(),
{
    if s.len() == 0 {
        s
    } else {
        insert_sorted(stable_sort(s.drop_last(), lt), s.last(), lt)
    }
}

/// No item of `s` strictly precedes an item before it.
pub open spec fn sorted_by<A>(s: Seq<A>, lt: spec_fn(A, A) -> bool) -> bool {
    forall|i: int, j: int| 0 <= i < j < s.len() ==> !lt(#[trigger] s[j], #[trigger] s[i])
}

/// `lt` is a strict order: no item precedes itself, and precedence is transitive.
pub open spec fn strict_order<A>(lt: spec_fn(A, A) -> bool) -> bool {
    &&& forall|a: A| !#[trigger] lt(a, a)
    &&& forall|a: A, b: A, c: A| #[trigger] lt(a, b) && #[trigger] lt(b, c) ==> lt(a, c)
}

proof fn lemma_first_after_bounds<A>(s: Seq<A>, x: A, lt: spec_fn(A, A) -> bool, p: int)
    requires
        0 <= p <= s.len(),
    ensures
        p <= first_after(s, x, lt, p) <= s.len(),
        forall|i: int| p <= i < first_after(s, x, lt, p) ==> !lt(x, #[trigger] s[i]),
        first_after(s, x, lt, p) < s.len() ==> lt(x, s[first_after(s, x, lt, p)]),
    decreases s.len() - p,
{
    if p < s.len() && !lt(x, s[p]) {
        lemma_first_after_bounds(s, x, lt, p + 1);
    }
}

/// Sorting keeps every item, as often as it occurs, and gives as many items.
pub proof fn lemma_stable_sort_permutes<A>(s: Seq<A>, lt: spec_fn(A, A) -> bool)
    ensures
        stable_sort(s, lt).to_multiset() == s.to_multiset(),
        stable_sort(s, lt).len() == s.len(),
    decreases s.len(),
{
    if s.len() > 0 {
        let t = stable_sort(s.drop_last(), lt);
        lemma_stable_sort_permutes(s.drop_last(), lt);
        lemma_first_after_bounds(t, s.last(), lt, 0);
        vstd::seq_lib::to_multiset_insert(t, first_after(t, s.last(), lt, 0), s.last());
        assert(s.drop_last().push(s.last()) =~= s);
    }
}

/// Every item of the sorted sequence is an item of `s`.
pub proof fn lemma_stable_sort_items<A>(s: Seq<A>, lt: spec_fn(A, A) -> bool)
    ensures
        forall|i: int| 0 <= i < stable_sort(s, lt).len() ==> s.contains(#[trigger] stable_sort(s, lt)[i]),
{
    lemma_stable_sort_permutes(s, lt);
    let t = stable_sort(s, lt);
    assert forall|i: int| 0 <= i < t.len() implies s.contains(#[trigger] t[i]) by {
        assert(t.contains(t[i]));
        assert(t.to_multiset().count(t[i]) > 0);
        assert(s.to_multiset().count(t[i]) > 0);
    }
}

/// Under a strict order, sorting gives a sorted sequence.
pub proof fn lemma_stable_sort_sorted<A>(s: Seq<A>, lt: spec_fn(A, A) -> bool)
    requires
        strict_order(lt),
    ensures
        sorted_by(stable_sort(s, lt), lt),
    decreases s.len(),
{
    if s.len() > 0 {
        let t = stable_sort(s.drop_last(), lt);
        let x = s.last();
        lemma_stable_sort_sorted(s.drop_last(), lt);
        lemma_first_after_bounds(t, x, lt, 0);
        let p = first_after(t, x, lt, 0);
        let r = t.insert(p, x);
        t.insert_ensures(p, x);
        assert forall|i: int, j: int| 0 <= i < j < r.len() implies !lt(#[trigger] r[j], #[trigger] r[i]) by {
            if j < p {
                assert(r[i] == t[i] && r[j] == t[j]);
            } else if j == p {
                assert(r[i] == t[i]);
            } else if i < p {
                assert(r[i] == t[i] && r[j] == t[j - 1]);
                if i < j - 1 {
                    assert(!lt(t[j - 1], t[i]));
                }
            } else if i == p {
                assert(r[j] == t[j - 1]);
                assert(lt(x, t[p]));
                if j - 1 > p {
                    assert(!lt(t[j - 1], t[p]));
                }
                if lt(t[j - 1], x) {
                    assert(lt(t[j - 1], t[p]));
                }
            } else {
                assert(r[i] == t[i - 1] && r[j] == t[j - 1]);
            }
        }
    }
}

/// Sorts `v` stably by `lt`, which `less` computes with the help of `ctx`.
pub(crate) fn sort_stable<A, C, F: Fn(&C, &A, &A) -> bool>(
    v: &mut Vec<A>,
    ctx: &C,
    less: F,
    Ghost(lt): Ghost<spec_fn(A, A) -> bool>,
)
    requires
        forall|a: &A, b: &A| #[trigger] less.requires((ctx, a, b)),
        forall|a: &A, b: &A, r: bool| less.ensures((ctx, a, b), r) ==> r == lt(*a, *b),
    ensures
        final(v)@ == stable_sort(old(v)@, lt),
{
    let ghost orig = v@;
    let n = v.len();
    let mut i: usize = 0;
    assert(orig.take(0) =~= Seq::<A>::empty());
    assert(v@.take(0) =~= Seq::<A>::empty());
    while i < n
        invariant
            n == v@.len(),
            n == orig.len(),
            i <= n,
            v@.take(i as int) == stable_sort(orig.take(i as int), lt),
            v@.skip(i as int) == orig.skip(i as int),
            forall|a: &A, b: &A| #[trigger] less.requires((ctx, a, b)),
            forall|a: &A, b: &A, r: bool| less.ensures((ctx, a, b), r) ==> r == lt(*a, *b),
        decreases n - i,
    {
        let ghost sorted = v@.take(i as int);
        let ghost x = v@[i as int];
        assert(x == orig[i as int]) by {
            assert(v@.skip(i as int)[0] == orig.skip(i as int)[0]);
        }
        let mut p: usize = 0;
        while p < i && !less(ctx, &v[i], &v[p])
            invariant
                p <= i,
                i < n,
                n == v@.len(),
                sorted == v@.take(i as int),
                x == v@[i as int],
                first_after(sorted, x, lt, 0) == first_after(sorted, x, lt, p as int),
                forall|a: &A, b: &A| #[trigger] less.requires((ctx, a, b)),
                forall|a: &A, b: &A, r: bool| less.ensures((ctx, a, b), r) ==> r == lt(*a, *b),
            decreases i - p,
        {
            p += 1;
        }
        assert(first_after(sorted, x, lt, 0) == p);
        let ghost before = v@;
        let item = v.remove(i);
        v.insert(p, item);
        assert(v@.take(i + 1) =~= sorted.insert(p as int, x));
        assert(orig.take(i + 1).drop_last() =~= orig.take(i as int));
        assert(v@.skip(i + 1) =~= orig.skip(i + 1)) by {
            assert(before.skip(i as int).skip(1) =~= before.skip(i + 1));
            assert(orig.skip(i as int).skip(1) =~= orig.skip(i + 1));
        }
        i += 1;
    }
    assert(v@.take(n as int) =~= v@);
    assert(orig.take(n as int) =~= orig);
}

} // verus!
