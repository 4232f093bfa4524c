//! Where the n-th element of a kind stands in a sequence.
//!
//! A kind is given by a function that maps an element to `Some` value when
//! the element is of that kind. The elements of the kind, in order, are
//! `s.filter_map(f)`; this module relates an index into that sequence to the
//! index of the same element in `s`.

use vstd::prelude::*;

verus! {

/// `i` is the index in `s` of the element that `f` keeps after having kept
/// exactly `n` earlier ones.
pub open spec fn is_place<A, B>(s: Seq<A>, f: spec_fn(A) -> Option<B>, n: int, i: int) -> bool {
    &&& 0 <= i < s.len()
    &&& f(s[i]) is Some
    &&& s.take(i).filter_map(f).len() == n
}

/// What `f` keeps of a prefix of `s` is a prefix of what it keeps of `s`.
pub proof fn lemma_kept_prefix<A, B>(s: Seq<A>, f: spec_fn(A) -> Option<B>, i: int, j: int)
    requires
        0 <= i <= j <= s.len(),
    ensures
        s.take(i).filter_map(f).len() <= s.take(j).filter_map(f).len(),
        s.take(j).filter_map(f).take(s.take(i).filter_map(f).len() as int) == s.take(
            i,
        ).filter_map(f),
    decreases j - i,
{
    if i < j {
        lemma_kept_prefix(s, f, i, j - 1);
        s.lemma_filter_map_take_succ(f, j - 1);
        let short = s.take(i).filter_map(f);
        let before = s.take(j - 1).filter_map(f);
        let after = s.take(j).filter_map(f);
        assert(after.take(short.len() as int) =~= before.take(short.len() as int));
    } else {
        let kept = s.take(i).filter_map(f);
        assert(kept.take(kept.len() as int) =~= kept);
    }
}

/// The element at the place of the `n`-th kept one is the `n`-th kept one.
pub proof fn lemma_place_is_nth<A, B>(s: Seq<A>, f: spec_fn(A) -> Option<B>, n: int, i: int)
    requires
        is_place(s, f, n, i),
    ensures
        0 <= n < s.filter_map(f).len(),
        s.filter_map(f)[n] == f(s[i])->0,
{
    s.lemma_filter_map_take_succ(f, i);
    lemma_kept_prefix(s, f, i + 1, s.len() as int);
    assert(s.take(s.len() as int) =~= s);
    let upto = s.take(i + 1).filter_map(f);
    assert(upto[n] == f(s[i])->0);
    assert(s.filter_map(f).take(upto.len() as int)[n] == upto[n]);
}

/// The `n`-th kept element has one place only.
pub proof fn lemma_place_unique<A, B>(s: Seq<A>, f: spec_fn(A) -> Option<B>, n: int, i: int, j: int)
    requires
        is_place(s, f, n, i),
        is_place(s, f, n, j),
    ensures
        i == j,
{
    if i < j {
        s.lemma_filter_map_take_succ(f, i);
        lemma_kept_prefix(s, f, i + 1, j);
    } else if j < i {
        s.lemma_filter_map_take_succ(f, j);
        lemma_kept_prefix(s, f, j + 1, i);
    }
}

/// Every kept element has a place.
pub proof fn lemma_nth_has_place<A, B>(s: Seq<A>, f: spec_fn(A) -> Option<B>, n: int) -> (i: int)
    requires
        0 <= n < s.filter_map(f).len(),
    ensures
        is_place(s, f, n, i),
    decreases s.len(),
{
    assert(s.len() > 0);
    let last = s.len() - 1;
    assert(s.take(last) =~= s.drop_last());
    if n < s.drop_last().filter_map(f).len() {
        let i = lemma_nth_has_place(s.drop_last(), f, n);
        assert(s.drop_last().take(i) =~= s.take(i));
        i
    } else {
        last
    }
}

/// What `f` keeps of two sequences in a row is what it keeps of the first
/// and then what it keeps of the second.
pub proof fn lemma_kept_add<A, B>(a: Seq<A>, b: Seq<A>, f: spec_fn(A) -> Option<B>)
    ensures
        (a + b).filter_map(f) == a.filter_map(f) + b.filter_map(f),
    decreases b.len(),
{
    if b.len() == 0 {
        assert(a + b =~= a);
        assert(a.filter_map(f) + b.filter_map(f) =~= a.filter_map(f));
    } else {
        lemma_kept_add(a, b.drop_last(), f);
        assert((a + b).drop_last() =~= a + b.drop_last());
        assert((a + b).last() == b.last());
        match f(b.last()) {
            Some(x) => {
                assert(a.filter_map(f) + (b.drop_last().filter_map(f) + seq![x]) =~= (a.filter_map(
                    f,
                ) + b.drop_last().filter_map(f)) + seq![x]);
            },
            None => {},
        }
    }
}

/// Where a kept element is replaced by another that `f` keeps, the kept
/// elements are the same but for that one.
pub proof fn lemma_kept_update<A, B>(
    s: Seq<A>,
    f: spec_fn(A) -> Option<B>,
    n: int,
    i: int,
    x: A,
)
    requires
        is_place(s, f, n, i),
        f(x) is Some,
    ensures
        s.update(i, x).filter_map(f) == s.filter_map(f).update(n, f(x)->0),
        is_place(s.update(i, x), f, n, i),
{
    let before = s.take(i);
    let after = s.skip(i + 1);
    assert(s =~= before + seq![s[i]] + after);
    assert(s.update(i, x) =~= before + seq![x] + after);
    lemma_kept_add(before + seq![s[i]], after, f);
    lemma_kept_add(before, seq![s[i]], f);
    lemma_kept_add(before + seq![x], after, f);
    lemma_kept_add(before, seq![x], f);
    Seq::lemma_filter_map_singleton(s[i], f);
    Seq::lemma_filter_map_singleton(x, f);
    assert(s.update(i, x).filter_map(f) =~= s.filter_map(f).update(n, f(x)->0));
    assert(s.update(i, x).take(i) =~= before);
}

/// Where an element that `f` does not keep is replaced by another that it
/// does not keep, the kept elements are the same.
pub proof fn lemma_kept_update_other<A, B>(s: Seq<A>, f: spec_fn(A) -> Option<B>, i: int, x: A)
    requires
        0 <= i < s.len(),
        f(s[i]) is None,
        f(x) is None,
    ensures
        s.update(i, x).filter_map(f) == s.filter_map(f),
{
    let before = s.take(i);
    let after = s.skip(i + 1);
    assert(s =~= before + seq![s[i]] + after);
    assert(s.update(i, x) =~= before + seq![x] + after);
    lemma_kept_add(before + seq![s[i]], after, f);
    lemma_kept_add(before, seq![s[i]], f);
    lemma_kept_add(before + seq![x], after, f);
    lemma_kept_add(before, seq![x], f);
    Seq::lemma_filter_map_singleton(s[i], f);
    Seq::lemma_filter_map_singleton(x, f);
    assert(before.filter_map(f) + Seq::<B>::empty() =~= before.filter_map(f));
}

/// The place of the `n`-th kept element of `s`.
pub open spec fn place<A, B>(s: Seq<A>, f: spec_fn(A) -> Option<B>, n: int) -> int {
    choose|i: int| is_place(s, f, n, i)
}

/// `found` is the answer to the question where the `n`-th kept element of
/// `s` stands: its place, or `None` where `f` keeps `n` elements or fewer.
pub open spec fn finds<A, B>(
    s: Seq<A>,
    f: spec_fn(A) -> Option<B>,
    n: int,
    found: Option<usize>,
) -> bool {
    match found {
        Some(i) => is_place(s, f, n, i as int),
        None => s.filter_map(f).len() <= n,
    }
}

/// Walks `v` from the front and gives the place of the `n`-th element that
/// `hit` accepts.
pub(crate) fn find<A, B, F: Fn(&A) -> bool>(
    v: &Vec<A>,
    hit: F,
    n: usize,
    Ghost(f): Ghost<spec_fn(A) -> Option<B>>,
) -> (found: Option<usize>)
    requires
        forall|a: &A| #[trigger] call_requires(hit, (a,)),
        forall|a: &A, b: bool| #[trigger] call_ensures(hit, (a,), b) ==> b == (f(*a) is Some),
    ensures
        finds(v@, f, n as int, found),
{
    let mut seen: usize = 0;
    let mut i: usize = 0;
    while i < v.len()
        invariant
            i <= v.len(),
            seen <= n,
            seen <= i,
            seen == v@.take(i as int).filter_map(f).len(),
            forall|a: &A| #[trigger] call_requires(hit, (a,)),
            forall|a: &A, b: bool| #[trigger] call_ensures(hit, (a,), b) ==> b == (f(*a) is Some),
        decreases v.len() - i,
    {
        proof {
            v@.lemma_filter_map_take_succ(f, i as int);
        }
        if hit(&v[i]) {
            if seen == n {
                return Some(i);
            }
            seen = seen + 1;
        }
        i = i + 1;
    }
    assert(v@.take(i as int) =~= v@);
    None
}

} // verus!
