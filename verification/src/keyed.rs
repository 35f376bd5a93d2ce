use itertools::Itertools;
use vstd::prelude::*;

verus! {

/// Whether a pair's key is `k`.
pub open spec fn key_is<V>(k: i128) -> spec_fn((i128, V)) -> bool {
    |p: (i128, V)| p.0 == k
}

/// The pairs of `s` whose key is `k`, in order.
pub open spec fn with_key<V>(s: Seq<(i128, V)>, k: i128) -> Seq<(i128, V)> {
    s.filter(key_is(k))
}

/// Ordered by key, ascending.
pub open spec fn sorted_by_key<V>(s: Seq<(i128, V)>) -> bool {
    forall|i: int, j: int| 0 <= i <= j < s.len() ==> s[i].0 <= s[j].0
}

/// Whether `o` is `s` ordered by key, stably: the pairs of each key keep
/// their order.
pub open spec fn stably_sorted_key<V>(o: Seq<(i128, V)>, s: Seq<(i128, V)>) -> bool {
    &&& sorted_by_key(o)
    &&& forall|k: i128| #[trigger] with_key(o, k) == with_key(s, k)
}

/// Whether some pair of `s` has the key `k`.
pub open spec fn has_key<V>(s: Seq<(i128, V)>, k: i128) -> bool {
    exists|i: int| 0 <= i < s.len() && s[i].0 == k
}

/// The first pair of `s` for each key, in the order of `s`.
pub open spec fn first_by_key<V>(s: Seq<(i128, V)>) -> Seq<(i128, V)>
    decreases s.len(),
{
    if s.len() == 0 {
        Seq::empty()
    } else if has_key(s.drop_last(), s.last().0) {
        first_by_key(s.drop_last())
    } else {
        first_by_key(s.drop_last()).push(s.last())
    }
}

/// `Itertools::sorted_by_key`, keyed by the first of each pair. Claims what
/// its documentation states: the result holds the pairs it was given,
/// ordered by key, and the sort is stable, so the pairs with any one key
/// come out in the order they went in.
#[verifier::external_body]
pub(crate) fn sort_by_key<V>(items: Vec<(i128, V)>) -> (r: Vec<(i128, V)>)
    ensures
        stably_sorted_key(r@, items@),
        r@.len() == items@.len(),
{
    items.into_iter().sorted_by_key(|p| p.0).collect()
}

/// `Itertools::unique_by`, keyed by the first of each pair. Claims what its
/// documentation states: the first pair of each key is kept, in the order
/// they came.
#[verifier::external_body]
pub(crate) fn unique_by_key<V>(items: Vec<(i128, V)>) -> (r: Vec<(i128, V)>)
    ensures
        r@ == first_by_key(items@),
{
    items.into_iter().unique_by(|p| p.0).collect()
}

/// A pair of `a` is also a pair of `b` when both hold the same pairs of each
/// key.
pub proof fn lemma_same_keys_contains<V>(a: Seq<(i128, V)>, b: Seq<(i128, V)>, e: (i128, V))
    requires
        forall|k: i128| #[trigger] with_key(a, k) == with_key(b, k),
        a.contains(e),
    ensures
        b.contains(e),
{
    broadcast use vstd::seq_lib::group_filter_ensures;

    let i = choose|i: int| 0 <= i < a.len() && a[i] == e;
    let pred = key_is(e.0);
    a.lemma_filter_contains(pred, i);
    assert(with_key(a, e.0) == with_key(b, e.0));
    b.lemma_filter_contains_rev(pred, e);
}

/// Filtering a mapped sequence is mapping the filtered one, when the two
/// conditions agree through the map.
pub proof fn lemma_filter_map<A, B>(s: Seq<A>, f: spec_fn(A) -> B, p: spec_fn(B) -> bool, q: spec_fn(A) -> bool)
    requires
        forall|a: A| #[trigger] q(a) == p(f(a)),
    ensures
        s.map_values(f).filter(p) == s.filter(q).map_values(f),
    decreases s.len(),
{
    reveal(Seq::filter);
    if s.len() > 0 {
        lemma_filter_map(s.drop_last(), f, p, q);
        assert(s.map_values(f).drop_last() =~= s.drop_last().map_values(f));
        if q(s.last()) {
            assert(s.filter(q).map_values(f) =~= s.drop_last().filter(q).map_values(f).push(f(s.last())));
        } else {
            assert(s.filter(q).map_values(f) =~= s.drop_last().filter(q).map_values(f));
        }
    } else {
        assert(s.map_values(f).filter(p) =~= Seq::<B>::empty());
        assert(s.filter(q).map_values(f) =~= Seq::<B>::empty());
    }
}

/// Filters by two conditions that agree on each element are the same.
pub proof fn lemma_filter_agree<A>(s: Seq<A>, p: spec_fn(A) -> bool, q: spec_fn(A) -> bool)
    requires
        forall|i: int| 0 <= i < s.len() ==> p(#[trigger] s[i]) == q(s[i]),
    ensures
        s.filter(p) == s.filter(q),
    decreases s.len(),
{
    reveal(Seq::filter);
    if s.len() > 0 {
        assert forall|i: int| 0 <= i < s.drop_last().len() implies p(#[trigger] s.drop_last()[i]) == q(
            s.drop_last()[i],
        ) by {
            assert(s.drop_last()[i] == s[i]);
        }
        lemma_filter_agree(s.drop_last(), p, q);
        assert(p(s[s.len() - 1]) == q(s[s.len() - 1]));
    }
}

/// Mapping there and back gives the sequence again.
pub proof fn lemma_map_back<A, B>(s: Seq<A>, f: spec_fn(A) -> B, g: spec_fn(B) -> A)
    requires
        forall|i: int| 0 <= i < s.len() ==> g(f(#[trigger] s[i])) == s[i],
    ensures
        s.map_values(f).map_values(g) == s,
{
    assert(s.map_values(f).map_values(g) =~= s);
}

/// Each pair that `first_by_key` keeps is a pair of the sequence.
pub proof fn lemma_first_by_key_within<V>(s: Seq<(i128, V)>)
    ensures
        forall|i: int| 0 <= i < first_by_key(s).len() ==> s.contains(#[trigger] first_by_key(s)[i]),
    decreases s.len(),
{
    if s.len() > 0 {
        let d = s.drop_last();
        lemma_first_by_key_within(d);
        assert forall|i: int| 0 <= i < first_by_key(s).len() implies s.contains(#[trigger] first_by_key(s)[i]) by {
            if i < first_by_key(d).len() {
                assert(first_by_key(s)[i] == first_by_key(d)[i]);
                assert(d.contains(first_by_key(d)[i]));
                let j = choose|j: int| 0 <= j < d.len() && d[j] == first_by_key(d)[i];
                assert(s[j] == d[j]);
            } else {
                assert(first_by_key(s)[i] == s.last());
                assert(s[s.len() - 1] == s.last());
            }
        }
    }
}

} // verus!
