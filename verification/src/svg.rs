use vstd::prelude::*;

use crate::axes::{document, document_of, group_of};
use crate::keyed::{
    first_by_key, has_key, key_is, lemma_filter_agree, lemma_filter_map, lemma_first_by_key_within,
    lemma_map_back, lemma_same_keys_contains, sort_by_key, unique_by_key, with_key,
};
use crate::element::{AttrV, AttrValue, Element, ElementV, PathCommand};

verus! {

broadcast use vstd::std_specs::vec::group_vec_axioms;

/// Whether a point's x is `k`.
pub open spec fn x_is(k: usize) -> spec_fn((usize, usize)) -> bool {
    |p: (usize, usize)| p.0 == k
}

/// Whether a point's y is `v`.
pub open spec fn y_is(v: usize) -> spec_fn((usize, usize)) -> bool {
    |p: (usize, usize)| p.1 == v
}

/// The points of `s` whose x is `k`, in order.
pub open spec fn with_x(s: Seq<(usize, usize)>, k: usize) -> Seq<(usize, usize)> {
    s.filter(x_is(k))
}

/// The points of `s` whose y is `v`, in order.
pub open spec fn with_y(s: Seq<(usize, usize)>, v: usize) -> Seq<(usize, usize)> {
    s.filter(y_is(v))
}

/// Whether `s[i]` is the first point of `s` with its x.
pub open spec fn is_first_at(s: Seq<(usize, usize)>, i: int) -> bool {
    0 <= i < s.len() && forall|j: int| 0 <= j < i ==> s[j].0 != s[i].0
}

/// Ordered by x, ascending.
pub open spec fn sorted_by_x(s: Seq<(usize, usize)>) -> bool {
    forall|i: int, j: int| 0 <= i <= j < s.len() ==> s[i].0 <= s[j].0
}

/// Ordered by y, descending.
pub open spec fn sorted_by_y_desc(s: Seq<(usize, usize)>) -> bool {
    forall|i: int, j: int| 0 <= i <= j < s.len() ==> s[i].1 >= s[j].1
}

/// Whether some point of `s` has x equal to `k`.
pub open spec fn has_x(s: Seq<(usize, usize)>, k: int) -> bool {
    exists|i: int| 0 <= i < s.len() && s[i].0 == k
}

/// The first point of `s` for each x, in the order of `s`.
pub open spec fn first_occurrences(s: Seq<(usize, usize)>) -> Seq<(usize, usize)>
    decreases s.len(),
{
    if s.len() == 0 {
        Seq::empty()
    } else if has_x(s.drop_last(), s.last().0 as int) {
        first_occurrences(s.drop_last())
    } else {
        first_occurrences(s.drop_last()).push(s.last())
    }
}

/// A point as a pair keyed by its x.
pub open spec fn keyed_by_x() -> spec_fn((usize, usize)) -> (i128, usize) {
    |p: (usize, usize)| (p.0 as i128, p.1)
}

/// A pair keyed by x as a point again.
pub open spec fn unkeyed_x() -> spec_fn((i128, usize)) -> (usize, usize) {
    |q: (i128, usize)| (q.0 as usize, q.1)
}

/// A point as a pair keyed by its y, negated, so that ascending keys are
/// descending heights.
pub open spec fn keyed_by_y_desc() -> spec_fn((usize, usize)) -> (i128, usize) {
    |p: (usize, usize)| ((-(p.1 as int)) as i128, p.0)
}

/// A pair keyed by negated y as a point again.
pub open spec fn unkeyed_y_desc() -> spec_fn((i128, usize)) -> (usize, usize) {
    |q: (i128, usize)| (q.1, (-(q.0 as int)) as usize)
}

fn points_keyed_by_x(points: &Vec<(usize, usize)>) -> (r: Vec<(i128, usize)>)
    ensures
        r@ == points@.map_values(keyed_by_x()),
{
    let mut out: Vec<(i128, usize)> = Vec::new();
    let mut i: usize = 0;
    while i < points.len()
        invariant
            i <= points.len(),
            out@ == points@.take(i as int).map_values(keyed_by_x()),
        decreases points.len() - i,
    {
        out.push((points[i].0 as i128, points[i].1));
        assert(out@ =~= points@.take(i + 1).map_values(keyed_by_x()));
        i = i + 1;
    }
    assert(points@.take(points.len() as int) =~= points@);
    out
}

fn points_unkeyed_x(o: &Vec<(i128, usize)>) -> (r: Vec<(usize, usize)>)
    requires
        forall|i: int| 0 <= i < o@.len() ==> 0 <= #[trigger] o@[i].0 <= usize::MAX,
    ensures
        r@ == o@.map_values(unkeyed_x()),
{
    let mut out: Vec<(usize, usize)> = Vec::new();
    let mut i: usize = 0;
    while i < o.len()
        invariant
            i <= o.len(),
            forall|i: int| 0 <= i < o@.len() ==> 0 <= #[trigger] o@[i].0 <= usize::MAX,
            out@ == o@.take(i as int).map_values(unkeyed_x()),
        decreases o.len() - i,
    {
        assert(0 <= o@[i as int].0 <= usize::MAX);
        out.push((o[i].0 as usize, o[i].1));
        assert(out@ =~= o@.take(i + 1).map_values(unkeyed_x()));
        i = i + 1;
    }
    assert(o@.take(o.len() as int) =~= o@);
    out
}

/// The keys of the pairs made of points lie in the range of a `usize`, and
/// come back as the points' x.
proof fn lemma_keyed_x_range(points: Seq<(usize, usize)>, o: Seq<(i128, usize)>)
    requires
        forall|k: i128| #[trigger] with_key(o, k) == with_key(points.map_values(keyed_by_x()), k),
    ensures
        forall|i: int| 0 <= i < o.len() ==> 0 <= #[trigger] o[i].0 <= usize::MAX,
{
    let keyed = points.map_values(keyed_by_x());
    assert forall|i: int| 0 <= i < o.len() implies 0 <= #[trigger] o[i].0 <= usize::MAX by {
        assert(o.contains(o[i]));
        assert forall|k: i128| #[trigger] with_key(o, k) == with_key(keyed, k) by {}
        lemma_same_keys_contains(o, keyed, o[i]);
        let j = choose|j: int| 0 <= j < keyed.len() && keyed[j] == o[i];
        assert(keyed[j] == (points[j].0 as i128, points[j].1));
    }
}

/// The points ordered by x, stably.
fn sort_points_by_x(points: Vec<(usize, usize)>) -> (r: Vec<(usize, usize)>)
    ensures
        r@.len() == points@.len(),
        sorted_by_x(r@),
        forall|k: usize| #[trigger] with_x(r@, k) == with_x(points@, k),
{
    let keyed = points_keyed_by_x(&points);
    let ghost kv = keyed@;
    let o = sort_by_key(keyed);
    proof {
        lemma_keyed_x_range(points@, o@);
    }
    let r = points_unkeyed_x(&o);
    proof {
        assert forall|k: usize| #[trigger] with_x(r@, k) == with_x(points@, k) by {
            let key = k as i128;
            let g = unkeyed_x();
            let q = |e: (i128, usize)| x_is(k)(g(e));
            lemma_filter_map(o@, g, x_is(k), q);
            lemma_filter_agree(o@, q, key_is(key));
            assert(with_key(o@, key) == with_key(kv, key));
            let f = keyed_by_x();
            let q2 = |p: (usize, usize)| key_is(key)(f(p));
            lemma_filter_map(points@, f, key_is(key), q2);
            lemma_filter_agree(points@, q2, x_is(k));
            let px = points@.filter(x_is(k));
            assert forall|i: int| 0 <= i < px.len() implies g(f(#[trigger] px[i])) == px[i] by {}
            lemma_map_back(px, f, g);
        }
    }
    r
}

fn points_keyed_by_y_desc(points: &Vec<(usize, usize)>) -> (r: Vec<(i128, usize)>)
    ensures
        r@ == points@.map_values(keyed_by_y_desc()),
{
    let mut out: Vec<(i128, usize)> = Vec::new();
    let mut i: usize = 0;
    while i < points.len()
        invariant
            i <= points.len(),
            out@ == points@.take(i as int).map_values(keyed_by_y_desc()),
        decreases points.len() - i,
    {
        let key: i128 = 0 - (points[i].1 as i128);
        out.push((key, points[i].0));
        assert(out@ =~= points@.take(i + 1).map_values(keyed_by_y_desc()));
        i = i + 1;
    }
    assert(points@.take(points.len() as int) =~= points@);
    out
}

fn points_unkeyed_y_desc(o: &Vec<(i128, usize)>) -> (r: Vec<(usize, usize)>)
    requires
        forall|i: int| 0 <= -(#[trigger] o@[i].0) <= usize::MAX || !(0 <= i < o@.len()),
    ensures
        r@ == o@.map_values(unkeyed_y_desc()),
{
    let mut out: Vec<(usize, usize)> = Vec::new();
    let mut i: usize = 0;
    while i < o.len()
        invariant
            i <= o.len(),
            forall|i: int| 0 <= -(#[trigger] o@[i].0) <= usize::MAX || !(0 <= i < o@.len()),
            out@ == o@.take(i as int).map_values(unkeyed_y_desc()),
        decreases o.len() - i,
    {
        assert(0 <= -(o@[i as int].0) <= usize::MAX);
        let y = (0 - o[i].0) as usize;
        out.push((o[i].1, y));
        assert(out@ =~= o@.take(i + 1).map_values(unkeyed_y_desc()));
        i = i + 1;
    }
    assert(o@.take(o.len() as int) =~= o@);
    out
}

/// The points ordered by y, largest first, stably.
pub fn sort_points_by_y_desc(points: Vec<(usize, usize)>) -> (r: Vec<(usize, usize)>)
    ensures
        r@.len() == points@.len(),
        sorted_by_y_desc(r@),
        forall|v: usize| #[trigger] with_y(r@, v) == with_y(points@, v),
{
    let keyed = points_keyed_by_y_desc(&points);
    let ghost kv = keyed@;
    let o = sort_by_key(keyed);
    proof {
        assert forall|i: int| 0 <= -(#[trigger] o@[i].0) <= usize::MAX || !(0 <= i < o@.len()) by {
            if 0 <= i < o@.len() {
                assert(o@.contains(o@[i]));
                assert forall|k: i128| #[trigger] with_key(o@, k) == with_key(kv, k) by {}
                lemma_same_keys_contains(o@, kv, o@[i]);
                let j = choose|j: int| 0 <= j < kv.len() && kv[j] == o@[i];
                assert(kv[j] == ((-(points@[j].1 as int)) as i128, points@[j].0));
            }
        }
    }
    let r = points_unkeyed_y_desc(&o);
    proof {
        assert forall|v: usize| #[trigger] with_y(r@, v) == with_y(points@, v) by {
            let key = (-(v as int)) as i128;
            let g = unkeyed_y_desc();
            let q = |e: (i128, usize)| y_is(v)(g(e));
            lemma_filter_map(o@, g, y_is(v), q);
            assert forall|i: int| 0 <= i < o@.len() implies q(#[trigger] o@[i]) == key_is(key)(o@[i]) by {
                assert(0 <= -(o@[i].0) <= usize::MAX);
            }
            lemma_filter_agree(o@, q, key_is(key));
            assert(with_key(o@, key) == with_key(kv, key));
            let f = keyed_by_y_desc();
            let q2 = |p: (usize, usize)| key_is(key)(f(p));
            lemma_filter_map(points@, f, key_is(key), q2);
            lemma_filter_agree(points@, q2, y_is(v));
            let py = points@.filter(y_is(v));
            assert forall|i: int| 0 <= i < py.len() implies g(f(#[trigger] py[i])) == py[i] by {}
            lemma_map_back(py, f, g);
        }
        assert forall|i: int, j: int| 0 <= i <= j < r@.len() implies r@[i].1 >= r@[j].1 by {
            assert(o@[i].0 <= o@[j].0);
            assert(0 <= -(o@[i].0) <= usize::MAX);
            assert(0 <= -(o@[j].0) <= usize::MAX);
        }
    }
    r
}

/// The first point of each x, as the keyed pairs give it.
proof fn lemma_first_occurrences_keyed(s: Seq<(usize, usize)>)
    ensures
        first_by_key(s.map_values(keyed_by_x())).map_values(unkeyed_x()) == first_occurrences(s),
    decreases s.len(),
{
    let f = keyed_by_x();
    let g = unkeyed_x();
    let m = s.map_values(f);
    if s.len() == 0 {
        assert(first_by_key(m) =~= Seq::<(i128, usize)>::empty());
        assert(first_by_key(m).map_values(g) =~= Seq::<(usize, usize)>::empty());
    } else {
        let d = s.drop_last();
        lemma_first_occurrences_keyed(d);
        assert(m.drop_last() =~= d.map_values(f));
        assert(m.last() == f(s.last()));
        if has_x(d, s.last().0 as int) {
            let i = choose|i: int| 0 <= i < d.len() && d[i].0 == s.last().0;
            assert(m.drop_last()[i].0 == m.last().0);
            assert(has_key(m.drop_last(), m.last().0));
        } else {
            if has_key(m.drop_last(), m.last().0) {
                let i = choose|i: int| 0 <= i < m.drop_last().len() && m.drop_last()[i].0 == m.last().0;
                assert(d[i].0 == s.last().0);
            }
            assert(!has_key(m.drop_last(), m.last().0));
            assert(first_by_key(m).map_values(g) =~= first_by_key(m.drop_last()).map_values(g).push(
                g(m.last()),
            ));
        }
    }
}

/// The first point of each x, in the order they came.
fn unique_points_by_x(points: Vec<(usize, usize)>) -> (r: Vec<(usize, usize)>)
    ensures
        r@ == first_occurrences(points@),
{
    let keyed = points_keyed_by_x(&points);
    let ghost kv = keyed@;
    let firsts = unique_by_key(keyed);
    proof {
        lemma_first_occurrences_keyed(points@);
        lemma_first_occurrences(points@);
        assert forall|i: int| 0 <= i < firsts@.len() implies 0 <= #[trigger] firsts@[i].0 <= usize::MAX by {
            lemma_first_by_key_within(kv);
            assert(kv.contains(firsts@[i]));
            let j = choose|j: int| 0 <= j < kv.len() && kv[j] == firsts@[i];
            assert(kv[j] == (points@[j].0 as i128, points@[j].1));
        }
    }
    points_unkeyed_x(&firsts)
}

/// The largest x of the points, or 0 when there are none.
pub open spec fn max_x_of(s: Seq<(usize, usize)>) -> usize
    decreases s.len(),
{
    if s.len() == 0 {
        0
    } else if max_x_of(s.drop_last()) >= s.last().0 {
        max_x_of(s.drop_last())
    } else {
        s.last().0
    }
}

/// The largest y of the points, or 0 when there are none.
pub open spec fn max_y_of(s: Seq<(usize, usize)>) -> usize
    decreases s.len(),
{
    if s.len() == 0 {
        0
    } else if max_y_of(s.drop_last()) >= s.last().1 {
        max_y_of(s.drop_last())
    } else {
        s.last().1
    }
}

pub fn max_x_of_points(s: &Vec<(usize, usize)>) -> (r: usize)
    ensures
        r == max_x_of(s@),
{
    let mut m: usize = 0;
    let mut i: usize = 0;
    while i < s.len()
        invariant
            i <= s.len(),
            m == max_x_of(s@.take(i as int)),
        decreases s.len() - i,
    {
        assert(s@.take(i + 1).drop_last() =~= s@.take(i as int));
        if s[i].0 > m {
            m = s[i].0;
        }
        i = i + 1;
    }
    assert(s@.take(s.len() as int) =~= s@);
    m
}

pub fn max_y_of_points(s: &Vec<(usize, usize)>) -> (r: usize)
    ensures
        r == max_y_of(s@),
{
    let mut m: usize = 0;
    let mut i: usize = 0;
    while i < s.len()
        invariant
            i <= s.len(),
            m == max_y_of(s@.take(i as int)),
        decreases s.len() - i,
    {
        assert(s@.take(i + 1).drop_last() =~= s@.take(i as int));
        if s[i].1 > m {
            m = s[i].1;
        }
        i = i + 1;
    }
    assert(s@.take(s.len() as int) =~= s@);
    m
}

/// The points `(x, 0)` for each `x < n` that no point of `s` has, in order
/// of x.
pub open spec fn zero_gaps(s: Seq<(usize, usize)>, n: nat) -> Seq<(usize, usize)>
    decreases n,
{
    if n == 0 {
        Seq::empty()
    } else if has_x(s, n - 1) {
        zero_gaps(s, (n - 1) as nat)
    } else {
        zero_gaps(s, (n - 1) as nat).push(((n - 1) as usize, 0usize))
    }
}

fn find_x(s: &Vec<(usize, usize)>, k: usize) -> (r: bool)
    ensures
        r == has_x(s@, k as int),
{
    let mut i: usize = 0;
    while i < s.len()
        invariant
            i <= s.len(),
            forall|j: int| 0 <= j < i ==> s@[j].0 != k,
        decreases s.len() - i,
    {
        if s[i].0 == k {
            return true;
        }
        i = i + 1;
    }
    false
}

/// The points, ordered by x, and what collapsing keeps of them: for each x,
/// one point, with the largest y of that x.
pub open spec fn collapsed(r: Seq<(usize, usize)>, s: Seq<(usize, usize)>) -> bool {
    &&& forall|i: int, j: int| 0 <= i < j < r.len() ==> r[i].0 < r[j].0
    &&& forall|i: int| 0 <= i < r.len() ==> s.contains(#[trigger] r[i])
    &&& forall|i: int, q: (usize, usize)|
        #![trigger r[i], s.contains(q)]
        0 <= i < r.len() && s.contains(q) && q.0 == r[i].0 ==> q.1 <= r[i].1
    &&& forall|q: (usize, usize)| s.contains(q) ==> has_x(r, q.0 as int)
}

/// The x values of the points.
pub open spec fn x_values(s: Seq<(usize, usize)>) -> Set<usize> {
    s.map_values(|p: (usize, usize)| p.0).to_set()
}

/// What collapsing keeps has one point for each x value of the points.
pub proof fn lemma_collapsed_len(c: Seq<(usize, usize)>, s: Seq<(usize, usize)>)
    requires
        collapsed(c, s),
    ensures
        c.len() == x_values(s).len(),
{
    let xs = c.map_values(|p: (usize, usize)| p.0);
    assert(xs.no_duplicates()) by {
        assert forall|i: int, j: int| 0 <= i < xs.len() && 0 <= j < xs.len() && i != j implies xs[i] != xs[j] by {
            if i < j {
                assert(c[i].0 < c[j].0);
            } else {
                assert(c[j].0 < c[i].0);
            }
        }
    }
    xs.unique_seq_to_set();
    assert(xs.to_set() =~= x_values(s)) by {
        assert forall|x: usize| xs.to_set().contains(x) implies x_values(s).contains(x) by {
            let i = choose|i: int| 0 <= i < xs.len() && xs[i] == x;
            assert(s.contains(c[i]));
            let j = choose|j: int| 0 <= j < s.len() && s[j] == c[i];
            assert(s.map_values(|p: (usize, usize)| p.0)[j] == x);
        }
        let sx = s.map_values(|p: (usize, usize)| p.0);
        assert forall|x: usize| x_values(s).contains(x) implies xs.to_set().contains(x) by {
            assert(sx.contains(x));
            let j = choose|j: int| 0 <= j < sx.len() && #[trigger] sx[j] == x;
            assert(s.contains(s[j]));
            assert(has_x(c, s[j].0 as int));
            let i = choose|i: int| 0 <= i < c.len() && c[i].0 == s[j].0;
            assert(xs[i] == x);
        }
    }
}

/// Points that are strictly ordered by x and collapse `s` agree, by
/// position, on their x up to `i`.
proof fn lemma_collapsed_same_xs(a: Seq<(usize, usize)>, b: Seq<(usize, usize)>, s: Seq<(usize, usize)>, i: int)
    requires
        collapsed(a, s),
        collapsed(b, s),
        a.len() == b.len(),
        0 <= i <= a.len(),
    ensures
        forall|k: int| 0 <= k < i ==> (#[trigger] a[k]).0 == b[k].0,
    decreases i,
{
    if i > 0 {
        lemma_collapsed_same_xs(a, b, s, i - 1);
        let k = i - 1;
        if a[k].0 < b[k].0 {
            assert(s.contains(a[k]));
            assert(has_x(b, a[k].0 as int));
            let j = choose|j: int| 0 <= j < b.len() && b[j].0 == a[k].0;
            if j >= k {
                if j > k {
                    assert(b[k].0 < b[j].0);
                }
            } else {
                assert(a[j].0 == b[j].0);
                assert(a[j].0 < a[k].0);
            }
        } else if b[k].0 < a[k].0 {
            assert(s.contains(b[k]));
            assert(has_x(a, b[k].0 as int));
            let j = choose|j: int| 0 <= j < a.len() && a[j].0 == b[k].0;
            if j >= k {
                if j > k {
                    assert(a[k].0 < a[j].0);
                }
            } else {
                assert(a[j].0 == b[j].0);
                assert(b[j].0 < b[k].0);
            }
        }
    }
}

/// Collapsing points has one result: any two sequences that collapse the
/// same points are equal.
pub proof fn lemma_collapsed_unique(a: Seq<(usize, usize)>, b: Seq<(usize, usize)>, s: Seq<(usize, usize)>)
    requires
        collapsed(a, s),
        collapsed(b, s),
    ensures
        a == b,
{
    lemma_collapsed_len(a, s);
    lemma_collapsed_len(b, s);
    lemma_collapsed_same_xs(a, b, s, a.len() as int);
    assert forall|k: int| 0 <= k < a.len() implies a[k] == b[k] by {
        assert(a[k].0 == b[k].0);
        assert(s.contains(a[k]));
        assert(s.contains(b[k]));
        assert(b[k].1 <= a[k].1);
        assert(a[k].1 <= b[k].1);
    }
    assert(a =~= b);
}

/// Collapsing is idempotent: collapsing the points that collapsing kept
/// gives them back unchanged.
pub proof fn law_collapse_idempotent(s: Seq<(usize, usize)>, c: Seq<(usize, usize)>, c2: Seq<(usize, usize)>)
    requires
        collapsed(c, s),
        collapsed(c2, c),
    ensures
        c2 == c,
{
    assert(collapsed(c, c)) by {
        assert forall|i: int| 0 <= i < c.len() implies c.contains(#[trigger] c[i]) by {}
        assert forall|i: int, q: (usize, usize)|
            #![trigger c[i], c.contains(q)]
            0 <= i < c.len() && c.contains(q) && q.0 == c[i].0 implies q.1 <= c[i].1 by {
            let j = choose|j: int| 0 <= j < c.len() && c[j] == q;
            if j != i {
                if j < i {
                    assert(c[j].0 < c[i].0);
                } else {
                    assert(c[i].0 < c[j].0);
                }
            }
        }
        assert forall|q: (usize, usize)| c.contains(q) implies has_x(c, q.0 as int) by {
            let j = choose|j: int| 0 <= j < c.len() && c[j] == q;
        }
    }
    lemma_collapsed_unique(c2, c, c);
}

/// A missing x below `n` gets its zero point.
proof fn lemma_zero_gaps_has(s: Seq<(usize, usize)>, n: nat, x: int)
    requires
        0 <= x < n,
        !has_x(s, x),
    ensures
        zero_gaps(s, n).contains((x as usize, 0usize)),
    decreases n,
{
    if x < n - 1 {
        lemma_zero_gaps_has(s, (n - 1) as nat, x);
        let z = zero_gaps(s, (n - 1) as nat);
        let j = choose|j: int| 0 <= j < z.len() && z[j] == (x as usize, 0usize);
        if !has_x(s, n - 1) {
            assert(zero_gaps(s, n)[j] == z[j]);
        }
    } else {
        assert(zero_gaps(s, n).last() == (x as usize, 0usize));
    }
}

/// A missing x below `n` gets a point that carries on the last y before it.
proof fn lemma_carried_gaps_has(s: Seq<(usize, usize)>, n: nat, x: int)
    requires
        0 <= x < n,
        !has_x(s, x),
    ensures
        carried_gaps(s, n).contains((x as usize, y_before(s, x as usize) as usize)),
    decreases n,
{
    if x < n - 1 {
        lemma_carried_gaps_has(s, (n - 1) as nat, x);
        let z = carried_gaps(s, (n - 1) as nat);
        let j = choose|j: int| 0 <= j < z.len() && z[j] == (x as usize, y_before(s, x as usize) as usize);
        if !has_x(s, n - 1) {
            assert(carried_gaps(s, n)[j] == z[j]);
        }
    } else {
        assert(carried_gaps(s, n).last() == (x as usize, y_before(s, x as usize) as usize));
    }
}

/// What filling keeps: the points filled, with all of the points and gaps.
proof fn lemma_filled_keeps(r: Seq<(usize, usize)>, points: Seq<(usize, usize)>, gaps: Seq<(usize, usize)>, e: (usize, usize))
    requires
        filled(r, points, gaps),
        (points + gaps).contains(e),
    ensures
        r.contains(e),
{
    assert forall|k: usize| #[trigger] with_x(points + gaps, k) == with_x(r, k) by {}
    lemma_filter_same_elements_x(points + gaps, r, e);
}

/// Filling a line's gaps keeps all of its points, and leaves a point at
/// every x from 0 to its largest: the missing ones at height 0.
pub proof fn law_fill_gaps_complete(points: Seq<(usize, usize)>, r: Seq<(usize, usize)>)
    requires
        filled(r, points, zero_gaps(points, (max_x_of(points) + 1) as nat)),
    ensures
        forall|i: int| 0 <= i < points.len() ==> r.contains(#[trigger] points[i]),
        forall|x: int| 0 <= x <= max_x_of(points) ==> #[trigger] has_x(r, x),
        forall|x: int| 0 <= x <= max_x_of(points) && !has_x(points, x) ==> #[trigger] r.contains((x as usize, 0usize)),
{
    let gaps = zero_gaps(points, (max_x_of(points) + 1) as nat);
    assert forall|i: int| 0 <= i < points.len() implies r.contains(#[trigger] points[i]) by {
        assert((points + gaps)[i] == points[i]);
        lemma_filled_keeps(r, points, gaps, points[i]);
    }
    assert forall|x: int| 0 <= x <= max_x_of(points) && !has_x(points, x) implies #[trigger] r.contains(
        (x as usize, 0usize),
    ) by {
        lemma_zero_gaps_has(points, (max_x_of(points) + 1) as nat, x);
        let j = choose|j: int| 0 <= j < gaps.len() && gaps[j] == (x as usize, 0usize);
        assert((points + gaps)[points.len() + j] == gaps[j]);
        lemma_filled_keeps(r, points, gaps, (x as usize, 0usize));
    }
    assert forall|x: int| 0 <= x <= max_x_of(points) implies #[trigger] has_x(r, x) by {
        if has_x(points, x) {
            let i = choose|i: int| 0 <= i < points.len() && points[i].0 == x;
            assert((points + gaps)[i] == points[i]);
            lemma_filled_keeps(r, points, gaps, points[i]);
            let j = choose|j: int| 0 <= j < r.len() && r[j] == points[i];
        } else {
            assert(r.contains((x as usize, 0usize)));
            let j = choose|j: int| 0 <= j < r.len() && r[j] == (x as usize, 0usize);
        }
    }
}

/// Filling the gaps of a graph of a stack keeps all of its points, and
/// leaves a point at every x from 0 to the largest of the stack: the missing
/// ones at the height of the last point before them.
pub proof fn law_stacked_fill_gaps_complete(points: Seq<(usize, usize)>, r: Seq<(usize, usize)>, max: usize)
    requires
        filled(r, points, carried_gaps(points, (max + 1) as nat)),
    ensures
        forall|i: int| 0 <= i < points.len() ==> r.contains(#[trigger] points[i]),
        forall|x: int| 0 <= x <= max ==> #[trigger] has_x(r, x),
        forall|x: int|
            0 <= x <= max && !has_x(points, x) ==> #[trigger] r.contains(
                (x as usize, y_before(points, x as usize) as usize),
            ),
{
    let gaps = carried_gaps(points, (max + 1) as nat);
    assert forall|i: int| 0 <= i < points.len() implies r.contains(#[trigger] points[i]) by {
        assert((points + gaps)[i] == points[i]);
        lemma_filled_keeps(r, points, gaps, points[i]);
    }
    assert forall|x: int| 0 <= x <= max && !has_x(points, x) implies #[trigger] r.contains(
        (x as usize, y_before(points, x as usize) as usize),
    ) by {
        let g = (x as usize, y_before(points, x as usize) as usize);
        lemma_carried_gaps_has(points, (max + 1) as nat, x);
        let j = choose|j: int| 0 <= j < gaps.len() && gaps[j] == g;
        assert((points + gaps)[points.len() + j] == gaps[j]);
        lemma_filled_keeps(r, points, gaps, g);
    }
    assert forall|x: int| 0 <= x <= max implies #[trigger] has_x(r, x) by {
        if has_x(points, x) {
            let i = choose|i: int| 0 <= i < points.len() && points[i].0 == x;
            assert((points + gaps)[i] == points[i]);
            lemma_filled_keeps(r, points, gaps, points[i]);
            let j = choose|j: int| 0 <= j < r.len() && r[j] == points[i];
        } else {
            let g = (x as usize, y_before(points, x as usize) as usize);
            assert(r.contains(g));
            let j = choose|j: int| 0 <= j < r.len() && r[j] == g;
        }
    }
}

/// A line, drawn through its points in order of x.
#[derive(Debug, PartialEq, Eq, Hash)]
pub struct LineGraph {
    pub points: Vec<(usize, usize)>,
    pub colour: String,
    /// Whether to close the line down to the x axis, and whether to fill it.
    pub fill: (bool, bool),
}

/// Bars, one per point, in order of x.
#[derive(Clone, Debug, PartialEq, Eq, Hash)]
pub struct BarGraph {
    pub points: Vec<(usize, usize)>,
    pub colour: String,
}

pub proof fn lemma_filter_first<A>(s: Seq<A>, pred: spec_fn(A) -> bool, i: int)
    requires
        0 <= i < s.len(),
        pred(s[i]),
        forall|j: int| 0 <= j < i ==> !pred(s[j]),
    ensures
        s.filter(pred).len() > 0,
        s.filter(pred)[0] == s[i],
    decreases s.len(),
{
    reveal(Seq::filter);
    if i < s.len() - 1 {
        lemma_filter_first(s.drop_last(), pred, i);
    } else {
        assert forall|j: int| 0 <= j < s.drop_last().len() implies !pred(s.drop_last()[j]) by {}
        s.drop_last().lemma_all_neg_filter_empty(pred);
    }
}

pub proof fn lemma_filter_same_elements(
    a: Seq<(usize, usize)>,
    b: Seq<(usize, usize)>,
    e: (usize, usize),
)
    requires
        forall|v: usize| #[trigger] with_y(a, v) == with_y(b, v),
        a.contains(e),
    ensures
        b.contains(e),
{
    broadcast use vstd::seq_lib::group_filter_ensures;

    let i = choose|i: int| 0 <= i < a.len() && a[i] == e;
    let pred = y_is(e.1);
    a.lemma_filter_contains(pred, i);
    assert(with_y(a, e.1) == with_y(b, e.1));
    b.lemma_filter_contains_rev(pred, e);
}

pub proof fn lemma_filter_same_elements_x(
    a: Seq<(usize, usize)>,
    b: Seq<(usize, usize)>,
    e: (usize, usize),
)
    requires
        forall|k: usize| #[trigger] with_x(a, k) == with_x(b, k),
        a.contains(e),
    ensures
        b.contains(e),
{
    broadcast use vstd::seq_lib::group_filter_ensures;

    let i = choose|i: int| 0 <= i < a.len() && a[i] == e;
    let pred = x_is(e.0);
    a.lemma_filter_contains(pred, i);
    assert(with_x(a, e.0) == with_x(b, e.0));
    b.lemma_filter_contains_rev(pred, e);
}

/// What the first occurrences of a sequence are made of.
pub proof fn lemma_first_occurrences(s: Seq<(usize, usize)>)
    ensures
        forall|k: int|
            #![trigger first_occurrences(s)[k]]
            0 <= k < first_occurrences(s).len() ==> exists|i: int|
                #[trigger] is_first_at(s, i) && s[i] == first_occurrences(s)[k],
        forall|i: int| 0 <= i < s.len() ==> has_x(first_occurrences(s), #[trigger] s[i].0 as int),
        sorted_by_x(s) ==> forall|a: int, b: int|
            0 <= a < b < first_occurrences(s).len() ==> first_occurrences(s)[a].0
                < first_occurrences(s)[b].0,
    decreases s.len(),
{
    if s.len() > 0 {
        let d = s.drop_last();
        lemma_first_occurrences(d);
        let fd = first_occurrences(d);
        let f = first_occurrences(s);
        assert forall|k: int| #![trigger f[k]] 0 <= k < f.len() implies exists|i: int|
            #[trigger] is_first_at(s, i) && s[i] == f[k] by {
            if k < fd.len() {
                let i = choose|i: int| #[trigger] is_first_at(d, i) && d[i] == fd[k];
                assert(s[i] == d[i]);
                assert(s[i] == f[k]);
                assert forall|j: int| 0 <= j < i implies s[j].0 != s[i].0 by {
                    assert(s[j] == d[j]);
                }
                assert(is_first_at(s, i));
            } else {
                let i = s.len() - 1;
                assert(s[i] == f[k]);
                assert forall|j: int| 0 <= j < i implies s[j].0 != s[i].0 by {
                    if s[j].0 == s[i].0 {
                        assert(d[j].0 == s.last().0);
                    }
                }
                assert(is_first_at(s, i));
            }
        }
        assert forall|i: int| 0 <= i < s.len() implies has_x(f, #[trigger] s[i].0 as int) by {
            if i < s.len() - 1 {
                assert(d[i] == s[i]);
                let k = choose|k: int| 0 <= k < fd.len() && fd[k].0 == d[i].0;
                assert(f[k] == fd[k]);
            } else if has_x(d, s.last().0 as int) {
                let j = choose|j: int| 0 <= j < d.len() && d[j].0 == s.last().0;
                assert(has_x(fd, d[j].0 as int));
                let k = choose|k: int| 0 <= k < fd.len() && fd[k].0 == d[j].0;
                assert(f[k] == fd[k]);
            } else {
                assert(f[f.len() - 1] == s[i]);
            }
        }
        if sorted_by_x(s) {
            assert(sorted_by_x(d));
            if !has_x(d, s.last().0 as int) {
                assert forall|a: int, b: int| 0 <= a < b < f.len() implies f[a].0 < f[b].0 by {
                    if b == f.len() - 1 {
                        let i = choose|i: int| #[trigger] is_first_at(d, i) && d[i] == fd[a];
                        assert(s[i].0 <= s[s.len() - 1].0);
                        assert(d[i].0 != s.last().0);
                    }
                }
            }
        }
    }
}

/// When the points are ordered by y, largest first, the first point that
/// meets a condition has the largest y of those that meet it.
pub proof fn lemma_filter_head_max(s: Seq<(usize, usize)>, pred: spec_fn((usize, usize)) -> bool, m: int)
    requires
        sorted_by_y_desc(s),
        0 <= m < s.len(),
        pred(s[m]),
    ensures
        s.filter(pred).len() > 0,
        s[m].1 <= s.filter(pred)[0].1,
    decreases s.len(),
{
    reveal(Seq::filter);
    let d = s.drop_last();
    if m < s.len() - 1 {
        assert(d[m] == s[m]);
        lemma_filter_head_max(d, pred, m);
    } else {
        if d.filter(pred).len() > 0 {
            broadcast use vstd::seq_lib::group_filter_ensures;

            let h = d.filter(pred)[0];
            assert(d.filter(pred).contains(h));
            d.lemma_filter_contains_rev(pred, h);
            let j = choose|j: int| 0 <= j < d.len() && d[j] == h;
            assert(s[j] == h);
        }
    }
}

/// Collapsing the points of a line or of bars: the first point of each x
/// once the points are ordered by y (largest first) and then by x.
pub fn collapse_points(points: Vec<(usize, usize)>) -> (r: Vec<(usize, usize)>)
    ensures
        collapsed(r@, points@),
{
    let ghost p = points@;
    let by_y = sort_points_by_y_desc(points);
    let ghost s1 = by_y@;
    let by_x = sort_points_by_x(by_y);
    let ghost s2 = by_x@;
    let r = unique_points_by_x(by_x);
    proof {
        lemma_first_occurrences(s2);
        let f = r@;
        assert forall|i: int| 0 <= i < f.len() implies p.contains(#[trigger] f[i]) by {
            let k = choose|k: int| #[trigger] is_first_at(s2, k) && s2[k] == f[i];
            assert(s2.contains(f[i]));
            lemma_filter_same_elements_x(s2, s1, f[i]);
            assert forall|v: usize| #[trigger] with_y(s1, v) == with_y(p, v) by {}
            lemma_filter_same_elements(s1, p, f[i]);
        }
        assert forall|i: int, q: (usize, usize)|
            #![trigger f[i], p.contains(q)]
            0 <= i < f.len() && p.contains(q) && q.0 == f[i].0 implies q.1 <= f[i].1 by {
            let k = choose|k: int| #[trigger] is_first_at(s2, k) && s2[k] == f[i];
            let x = f[i].0;
            let px = x_is(x);
            lemma_filter_first(s2, px, k);
            assert(with_x(s2, x) == with_x(s1, x));
            // the first point of s1 with this x
            assert(s1.contains(f[i])) by {
                assert(s2.contains(f[i]));
                lemma_filter_same_elements_x(s2, s1, f[i]);
            }
            assert(p.contains(q));
            assert forall|v: usize| #[trigger] with_y(p, v) == with_y(s1, v) by {}
            lemma_filter_same_elements(p, s1, q);
            let m = choose|m: int| 0 <= m < s1.len() && s1[m] == q;
            lemma_filter_head_max(s1, px, m);
        }
        assert forall|q: (usize, usize)| p.contains(q) implies has_x(f, q.0 as int) by {
            assert forall|v: usize| #[trigger] with_y(p, v) == with_y(s1, v) by {}
            lemma_filter_same_elements(p, s1, q);
            assert forall|k: usize| #[trigger] with_x(s1, k) == with_x(s2, k) by {}
            lemma_filter_same_elements_x(s1, s2, q);
            let m = choose|m: int| 0 <= m < s2.len() && s2[m] == q;
            assert(has_x(f, s2[m].0 as int));
        }
    }
    r
}

pub fn copy_points(v: &Vec<(usize, usize)>) -> (r: Vec<(usize, usize)>)
    ensures
        r@ == v@,
{
    let mut out: Vec<(usize, usize)> = Vec::new();
    let mut i: usize = 0;
    while i < v.len()
        invariant
            i <= v.len(),
            out@ == v@.take(i as int),
        decreases v.len() - i,
    {
        out.push(v[i]);
        assert(out@ =~= v@.take(i + 1));
        i = i + 1;
    }
    assert(v@.take(v.len() as int) =~= v@);
    out
}

/// The points with their gaps filled: sorted by x, stably, after adding
/// `gaps`.
pub open spec fn filled(r: Seq<(usize, usize)>, points: Seq<(usize, usize)>, gaps: Seq<(usize, usize)>) -> bool {
    &&& sorted_by_x(r)
    &&& forall|k: usize| #[trigger] with_x(r, k) == with_x(points + gaps, k)
}

impl LineGraph {
    pub fn new(points: Vec<(usize, usize)>, colour: String, fill: (bool, bool)) -> (r: Self)
        ensures
            r.points == points,
            r.colour == colour,
            r.fill == fill,
    {
        Self { points, colour, fill }
    }

    pub fn copy(&self) -> (r: Self)
        ensures
            r.points@ == self.points@,
            r.colour == self.colour,
            r.fill == self.fill,
    {
        LineGraph { points: copy_points(&self.points), colour: self.colour.clone(), fill: self.fill }
    }

    /// The largest x of the points, or 0.
    pub fn max_x(&self) -> (r: usize)
        ensures
            r == max_x_of(self.points@),
    {
        max_x_of_points(&self.points)
    }

    /// The largest y of the points, or 0.
    pub fn max_y(&self) -> (r: usize)
        ensures
            r == max_y_of(self.points@),
    {
        max_y_of_points(&self.points)
    }

    /// Adds `(x, 0)` for each x from 0 to the largest x that has no point,
    /// then orders the points by x.
    pub fn fill_gaps(self) -> (r: Self)
        ensures
            r.colour == self.colour,
            r.fill == self.fill,
            filled(r.points@, self.points@, zero_gaps(self.points@, (max_x_of(self.points@) + 1) as nat)),
    {
        let max = max_x_of_points(&self.points);
        let mut gaps: Vec<(usize, usize)> = Vec::new();
        let mut x: usize = 0;
        loop
            invariant_except_break
                x <= max,
                gaps@ == zero_gaps(self.points@, x as nat),
            ensures
                gaps@ == zero_gaps(self.points@, (max + 1) as nat),
            decreases max - x,
        {
            if !find_x(&self.points, x) {
                gaps.push((x, 0));
            }
            assert(gaps@ == zero_gaps(self.points@, (x + 1) as nat));
            if x == max {
                break;
            }
            x = x + 1;
        }
        let mut s = self;
        let ghost original = s.points@;
        let mut all = copy_points(&s.points);
        let mut g = gaps;
        all.append(&mut g);
        s.points = sort_points_by_x(all);
        assert(original == self.points@);
        s
    }

    /// One point for each x: the one with the largest y, in order of x.
    pub fn collapse_x(self) -> (r: Self)
        ensures
            r.colour == self.colour,
            r.fill == self.fill,
            collapsed(r.points@, self.points@),
    {
        let mut s = self;
        let points = copy_points(&s.points);
        s.points = collapse_points(points);
        s
    }
}

impl BarGraph {
    pub fn new(points: Vec<(usize, usize)>, colour: String) -> (r: Self)
        ensures
            r.points == points,
            r.colour == colour,
    {
        Self { points, colour }
    }

    /// One point for each x: the one with the largest y, in order of x.
    pub fn collapse_x(self) -> (r: Self)
        ensures
            r.colour == self.colour,
            collapsed(r.points@, self.points@),
    {
        let mut s = self;
        let points = copy_points(&s.points);
        s.points = collapse_points(points);
        s
    }

    /// The largest x of the points, or 0.
    pub fn max_x(&self) -> (r: usize)
        ensures
            r == max_x_of(self.points@),
    {
        max_x_of_points(&self.points)
    }

    /// The largest y of the points, or 0.
    pub fn max_y(&self) -> (r: usize)
        ensures
            r == max_y_of(self.points@),
    {
        max_y_of_points(&self.points)
    }
}

/// The y of the last point of `s` (in the order of `s`) whose x is at most
/// `x`, or 0 when there is none.
pub open spec fn y_at_or_before(s: Seq<(usize, usize)>, x: usize) -> int
    decreases s.len(),
{
    if s.len() == 0 {
        0
    } else if s.last().0 <= x {
        s.last().1 as int
    } else {
        y_at_or_before(s.drop_last(), x)
    }
}

/// The y of the last point of `s` (in the order of `s`) whose x is below
/// `x`, or 0 when there is none.
pub open spec fn y_before(s: Seq<(usize, usize)>, x: usize) -> int
    decreases s.len(),
{
    if s.len() == 0 {
        0
    } else if s.last().0 < x {
        s.last().1 as int
    } else {
        y_before(s.drop_last(), x)
    }
}

/// The points `(x, y)` for each `x < n` that no point of `s` has, where `y`
/// carries on the last earlier point, in order of x.
pub open spec fn carried_gaps(s: Seq<(usize, usize)>, n: nat) -> Seq<(usize, usize)>
    decreases n,
{
    if n == 0 {
        Seq::empty()
    } else if has_x(s, n - 1) {
        carried_gaps(s, (n - 1) as nat)
    } else {
        carried_gaps(s, (n - 1) as nat).push(((n - 1) as usize, y_before(s, (n - 1) as usize) as usize))
    }
}

/// The sum, over the graphs, of the y each has at `x`.
pub open spec fn stacked_sum(gs: Seq<LineGraph>, x: usize) -> int
    decreases gs.len(),
{
    if gs.len() == 0 {
        0
    } else {
        stacked_sum(gs.drop_last(), x) + y_at_or_before(gs.last().points@, x)
    }
}

/// The largest x over the graphs, or 0.
pub open spec fn graphs_max_x(gs: Seq<LineGraph>) -> usize
    decreases gs.len(),
{
    if gs.len() == 0 {
        0
    } else if graphs_max_x(gs.drop_last()) >= max_x_of(gs.last().points@) {
        graphs_max_x(gs.drop_last())
    } else {
        max_x_of(gs.last().points@)
    }
}

/// The sum of the largest y of each graph.
pub open spec fn graphs_max_y(gs: Seq<LineGraph>) -> int
    decreases gs.len(),
{
    if gs.len() == 0 {
        0
    } else {
        graphs_max_y(gs.drop_last()) + max_y_of(gs.last().points@)
    }
}

pub(crate) fn y_at_or_before_of(s: &Vec<(usize, usize)>, x: usize) -> (r: usize)
    ensures
        r == y_at_or_before(s@, x),
{
    let mut i: usize = s.len();
    assert(s@.take(s.len() as int) =~= s@);
    while i > 0
        invariant
            i <= s.len(),
            y_at_or_before(s@, x) == y_at_or_before(s@.take(i as int), x),
        decreases i,
    {
        assert(s@.take(i as int).drop_last() =~= s@.take(i - 1));
        if s[i - 1].0 <= x {
            return s[i - 1].1;
        }
        i = i - 1;
    }
    0
}

fn y_before_of(s: &Vec<(usize, usize)>, x: usize) -> (r: usize)
    ensures
        r == y_before(s@, x),
{
    let mut i: usize = s.len();
    assert(s@.take(s.len() as int) =~= s@);
    while i > 0
        invariant
            i <= s.len(),
            y_before(s@, x) == y_before(s@.take(i as int), x),
        decreases i,
    {
        assert(s@.take(i as int).drop_last() =~= s@.take(i - 1));
        if s[i - 1].0 < x {
            return s[i - 1].1;
        }
        i = i - 1;
    }
    0
}

/// The first `i` graphs (all of them when there are fewer).
pub open spec fn below(gs: Seq<LineGraph>, i: int) -> Seq<LineGraph> {
    gs.take(if i < gs.len() { i } else { gs.len() as int })
}

/// Whether each point of `pts`, raised by the sum of the first `i` graphs at
/// its x, fits in a `usize`.
pub open spec fn stack_fits(gs: Seq<LineGraph>, i: int, pts: Seq<(usize, usize)>) -> bool {
    forall|k: int| 0 <= k < pts.len() ==> stacked_sum(below(gs, i), #[trigger] pts[k].0) + pts[k].1 <= usize::MAX
}

/// Each point of `pts`, raised by the sum of the first `i` graphs at its x.
pub open spec fn stacked_points(gs: Seq<LineGraph>, i: int, pts: Seq<(usize, usize)>) -> Seq<(usize, usize)> {
    Seq::new(pts.len(), |k: int| (pts[k].0, (stacked_sum(below(gs, i), pts[k].0) + pts[k].1) as usize))
}

/// Line graphs drawn on top of each other: each one's values are added to
/// those of the graphs before it.
#[derive(Debug, PartialEq, Eq, Hash)]
pub struct StackedGraph {
    pub graphs: Vec<LineGraph>,
}

impl StackedGraph {
    pub fn new(graphs: Vec<LineGraph>) -> (r: Self)
        ensures
            r.graphs == graphs,
    {
        Self { graphs }
    }

    /// The largest x over the graphs, or 0.
    pub fn max_x(&self) -> (r: usize)
        ensures
            r == graphs_max_x(self.graphs@),
    {
        let mut m: usize = 0;
        let mut i: usize = 0;
        while i < self.graphs.len()
            invariant
                i <= self.graphs.len(),
                m == graphs_max_x(self.graphs@.take(i as int)),
            decreases self.graphs.len() - i,
        {
            assert(self.graphs@.take(i + 1).drop_last() =~= self.graphs@.take(i as int));
            let g = self.graphs[i].max_x();
            if g > m {
                m = g;
            }
            i = i + 1;
        }
        assert(self.graphs@.take(self.graphs.len() as int) =~= self.graphs@);
        m
    }

    /// The sum of the largest y of each graph.
    pub fn max_y(&self) -> (r: usize)
        requires
            graphs_max_y(self.graphs@) <= usize::MAX,
        ensures
            r == graphs_max_y(self.graphs@),
    {
        let mut m: usize = 0;
        let mut i: usize = 0;
        while i < self.graphs.len()
            invariant
                i <= self.graphs.len(),
                graphs_max_y(self.graphs@) <= usize::MAX,
                m == graphs_max_y(self.graphs@.take(i as int)),
            decreases self.graphs.len() - i,
        {
            assert(self.graphs@.take(i + 1).drop_last() =~= self.graphs@.take(i as int));
            proof {
                lemma_graphs_max_y_prefix(self.graphs@, i + 1);
            }
            m = m + self.graphs[i].max_y();
            i = i + 1;
        }
        assert(self.graphs@.take(self.graphs.len() as int) =~= self.graphs@);
        m
    }

    /// The sum of the y each of the first `i` graphs has at `x`.
    pub fn stack_y(&self, i: usize, x: usize) -> (r: usize)
        requires
            stacked_sum(below(self.graphs@, i as int), x)
                <= usize::MAX,
        ensures
            r == stacked_sum(below(self.graphs@, i as int), x),
    {
        let n: usize = if i < self.graphs.len() {
            i
        } else {
            self.graphs.len()
        };
        let mut sum: usize = 0;
        let mut j: usize = 0;
        while j < n
            invariant
                j <= n,
                n <= self.graphs.len(),
                stacked_sum(self.graphs@.take(n as int), x) <= usize::MAX,
                sum == stacked_sum(self.graphs@.take(j as int), x),
            decreases n - j,
        {
            assert(self.graphs@.take(j + 1).drop_last() =~= self.graphs@.take(j as int));
            proof {
                lemma_stacked_sum_prefix(self.graphs@, x, j + 1, n as int);
            }
            sum = sum + y_at_or_before_of(&self.graphs[j].points, x);
            j = j + 1;
        }
        sum
    }

    /// The points of `graph`, each raised by the sum of the first `i` graphs
    /// at its x.
    pub fn stack_graph(&self, i: usize, graph: &LineGraph) -> (r: Vec<(usize, usize)>)
        requires
            stack_fits(self.graphs@, i as int, graph.points@),
        ensures
            r@ == stacked_points(self.graphs@, i as int, graph.points@),
    {
        let mut out: Vec<(usize, usize)> = Vec::new();
        let mut k: usize = 0;
        while k < graph.points.len()
            invariant
                k <= graph.points.len(),
                stack_fits(self.graphs@, i as int, graph.points@),
                out@ == stacked_points(self.graphs@, i as int, graph.points@).take(k as int),
            decreases graph.points.len() - k,
        {
            let (x, y) = graph.points[k];
            assert(graph.points@[k as int] == (x, y));
            proof {
                lemma_stacked_sum_nonneg(below(self.graphs@, i as int), x);
            }
            let base = self.stack_y(i, x);
            out.push((x, base + y));
            assert(out@ =~= stacked_points(self.graphs@, i as int, graph.points@).take(k + 1));
            k = k + 1;
        }
        assert(stacked_points(self.graphs@, i as int, graph.points@).take(k as int) =~= stacked_points(self.graphs@, i as int, graph.points@));
        out
    }

    /// Each graph with its gaps filled: for each x from 0 to the largest x
    /// over all graphs that the graph has no point for, a point with the y
    /// of its last earlier point (0 when none); then ordered by x.
    pub fn fill_gaps(self) -> (r: Self)
        ensures
            r.graphs@.len() == self.graphs@.len(),
            forall|j: int| 0 <= j < r.graphs@.len() ==> {
                &&& (#[trigger] r.graphs@[j]).colour == self.graphs@[j].colour
                &&& r.graphs@[j].fill == self.graphs@[j].fill
                &&& filled(r.graphs@[j].points@, self.graphs@[j].points@, carried_gaps(
                    self.graphs@[j].points@,
                    (graphs_max_x(self.graphs@) + 1) as nat,
                ))
            },
    {
        let max = self.max_x();
        let mut out: Vec<LineGraph> = Vec::new();
        let mut j: usize = 0;
        while j < self.graphs.len()
            invariant
                j <= self.graphs.len(),
                max == graphs_max_x(self.graphs@),
                out@.len() == j,
                forall|m: int| 0 <= m < j ==> {
                    &&& (#[trigger] out@[m]).colour == self.graphs@[m].colour
                    &&& out@[m].fill == self.graphs@[m].fill
                    &&& filled(out@[m].points@, self.graphs@[m].points@, carried_gaps(
                        self.graphs@[m].points@,
                        (max + 1) as nat,
                    ))
                },
            decreases self.graphs.len() - j,
        {
            let graph = &self.graphs[j];
            let mut gaps: Vec<(usize, usize)> = Vec::new();
            let mut x: usize = 0;
            loop
                invariant_except_break
                    x <= max,
                    gaps@ == carried_gaps(graph.points@, x as nat),
                ensures
                    gaps@ == carried_gaps(graph.points@, (max + 1) as nat),
                decreases max - x,
            {
                if !find_x(&graph.points, x) {
                    let y = y_before_of(&graph.points, x);
                    gaps.push((x, y));
                }
                assert(gaps@ == carried_gaps(graph.points@, (x + 1) as nat));
                if x == max {
                    break;
                }
                x = x + 1;
            }
            let mut all = copy_points(&graph.points);
            let mut g = gaps;
            all.append(&mut g);
            let points = sort_points_by_x(all);
            out.push(LineGraph { points, colour: graph.colour.clone(), fill: graph.fill });
            j = j + 1;
        }
        StackedGraph { graphs: out }
    }
}

/// Whether `o` is `s` ordered by x, stably: the points of each x keep their
/// order.
pub open spec fn stably_sorted_x(o: Seq<(usize, usize)>, s: Seq<(usize, usize)>) -> bool {
    &&& sorted_by_x(o)
    &&& forall|k: usize| #[trigger] with_x(o, k) == with_x(s, k)
}

/// The outline of a line through the points `o`, in order: from the origin
/// to each point; when closed, down by the last point's y and back to the
/// origin.
pub open spec fn line_commands(o: Seq<(usize, usize)>, close: bool) -> Seq<PathCommand> {
    let body = seq![PathCommand::MoveTo(0, 0)] + Seq::new(
        o.len(),
        |i: int| PathCommand::LineTo(o[i].0, o[i].1),
    );
    if close && o.len() > 0 {
        body.push(PathCommand::LineBy(0, (-((o.last().1 as isize) as int)) as isize)).push(
            PathCommand::LineTo(0, 0),
        )
    } else {
        body
    }
}

/// The path of a line through the points `o`, in the colour, filled when
/// `fill.1` and closed when `fill.0`.
pub open spec fn line_path(o: Seq<(usize, usize)>, colour: Seq<char>, fill: (bool, bool)) -> ElementV {
    ElementV::new("path"@).set_text("fill"@, if fill.1 { colour } else { "none"@ }).set_text(
        "stroke"@,
        colour,
    ).set("d"@, AttrV::Path(line_commands(o, fill.0)))
}

/// The y a line through the points `s` is closed from: that of its last
/// point once the points are ordered by x, points with equal x kept in
/// their order (so the last of those with the largest x); `None` when there
/// are no points.
pub open spec fn closing_y(s: Seq<(usize, usize)>) -> Option<usize>
    decreases s.len(),
{
    if s.len() == 0 {
        None
    } else if s.last().0 >= max_x_of(s.drop_last()) {
        Some(s.last().1)
    } else {
        closing_y(s.drop_last())
    }
}

/// Whether the line through `s` can be closed: it goes down by its closing
/// y (see [`closing_y`]) read as an `isize`, whose negation the smallest
/// `isize` has not.
pub open spec fn closable(s: Seq<(usize, usize)>) -> bool {
    match closing_y(s) {
        Some(y) => (y as isize) != isize::MIN,
        None => true,
    }
}

/// Every x of `s` is at most its largest, which one of them is.
proof fn lemma_max_x_of_bounds(s: Seq<(usize, usize)>)
    ensures
        forall|i: int| 0 <= i < s.len() ==> #[trigger] s[i].0 <= max_x_of(s),
        s.len() > 0 ==> exists|i: int| 0 <= i < s.len() && #[trigger] s[i].0 == max_x_of(s),
    decreases s.len(),
{
    if s.len() > 0 {
        let d = s.drop_last();
        lemma_max_x_of_bounds(d);
        assert forall|i: int| 0 <= i < s.len() implies #[trigger] s[i].0 <= max_x_of(s) by {
            if i < d.len() {
                assert(s[i] == d[i]);
            }
        }
        if max_x_of(d) >= s.last().0 && d.len() > 0 {
            let w = choose|i: int| 0 <= i < d.len() && #[trigger] d[i].0 == max_x_of(d);
            assert(s[w] == d[w]);
        } else {
            assert(s[s.len() - 1].0 == max_x_of(s));
        }
    }
}

/// The closing y is that of the last point with the largest x.
proof fn lemma_closing_y_last(s: Seq<(usize, usize)>)
    requires
        s.len() > 0,
    ensures
        with_x(s, max_x_of(s)).len() > 0,
        closing_y(s) == Some(with_x(s, max_x_of(s)).last().1),
    decreases s.len(),
{
    reveal(Seq::filter);
    let d = s.drop_last();
    let m = max_x_of(s);
    if s.last().0 >= max_x_of(d) {
        assert(m == s.last().0);
        assert(with_x(s, m) == with_x(d, m).push(s.last()));
    } else {
        assert(d.len() > 0);
        lemma_closing_y_last(d);
        assert(m == max_x_of(d));
        assert(with_x(s, m) == with_x(d, m));
    }
}

/// Ordering the points by x ends with the point the line closes from.
pub proof fn lemma_closing_y_sorted(o: Seq<(usize, usize)>, s: Seq<(usize, usize)>)
    requires
        stably_sorted_x(o, s),
        o.len() > 0,
    ensures
        closing_y(s) == Some(o.last().1),
{
    let e = o.last();
    let m = e.0;
    assert(o[o.len() - 1] == e);
    lemma_filter_same_elements_x(o, s, e);
    lemma_max_x_of_bounds(s);
    let w = choose|i: int| 0 <= i < s.len() && #[trigger] s[i].0 == max_x_of(s);
    assert(s.contains(s[w]));
    lemma_filter_same_elements_x(s, o, s[w]);
    let k = choose|k: int| 0 <= k < o.len() && o[k] == s[w];
    assert(o[k].0 <= o[o.len() - 1].0);
    let j = choose|j: int| 0 <= j < s.len() && s[j] == e;
    assert(s[j].0 <= max_x_of(s));
    assert(max_x_of(s) == m);
    assert(with_x(o, m) == with_x(o.drop_last(), m).push(e)) by {
        reveal(Seq::filter);
    }
    assert(with_x(o, m) == with_x(s, m));
    lemma_closing_y_last(s);
}

/// The bar for a point.
pub open spec fn bar_rect(p: (usize, usize), colour: Seq<char>) -> ElementV {
    ElementV::new("rect"@).set_text("fill"@, colour).set("x"@, AttrV::Number(p.0)).set(
        "width"@,
        AttrV::Number(1),
    ).set("height"@, AttrV::Number(p.1))
}

fn line_commands_of(o: &Vec<(usize, usize)>, close: bool) -> (r: Vec<PathCommand>)
    requires
        close && o@.len() > 0 ==> (o@.last().1 as isize) != isize::MIN,
    ensures
        r@ == line_commands(o@, close),
{
    let mut data: Vec<PathCommand> = Vec::new();
    data.push(PathCommand::MoveTo(0, 0));
    let ghost head = seq![PathCommand::MoveTo(0, 0)];
    let mut i: usize = 0;
    while i < o.len()
        invariant
            i <= o.len(),
            data@ == head + Seq::new(i as nat, |j: int| PathCommand::LineTo(o@[j].0, o@[j].1)),
        decreases o.len() - i,
    {
        let (x, y) = o[i];
        data.push(PathCommand::LineTo(x, y));
        assert(data@ =~= head + Seq::new((i + 1) as nat, |j: int| PathCommand::LineTo(o@[j].0, o@[j].1)));
        i = i + 1;
    }
    if close && o.len() > 0 {
        let y = o[o.len() - 1].1;
        assert((y as isize) != isize::MIN);
        let down: isize = 0 - (y as isize);
        data.push(PathCommand::LineBy(0, down));
        data.push(PathCommand::LineTo(0, 0));
    }
    data
}

/// Whether `e` is the document of the line `g`: its path through the points
/// ordered by x, with a view box as wide and tall as the points with a
/// margin.
pub open spec fn line_document(e: ElementV, g: LineGraph) -> bool {
    exists|o: Seq<(usize, usize)>|
        stably_sorted_x(o, g.points@) && e == document_of(
            line_path(o, g.colour@, g.fill),
            (max_x_of(g.points@) + 16) as usize,
            (max_y_of(g.points@) + 16) as usize,
        )
}

impl LineGraph {
    /// The line through the points ordered by x: filled with the colour when
    /// `fill.1`, closed down to the x axis when `fill.0`.
    pub fn path(&self) -> (r: Element)
        requires
            self.fill.0 ==> closable(self.points@),
        ensures
            exists|o: Seq<(usize, usize)>|
                stably_sorted_x(o, self.points@) && r.model() == line_path(o, self.colour@, self.fill),
    {
        let ordered = sort_points_by_x(copy_points(&self.points));
        proof {
            if self.fill.0 && ordered@.len() > 0 {
                lemma_closing_y_sorted(ordered@, self.points@);
            }
        }
        let data = line_commands_of(&ordered, self.fill.0);
        let fill_colour: &str = if self.fill.1 {
            self.colour.as_str()
        } else {
            "none"
        };
        let r = Element::new("path").set_text("fill", fill_colour).set(
            "stroke",
            AttrValue::Text(self.colour.clone()),
        ).set("d", AttrValue::Path(data));
        assert(stably_sorted_x(ordered@, self.points@));
        assert(r.model() == line_path(ordered@, self.colour@, self.fill));
        r
    }

    /// A document of the line, as wide and tall as its points with a margin.
    pub fn document(&self) -> (r: Element)
        requires
            self.fill.0 ==> closable(self.points@),
            max_x_of(self.points@) + 16 <= usize::MAX,
            max_y_of(self.points@) + 16 <= usize::MAX,
        ensures
            line_document(r.model(), *self),
    {
        let w = self.max_x() + 16;
        let h = self.max_y() + 16;
        document(self.path(), w, h)
    }
}

impl BarGraph {
    /// A bar one wide for each point, ordered by x.
    pub fn group(&self) -> (r: Element)
        ensures
            exists|o: Seq<(usize, usize)>|
                stably_sorted_x(o, self.points@) && r.model() == group_of(
                    o.map_values(|p: (usize, usize)| bar_rect(p, self.colour@)),
                ),
    {
        let ordered = sort_points_by_x(copy_points(&self.points));
        let mut g = Element::new("g");
        assert(ordered@.take(0).map_values(|p: (usize, usize)| bar_rect(p, self.colour@)) =~= Seq::<ElementV>::empty());
        let mut i: usize = 0;
        while i < ordered.len()
            invariant
                i <= ordered.len(),
                g.model() == group_of(ordered@.take(i as int).map_values(|p: (usize, usize)| bar_rect(p, self.colour@))),
            decreases ordered.len() - i,
        {
            let (x, y) = ordered[i];
            let rect = Element::new("rect").set_text("fill", self.colour.as_str()).set(
                "x",
                AttrValue::Number(x),
            ).set("width", AttrValue::Number(1)).set("height", AttrValue::Number(y));
            g = g.add(rect);
            assert(ordered@.take(i + 1).map_values(|p: (usize, usize)| bar_rect(p, self.colour@)) =~= ordered@.take(
                i as int,
            ).map_values(|p: (usize, usize)| bar_rect(p, self.colour@)).push(bar_rect(ordered@[i as int], self.colour@)));
            i = i + 1;
        }
        assert(ordered@.take(ordered.len() as int) =~= ordered@);
        assert(stably_sorted_x(ordered@, self.points@));
        g
    }

    /// A document of the bars, as wide and tall as the points with a margin.
    pub fn document(&self) -> (r: Element)
        requires
            max_x_of(self.points@) + 16 <= usize::MAX,
            max_y_of(self.points@) + 16 <= usize::MAX,
        ensures
            exists|o: Seq<(usize, usize)>|
                stably_sorted_x(o, self.points@) && r.model() == document_of(
                    group_of(o.map_values(|p: (usize, usize)| bar_rect(p, self.colour@))),
                    (max_x_of(self.points@) + 16) as usize,
                    (max_y_of(self.points@) + 16) as usize,
                ),
    {
        let w = self.max_x() + 16;
        let h = self.max_y() + 16;
        document(self.group(), w, h)
    }
}

/// Whether each graph of a stacked graph can be raised by those before it
/// and, kept at the largest y of each x, closed.
pub open spec fn stack_drawable(gs: Seq<LineGraph>) -> bool {
    forall|j: int|
        0 <= j < gs.len() ==> stack_fits(gs, j, #[trigger] gs[j].points@) && (gs[j].fill.0
            ==> stack_closable(gs, j))
}

/// Whether graph `j` of a stack, raised by those before it and kept at the
/// largest y of each x, can be closed.
pub open spec fn stack_closable(gs: Seq<LineGraph>, j: int) -> bool {
    forall|c: Seq<(usize, usize)>|
        #[trigger] collapsed(c, stacked_points(gs, j, gs[j].points@)) ==> closable(c)
}

/// Whether `e` draws graph `j` of a stacked graph: its points raised by the
/// graphs before it, one for each x with the largest y, as a line in its
/// colour.
pub open spec fn draws_stacked(e: ElementV, gs: Seq<LineGraph>, j: int) -> bool {
    exists|c: Seq<(usize, usize)>, o: Seq<(usize, usize)>|
        collapsed(c, stacked_points(gs, j, gs[j].points@)) && stably_sorted_x(o, c) && e == line_path(
            o,
            gs[j].colour@,
            gs[j].fill,
        )
}

impl StackedGraph {
    /// The graphs, last first, each raised by those before it.
    pub fn group(&self) -> (r: Element)
        requires
            stack_drawable(self.graphs@),
        ensures
            r.model().name == "g"@,
            r.model().attributes.len() == 0,
            r.model().text is None,
            r.model().children.len() == self.graphs@.len(),
            forall|m: int|
                0 <= m < self.graphs@.len() ==> draws_stacked(
                    #[trigger] r.model().children[m],
                    self.graphs@,
                    self.graphs@.len() - 1 - m,
                ),
    {
        let n = self.graphs.len();
        let mut g = Element::new("g");
        let mut j: usize = n;
        while j > 0
            invariant
                j <= n,
                n == self.graphs@.len(),
                stack_drawable(self.graphs@),
                g.model().name == "g"@,
                g.model().attributes.len() == 0,
                g.model().text is None,
                g.model().children.len() == n - j,
                forall|m: int|
                    0 <= m < n - j ==> draws_stacked(#[trigger] g.model().children[m], self.graphs@, n - 1 - m),
            decreases j,
        {
            let graph = &self.graphs[j - 1];
            assert(stack_fits(self.graphs@, (j - 1) as int, self.graphs@[j - 1].points@));
            let stacked = self.stack_graph(j - 1, graph);
            let c = collapse_points(stacked);
            let line = LineGraph::new(c, graph.colour.clone(), graph.fill);
            proof {
                if line.fill.0 {
                    assert(stack_closable(self.graphs@, (j - 1) as int));
                    assert(collapsed(c@, stacked@));
                }
            }
            let p = line.path();
            let ghost before = g.model();
            g = g.add(p);
            proof {
                let jj = (j - 1) as int;
                assert(draws_stacked(p.model(), self.graphs@, jj));
                assert forall|m: int| 0 <= m < n - (j - 1) implies draws_stacked(
                    #[trigger] g.model().children[m],
                    self.graphs@,
                    n - 1 - m,
                ) by {
                    if m < n - j {
                        assert(g.model().children[m] == before.children[m]);
                    } else {
                        assert(g.model().children[m] == p.model());
                    }
                }
            }
            j = j - 1;
        }
        g
    }

    /// A document of the stacked graph, as wide as its widest graph and as
    /// tall as the sum of their heights, with a margin.
    pub fn document(&self) -> (r: Element)
        requires
            stack_drawable(self.graphs@),
            graphs_max_x(self.graphs@) + 16 <= usize::MAX,
            graphs_max_y(self.graphs@) + 16 <= usize::MAX,
        ensures
            stacked_document(r.model(), self.graphs@),
    {
        let w = self.max_x() + 16;
        let h = self.max_y() + 16;
        let g = self.group();
        assert(stacked_group(g.model(), self.graphs@));
        let r = document(g, w, h);
        assert(stacked_document(r.model(), self.graphs@));
        r
    }
}

/// Whether `e` is the group of a stacked graph: the graphs, last first,
/// each raised by those before it.
pub open spec fn stacked_group(e: ElementV, gs: Seq<LineGraph>) -> bool {
    &&& e.name == "g"@
    &&& e.attributes.len() == 0
    &&& e.text is None
    &&& e.children.len() == gs.len()
    &&& forall|m: int| 0 <= m < gs.len() ==> draws_stacked(#[trigger] e.children[m], gs, gs.len() - 1 - m)
}

/// Whether `e` is the document of a stacked graph: its group, with a view
/// box as wide as the widest graph and as tall as the sum of their heights,
/// with a margin.
pub open spec fn stacked_document(e: ElementV, gs: Seq<LineGraph>) -> bool {
    exists|grp: ElementV|
        stacked_group(grp, gs) && e == document_of(
            grp,
            (graphs_max_x(gs) + 16) as usize,
            (graphs_max_y(gs) + 16) as usize,
        )
}

pub proof fn lemma_graphs_max_y_prefix(gs: Seq<LineGraph>, n: int)
    requires
        0 <= n <= gs.len(),
    ensures
        graphs_max_y(gs.take(n)) <= graphs_max_y(gs),
        graphs_max_y(gs.take(n)) >= 0,
    decreases gs.len() - n,
{
    if n < gs.len() {
        lemma_graphs_max_y_prefix(gs, n + 1);
        assert(gs.take(n + 1).drop_last() =~= gs.take(n));
        lemma_graphs_max_y_nonneg(gs.take(n));
    } else {
        assert(gs.take(n) =~= gs);
        lemma_graphs_max_y_nonneg(gs);
    }
}

pub proof fn lemma_graphs_max_y_nonneg(gs: Seq<LineGraph>)
    ensures
        graphs_max_y(gs) >= 0,
    decreases gs.len(),
{
    if gs.len() > 0 {
        lemma_graphs_max_y_nonneg(gs.drop_last());
    }
}

pub proof fn lemma_stacked_sum_nonneg(gs: Seq<LineGraph>, x: usize)
    ensures
        stacked_sum(gs, x) >= 0,
    decreases gs.len(),
{
    if gs.len() > 0 {
        lemma_stacked_sum_nonneg(gs.drop_last(), x);
        lemma_y_at_or_before_nonneg(gs.last().points@, x);
    }
}

pub proof fn lemma_y_at_or_before_nonneg(s: Seq<(usize, usize)>, x: usize)
    ensures
        y_at_or_before(s, x) >= 0,
    decreases s.len(),
{
    if s.len() > 0 {
        lemma_y_at_or_before_nonneg(s.drop_last(), x);
    }
}

pub proof fn lemma_stacked_sum_prefix(gs: Seq<LineGraph>, x: usize, a: int, b: int)
    requires
        0 <= a <= b <= gs.len(),
    ensures
        stacked_sum(gs.take(a), x) <= stacked_sum(gs.take(b), x),
    decreases b - a,
{
    if a < b {
        lemma_stacked_sum_prefix(gs, x, a, b - 1);
        assert(gs.take(b).drop_last() =~= gs.take(b - 1));
        lemma_y_at_or_before_nonneg(gs.take(b).last().points@, x);
    }
}

/// The layers of a stacked graph never cross: at every x, the base a layer
/// is raised by is at least the base of every layer below it, and each
/// stacked point keeps its x and lies no lower than the point it raises.
pub proof fn law_stack_layers_ordered(
    gs: Seq<LineGraph>,
    i: int,
    j: int,
    x: usize,
    pts: Seq<(usize, usize)>,
)
    requires
        0 <= i <= j,
        stack_fits(gs, i, pts),
    ensures
        stacked_sum(below(gs, i), x) <= stacked_sum(below(gs, j), x),
        stacked_points(gs, i, pts).len() == pts.len(),
        forall|k: int|
            0 <= k < pts.len() ==> #[trigger] stacked_points(gs, i, pts)[k].0 == pts[k].0
                && stacked_points(gs, i, pts)[k].1 >= pts[k].1,
{
    let a = if i < gs.len() { i } else { gs.len() as int };
    let b = if j < gs.len() { j } else { gs.len() as int };
    lemma_stacked_sum_prefix(gs, x, a, b);
    assert forall|k: int| 0 <= k < pts.len() implies #[trigger] stacked_points(gs, i, pts)[k].0
        == pts[k].0 && stacked_points(gs, i, pts)[k].1 >= pts[k].1 by {
        lemma_stacked_sum_nonneg(below(gs, i), pts[k].0);
    }
}

/// Two sequences ordered by x that hold the same points at each x, in the
/// same order, are the same.
proof fn lemma_sorted_same_xs_equal(a: Seq<(usize, usize)>, b: Seq<(usize, usize)>)
    requires
        sorted_by_x(a),
        sorted_by_x(b),
        forall|k: usize| #[trigger] with_x(a, k) == with_x(b, k),
    ensures
        a == b,
    decreases a.len() + b.len(),
{
    reveal(Seq::filter);
    if a.len() == 0 && b.len() == 0 {
        assert(a =~= b);
    } else if a.len() == 0 {
        assert(with_x(b, b.last().0) == with_x(b.drop_last(), b.last().0).push(b.last()));
        assert(with_x(a, b.last().0).len() == 0);
    } else if b.len() == 0 {
        assert(with_x(a, a.last().0) == with_x(a.drop_last(), a.last().0).push(a.last()));
        assert(with_x(b, a.last().0).len() == 0);
    } else {
        let ea = a.last();
        let eb = b.last();
        assert(a[a.len() - 1] == ea);
        assert(b[b.len() - 1] == eb);
        lemma_filter_same_elements_x(a, b, ea);
        lemma_filter_same_elements_x(b, a, eb);
        let i = choose|i: int| 0 <= i < b.len() && b[i] == ea;
        let j = choose|j: int| 0 <= j < a.len() && a[j] == eb;
        assert(b[i].0 <= b[b.len() - 1].0);
        assert(a[j].0 <= a[a.len() - 1].0);
        let m = ea.0;
        assert(eb.0 == m);
        assert(with_x(a, m) == with_x(a.drop_last(), m).push(ea));
        assert(with_x(b, m) == with_x(b.drop_last(), m).push(eb));
        assert(ea == eb) by {
            assert(with_x(a, m).last() == ea);
            assert(with_x(b, m).last() == eb);
        }
        let da = a.drop_last();
        let db = b.drop_last();
        assert forall|k: usize| #[trigger] with_x(da, k) == with_x(db, k) by {
            if k == m {
                assert(with_x(da, k) =~= with_x(a, k).drop_last());
                assert(with_x(db, k) =~= with_x(b, k).drop_last());
            } else {
                assert(with_x(a, k) == with_x(da, k));
                assert(with_x(b, k) == with_x(db, k));
            }
        }
        lemma_sorted_same_xs_equal(da, db);
        assert(a =~= da.push(ea));
        assert(b =~= db.push(eb));
    }
}

/// With a point at every x below `n` there are no gaps to fill.
proof fn lemma_zero_gaps_none(s: Seq<(usize, usize)>, n: nat)
    requires
        forall|x: int| 0 <= x < n ==> #[trigger] has_x(s, x),
    ensures
        zero_gaps(s, n) == Seq::<(usize, usize)>::empty(),
    decreases n,
{
    if n > 0 {
        assert(has_x(s, n - 1));
        lemma_zero_gaps_none(s, (n - 1) as nat);
    }
}

/// Each gap filled below `n` has an x below `n`.
proof fn lemma_zero_gaps_below(s: Seq<(usize, usize)>, n: nat)
    ensures
        forall|i: int| 0 <= i < zero_gaps(s, n).len() ==> #[trigger] zero_gaps(s, n)[i].0 < n,
    decreases n,
{
    if n > 0 {
        lemma_zero_gaps_below(s, (n - 1) as nat);
        let z = zero_gaps(s, (n - 1) as nat);
        assert forall|i: int| 0 <= i < zero_gaps(s, n).len() implies #[trigger] zero_gaps(s, n)[i].0 < n by {
            if i < z.len() {
                assert(zero_gaps(s, n)[i] == z[i]);
            }
        }
    }
}

/// Filling the gaps of points whose gaps were filled gives them back
/// unchanged.
pub proof fn law_fill_gaps_idempotent(p: Seq<(usize, usize)>, r: Seq<(usize, usize)>, r2: Seq<(usize, usize)>)
    requires
        filled(r, p, zero_gaps(p, (max_x_of(p) + 1) as nat)),
        filled(r2, r, zero_gaps(r, (max_x_of(r) + 1) as nat)),
    ensures
        r2 == r,
{
    let m = max_x_of(p);
    let gaps = zero_gaps(p, (m + 1) as nat);
    law_fill_gaps_complete(p, r);
    lemma_max_x_of_bounds(r);
    lemma_max_x_of_bounds(p);
    lemma_zero_gaps_below(p, (m + 1) as nat);
    assert(has_x(r, m as int));
    let w = choose|i: int| 0 <= i < r.len() && r[i].0 == m;
    assert(r[w].0 <= max_x_of(r));
    assert(r.len() > 0);
    let v = choose|i: int| 0 <= i < r.len() && #[trigger] r[i].0 == max_x_of(r);
    assert(r.contains(r[v]));
    lemma_filter_same_elements_x(r, p + gaps, r[v]);
    let u = choose|i: int| 0 <= i < (p + gaps).len() && (p + gaps)[i] == r[v];
    if u < p.len() {
        assert(p[u] == (p + gaps)[u]);
    } else {
        assert(gaps[u - p.len()] == (p + gaps)[u]);
    }
    assert(max_x_of(r) == m);
    lemma_zero_gaps_none(r, (m + 1) as nat);
    assert forall|k: usize| #[trigger] with_x(r2, k) == with_x(r, k) by {
        assert(r + zero_gaps(r, (max_x_of(r) + 1) as nat) =~= r);
    }
    lemma_sorted_same_xs_equal(r2, r);
}

/// Filling a line's gaps twice gives the same line as filling them once:
/// the same points, in the same order, colour and fill.
pub proof fn law_line_fill_gaps_idempotent(g: LineGraph, r: LineGraph, r2: LineGraph)
    requires
        r.colour == g.colour,
        r.fill == g.fill,
        filled(r.points@, g.points@, zero_gaps(g.points@, (max_x_of(g.points@) + 1) as nat)),
        r2.colour == r.colour,
        r2.fill == r.fill,
        filled(r2.points@, r.points@, zero_gaps(r.points@, (max_x_of(r.points@) + 1) as nat)),
    ensures
        r2.points@ == r.points@,
        r2.colour == r.colour,
        r2.fill == r.fill,
{
    law_fill_gaps_idempotent(g.points@, r.points@, r2.points@);
}

/// Collapsing a line twice gives the same line as collapsing it once: the
/// same points, colour and fill.
pub proof fn law_line_collapse_x_idempotent(g: LineGraph, r: LineGraph, r2: LineGraph)
    requires
        r.colour == g.colour,
        r.fill == g.fill,
        collapsed(r.points@, g.points@),
        r2.colour == r.colour,
        r2.fill == r.fill,
        collapsed(r2.points@, r.points@),
    ensures
        r2.points@ == r.points@,
        r2.colour == r.colour,
        r2.fill == r.fill,
{
    law_collapse_idempotent(g.points@, r.points@, r2.points@);
}

} // verus!
