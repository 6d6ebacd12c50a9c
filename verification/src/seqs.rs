use vstd::prelude::*;

use crate::point::Point;

verus! {

/// The sequence with every run of equal consecutive elements collapsed to one element.
pub open spec fn dedup_seq<P>(s: Seq<P>) -> Seq<P>
    decreases s.len(),
{
    if s.len() <= 1 {
        s
    } else {
        let d = dedup_seq(s.drop_last());
        if s.last() == s[s.len() - 2] {
            d
        } else {
            d.push(s.last())
        }
    }
}

/// No two consecutive elements are equal.
pub open spec fn no_adjacent_dups<P>(s: Seq<P>) -> bool {
    forall|i: int| 0 <= i < s.len() - 1 ==> #[trigger] s[i] != s[i + 1]
}

/// A valid point sequence of a ring: no two cyclically consecutive points are equal (which also
/// rules out a ring of a single point).
pub open spec fn ring_wf<P>(s: Seq<P>) -> bool {
    &&& no_adjacent_dups(s)
    &&& s.len() > 0 ==> s.last() != s[0]
}

/// The points a ring keeps of the given points: consecutive duplicates are removed, then a
/// closing point equal to the first one is dropped.
pub open spec fn ring_points<P>(s: Seq<P>) -> Seq<P> {
    let d = dedup_seq(s);
    if d.len() > 0 && d.last() == d[0] {
        d.drop_last()
    } else {
        d
    }
}

/// Basic shape of `dedup_seq`: it keeps the first and the last element, never grows and is
/// empty only for the empty sequence.
pub proof fn lemma_dedup_shape<P>(s: Seq<P>)
    ensures
        dedup_seq(s).len() <= s.len(),
        s.len() > 0 ==> dedup_seq(s).len() > 0,
        s.len() > 0 ==> dedup_seq(s)[0] == s[0],
        s.len() > 0 ==> dedup_seq(s).last() == s.last(),
        no_adjacent_dups(dedup_seq(s)),
    decreases s.len(),
{
    if s.len() > 1 {
        lemma_dedup_shape(s.drop_last());
        let d = dedup_seq(s.drop_last());
        if s.last() != s[s.len() - 2] {
            let e = d.push(s.last());
            assert forall|i: int| 0 <= i < e.len() - 1 implies #[trigger] e[i] != e[i + 1] by {
                if i < d.len() - 1 {
                    assert(e[i] == d[i] && e[i + 1] == d[i + 1]);
                } else {
                    assert(e[i] == d.last());
                }
            }
        }
    }
}

/// `dedup_seq` leaves a sequence without consecutive duplicates unchanged.
pub proof fn lemma_dedup_noop<P>(s: Seq<P>)
    requires
        no_adjacent_dups(s),
    ensures
        dedup_seq(s) == s,
    decreases s.len(),
{
    if s.len() > 1 {
        let t = s.drop_last();
        assert(no_adjacent_dups(t)) by {
            assert forall|i: int| 0 <= i < t.len() - 1 implies #[trigger] t[i] != t[i + 1] by {
                assert(s[i] != s[i + 1]);
            }
        }
        lemma_dedup_noop(t);
        assert(s[s.len() - 2] != s[s.len() - 1]);
        assert(t.push(s.last()) =~= s);
    }
}

/// `dedup_seq` is idempotent.
pub proof fn lemma_dedup_idempotent<P>(s: Seq<P>)
    ensures
        dedup_seq(dedup_seq(s)) == dedup_seq(s),
{
    lemma_dedup_shape(s);
    lemma_dedup_noop(dedup_seq(s));
}

/// The points kept by `ring_points` form a valid ring.
pub proof fn lemma_ring_points_wf<P>(s: Seq<P>)
    ensures
        ring_wf(ring_points(s)),
        ring_points(s).len() <= s.len(),
{
    lemma_dedup_shape(s);
    let d = dedup_seq(s);
    if d.len() > 0 && d.last() == d[0] {
        let e = d.drop_last();
        assert(no_adjacent_dups(e)) by {
            assert forall|i: int| 0 <= i < e.len() - 1 implies #[trigger] e[i] != e[i + 1] by {
                assert(d[i] != d[i + 1]);
            }
        }
        if e.len() > 0 {
            assert(d[d.len() - 2] != d[d.len() - 1]);
        }
    }
}

/// A valid ring is left unchanged by `ring_points`.
pub proof fn lemma_ring_points_noop<P>(s: Seq<P>)
    requires
        ring_wf(s),
    ensures
        ring_points(s) == s,
{
    lemma_dedup_noop(s);
}

/// Mapping commutes with appending one element.
pub proof fn lemma_map_push<A, B>(s: Seq<A>, x: A, f: spec_fn(A) -> B)
    ensures
        s.push(x).map_values(f) == s.map_values(f).push(f(x)),
{
    assert(s.push(x).map_values(f) =~= s.map_values(f).push(f(x)));
}

/// Stepping forwards and backwards around a cycle of length `n`.
pub proof fn lemma_mod_wrap(k: int, n: int)
    requires
        n > 0,
        0 <= k < 2 * n,
    ensures
        k % n == (if k < n {
            k
        } else {
            k - n
        }),
{
    if k < n {
        vstd::arithmetic::div_mod::lemma_small_mod(k as nat, n as nat);
    } else {
        vstd::arithmetic::div_mod::lemma_mod_add_multiples_vanish(k - n, n);
        vstd::arithmetic::div_mod::lemma_small_mod((k - n) as nat, n as nat);
    }
}

/// Reversing keeps a ring valid.
pub proof fn lemma_reverse_wf<P>(s: Seq<P>)
    requires
        ring_wf(s),
    ensures
        ring_wf(s.reverse()),
{
    let r = s.reverse();
    let n = s.len() as int;
    assert forall|i: int| 0 <= i < r.len() - 1 implies #[trigger] r[i] != r[i + 1] by {
        assert(r[i] == s[n - 1 - i]);
        assert(r[i + 1] == s[n - 2 - i]);
        assert(s[n - 2 - i] != s[(n - 2 - i) + 1]);
    }
    if n > 0 {
        assert(r.last() == s[0]);
        assert(r[0] == s.last());
    }
}

/// Reversing twice gives back the sequence.
pub proof fn lemma_reverse_reverse<P>(s: Seq<P>)
    ensures
        s.reverse().reverse() == s,
{
    assert(s.reverse().reverse() =~= s);
}

/// Copies the points of a slice into a new vector in reverse order.
pub fn reverse_points<P: Point>(v: &[P]) -> (r: Vec<P>)
    ensures
        r@ == v@.reverse(),
{
    let mut r: Vec<P> = Vec::new();
    let n = v.len();
    let mut i: usize = n;
    while i > 0
        invariant
            n == v@.len(),
            i <= n,
            r@ == v@.reverse().take(n - i),
        decreases i,
    {
        i = i - 1;
        r.push(v[i]);
        assert(r@ =~= v@.reverse().take(n - i));
    }
    assert(v@.reverse().take(n as int) =~= v@.reverse());
    r
}

/// Copies the points of a slice into a new vector.
pub fn copy_points<P: Point>(v: &[P]) -> (r: Vec<P>)
    ensures
        r@ == v@,
{
    let mut r: Vec<P> = Vec::new();
    let n = v.len();
    let mut i: usize = 0;
    while i < n
        invariant
            n == v@.len(),
            i <= n,
            r@ == v@.take(i as int),
        decreases n - i,
    {
        r.push(v[i]);
        i = i + 1;
        assert(r@ =~= v@.take(i as int));
    }
    assert(v@.take(n as int) =~= v@);
    r
}

/// Removes consecutive duplicates, keeping the first point of every run.
pub fn dedup_points<P: Point>(v: &[P]) -> (r: Vec<P>)
    ensures
        r@ == dedup_seq(v@),
{
    let mut r: Vec<P> = Vec::new();
    let n = v.len();
    let mut i: usize = 0;
    while i < n
        invariant
            n == v@.len(),
            i <= n,
            r@ == dedup_seq(v@.take(i as int)),
        decreases n - i,
    {
        let p = v[i];
        let ghost t = v@.take(i as int);
        let ghost t1 = v@.take(i + 1);
        assert(t1.drop_last() =~= t);
        proof {
            lemma_dedup_shape(t);
        }
        if r.len() == 0 {
            r.push(p);
            assert(t1.len() == 1);
            assert(r@ =~= t1);
        } else {
            let last = r[r.len() - 1];
            if !last.same(&p) {
                r.push(p);
            }
        }
        i = i + 1;
    }
    assert(v@.take(n as int) =~= v@);
    r
}

/// Deduplication keeps only elements of the sequence.
pub proof fn lemma_dedup_subset<P>(s: Seq<P>, x: P)
    ensures
        dedup_seq(s).contains(x) ==> s.contains(x),
    decreases s.len(),
{
    if s.len() > 1 {
        let t = s.drop_last();
        lemma_dedup_subset(t, x);
        if dedup_seq(s).contains(x) {
            let d = dedup_seq(t);
            if d.contains(x) {
                let k = choose|k: int| 0 <= k < t.len() && t[k] == x;
                assert(s[k] == x);
            } else {
                assert(dedup_seq(s) == d.push(s.last()));
                let k = choose|k: int| 0 <= k < d.len() + 1 && d.push(s.last())[k] == x;
                assert(k == d.len());
                assert(s[s.len() - 1] == x);
            }
        }
    }
}

/// The points that a ring keeps are points of the given list.
pub proof fn lemma_ring_points_subset<P>(s: Seq<P>, x: P)
    ensures
        ring_points(s).contains(x) ==> s.contains(x),
{
    lemma_dedup_subset(s, x);
    let d = dedup_seq(s);
    if ring_points(s).contains(x) && d.len() > 0 && d.last() == d[0] {
        let k = choose|k: int| 0 <= k < d.len() - 1 && d.drop_last()[k] == x;
        assert(d[k] == x);
    }
}

/// Removing consecutive repetitions keeps every element.
pub proof fn lemma_dedup_superset<P>(s: Seq<P>, x: P)
    ensures
        s.contains(x) ==> dedup_seq(s).contains(x),
    decreases s.len(),
{
    if s.len() > 1 && s.contains(x) {
        let t = s.drop_last();
        lemma_dedup_superset(t, x);
        let d = dedup_seq(t);
        let k = choose|k: int| 0 <= k < s.len() && s[k] == x;
        if k < t.len() {
            assert(t[k] == x);
            if s.last() != s[s.len() - 2] {
                let j = choose|j: int| 0 <= j < d.len() && d[j] == x;
                assert(d.push(s.last())[j] == x);
            }
        } else if s.last() == s[s.len() - 2] {
            assert(t[s.len() - 2] == x);
        } else {
            assert(d.push(s.last())[d.len() as int] == x);
        }
    }
}

/// A ring keeps every point of the given list, unless it comes out empty (when all the
/// points coincide).
pub proof fn lemma_ring_points_keeps<P>(s: Seq<P>, x: P)
    ensures
        s.contains(x) ==> ring_points(s).len() == 0 || ring_points(s).contains(x),
{
    if s.contains(x) {
        lemma_dedup_superset(s, x);
        let d = dedup_seq(s);
        if d.len() > 0 && d.last() == d[0] && d.len() > 1 {
            let k = choose|k: int| 0 <= k < d.len() && d[k] == x;
            if k == d.len() - 1 {
                assert(d.drop_last()[0] == x);
            } else {
                assert(d.drop_last()[k] == x);
            }
        }
    }
}

} // verus!
