use vstd::prelude::*;

use super::ring::ring_lines;
use crate::point::Point;
use crate::seqs::{
    dedup_seq, lemma_dedup_idempotent, lemma_dedup_shape, lemma_mod_wrap,
    lemma_ring_points_noop, lemma_ring_points_wf, ring_points, ring_wf,
};

verus! {

/// A ring built from a closed point list equals the ring built from the same list without
/// the closing point: `Ring::new` accepts both open and closed lists.
pub proof fn lemma_ring_new_open_closed<P>(s: Seq<P>)
    requires
        s.len() > 0,
    ensures
        ring_points(s.push(s[0])) == ring_points(s),
{
    lemma_dedup_shape(s);
    let t = s.push(s[0]);
    assert(t.drop_last() =~= s);
    assert(t[t.len() - 2] == s.last());
    lemma_dedup_shape(t);
}

/// Normalising the points of a ring twice changes nothing.
pub proof fn lemma_ring_new_idempotent<P>(s: Seq<P>)
    ensures
        ring_points(ring_points(s)) == ring_points(s),
{
    lemma_ring_points_wf(s);
    lemma_ring_points_noop(ring_points(s));
}

/// Deduplicating the points of a line string twice changes nothing.
pub proof fn lemma_linestring_new_idempotent<P>(s: Seq<P>)
    ensures
        dedup_seq(dedup_seq(s)) == dedup_seq(s),
{
    lemma_dedup_idempotent(s);
}

/// The line string of a non-empty ring is closed, and turning it back into a ring gives the
/// same ring.
pub proof fn lemma_ring_linestring_roundtrip<P>(s: Seq<P>)
    requires
        ring_wf(s),
        s.len() > 0,
    ensures
        s.push(s[0]).last() == s.push(s[0])[0],
        ring_points(s.push(s[0])) == s,
{
    lemma_ring_new_open_closed(s);
    lemma_ring_points_noop(s);
}

/// The segments of a ring form a closed chain: every segment starts where the previous one
/// ended, the first starts at the first point and the last one returns to it.
pub proof fn lemma_ring_lines_chain<P: Point>(s: Seq<P>)
    ensures
        ring_lines(s).len() == s.len(),
        forall|i: int| 0 <= i < s.len() ==> (#[trigger] ring_lines(s)[i]).0[0] == s[i],
        forall|i: int|
            0 <= i < s.len() ==> (#[trigger] ring_lines(s)[i]).0[1] == ring_lines(s)[(i + 1) % (
            s.len() as int)].0[0],
{
    let n = s.len() as int;
    assert forall|i: int| 0 <= i < n implies (#[trigger] ring_lines(s)[i]).0[1] == ring_lines(
        s,
    )[(i + 1) % n].0[0] by {
        lemma_mod_wrap(i + 1, n);
    }
}

/// The segments of a valid ring all have distinct end points.
pub proof fn lemma_ring_lines_proper<P: Point>(s: Seq<P>)
    requires
        ring_wf(s),
    ensures
        forall|i: int|
            0 <= i < s.len() ==> (#[trigger] ring_lines(s)[i]).0[0] != ring_lines(s)[i].0[1],
{
    let n = s.len() as int;
    assert forall|i: int| 0 <= i < n implies (#[trigger] ring_lines(s)[i]).0[0] != ring_lines(
        s,
    )[i].0[1] by {
        lemma_mod_wrap(i + 1, n);
        if i + 1 < n {
            assert(s[i] != s[i + 1]);
        }
    }
}

} // verus!
