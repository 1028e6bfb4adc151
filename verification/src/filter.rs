//! Constraint filter: extracts the usable correspondence pairs from a raw
//! constraint list, silently discarding degenerate and duplicate entries.

use vstd::prelude::*;

use crate::model::{ConstraintKind, PairPt};

verus! {

/// The pair a constraint contributes to fitting, if any: only `PointPair`
/// constraints take part.
pub open spec fn pair_of(c: ConstraintKind) -> Option<PairPt> {
    match c {
        ConstraintKind::PointPair { src, dst, .. } => Some(PairPt { src, dst }),
        _ => None,
    }
}

/// A pair is degenerate when its two points coincide. At this fixed-point
/// resolution the squared-distance threshold of the filter (1e-24 square
/// pixels) admits exactly the coincident pairs.
pub open spec fn degenerate(p: PairPt) -> bool {
    p.src == p.dst
}

/// The pairs that survive the filter, in input order: one pair per
/// `PointPair` constraint, unless it is degenerate or an earlier kept pair
/// is identical.
pub open spec fn extracted(cs: Seq<ConstraintKind>) -> Seq<PairPt>
    decreases cs.len(),
{
    if cs.len() == 0 {
        Seq::empty()
    } else {
        let rest = extracted(cs.drop_last());
        match pair_of(cs.last()) {
            Some(p) => {
                if !degenerate(p) && !rest.contains(p) {
                    rest.push(p)
                } else {
                    rest
                }
            },
            None => rest,
        }
    }
}

/// Whether `v` already holds `p`.
fn contains_pair(v: &Vec<PairPt>, p: PairPt) -> (r: bool)
    ensures
        r == v@.contains(p),
{
    let n = v.len();
    for i in 0..n
        invariant
            n == v@.len(),
            forall|j: int| 0 <= j < i ==> v@[j] != p,
    {
        if v[i] == p {
            assert(v@.contains(p));
            return true;
        }
    }
    assert(!v@.contains(p));
    false
}

/// Extracts the point-pair constraints as (src, dst) fixed-point pairs.
/// Only `PointPair` constraints are considered; degenerate pairs (the two
/// points coincide) and exact duplicates of an earlier kept pair are
/// dropped, and the output keeps the input's relative order. Filtering is
/// silent: an empty result is valid input to the fitters, which then raise
/// their own insufficient-data errors.
pub fn pairs_from_constraints(constraints: &Vec<ConstraintKind>) -> (r: Vec<PairPt>)
    ensures
        r@ == extracted(constraints@),
{
    let mut out: Vec<PairPt> = Vec::new();
    let n = constraints.len();
    for i in 0..n
        invariant
            n == constraints@.len(),
            out@ == extracted(constraints@.take(i as int)),
    {
        proof {
            assert(constraints@.take(i + 1).drop_last() =~= constraints@.take(i as int));
            assert(constraints@.take(i + 1).last() == constraints@[i as int]);
        }
        match &constraints[i] {
            ConstraintKind::PointPair { src, dst, .. } => {
                let p = PairPt { src: *src, dst: *dst };
                if !(p.src == p.dst) && !contains_pair(&out, p) {
                    out.push(p);
                }
            },
            _ => {},
        }
    }
    proof {
        assert(constraints@.take(n as int) =~= constraints@);
    }
    out
}

} // verus!
