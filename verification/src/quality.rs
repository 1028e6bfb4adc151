//! Quality engine: residuals against a fitted transform, RMSE, the
//! 90th-percentile error by nearest rank, per-constraint error attribution
//! and the low-variance instability warning.

use vstd::prelude::*;
use vstd::seq_lib::group_to_multiset_ensures;

use crate::algebra::Transform;
use crate::model::{ConstraintKind, PairPt, Pt};
use crate::num::{isqrt_u128, lemma_mul_bound};
use crate::FitError;

verus! {

/// Largest residual magnitude (in units) the summary accepts, so the sum
/// of squares stays within the machine words.
pub const MAX_RESIDUAL: i64 = 0x4000_0000_0000;

/// A sequence is sorted ascending.
pub open spec fn sorted_asc(s: Seq<i64>) -> bool {
    forall|i: int, j: int| 0 <= i <= j < s.len() ==> s[i] <= s[j]
}

/// The squared distance between the image of `p.src` under `t` (in whole
/// units) and `p.dst`.
pub open spec fn res_sq<T: Transform>(t: &T, p: PairPt) -> int {
    (t.app_x(p.src) - p.dst.x) * (t.app_x(p.src) - p.dst.x) + (t.app_y(p.src) - p.dst.y) * (
    t.app_y(p.src) - p.dst.y)
}

/// Whether the residual of `p` under `t` is representable: the application
/// stays in machine range and both coordinate errors are bounded.
pub open spec fn res_ok<T: Transform>(t: &T, p: PairPt) -> bool {
    &&& t.app_fits(p.src)
    &&& -0x4000_0000_0000_0000 <= t.app_x(p.src) - p.dst.x <= 0x4000_0000_0000_0000
    &&& -0x4000_0000_0000_0000 <= t.app_y(p.src) - p.dst.y <= 0x4000_0000_0000_0000
}

/// Whether `v` is the (floor of the) Euclidean residual of `p` under `t`.
pub open spec fn is_residual<T: Transform>(t: &T, p: PairPt, v: int) -> bool {
    &&& 0 <= v
    &&& v * v <= res_sq(t, p)
    &&& res_sq(t, p) < (v + 1) * (v + 1)
}

/// Computes the Euclidean residual of one pair under a transform, rounded
/// down to whole units, or `None` when it is not representable.
pub fn residual_of<T: Transform>(t: &T, p: PairPt) -> (r: Option<i64>)
    requires
        t.t_wf(),
    ensures
        r is Some <==> res_ok(t, p),
        r matches Some(v) ==> is_residual(t, p, v as int),
{
    let q = match t.apply(p.src) {
        Some(q) => q,
        None => { return None; },
    };
    let dx = q.x as i128 - p.dst.x as i128;
    let dy = q.y as i128 - p.dst.y as i128;
    if dx < -0x4000_0000_0000_0000i128 || dx > 0x4000_0000_0000_0000i128 {
        return None;
    }
    if dy < -0x4000_0000_0000_0000i128 || dy > 0x4000_0000_0000_0000i128 {
        return None;
    }
    proof {
        lemma_mul_bound(
            dx as int,
            dx as int,
            0x4000_0000_0000_0000,
            0x4000_0000_0000_0000,
        );
        lemma_mul_bound(
            dy as int,
            dy as int,
            0x4000_0000_0000_0000,
            0x4000_0000_0000_0000,
        );
        assert((dx as int) * (dx as int) >= 0) by (nonlinear_arith);
        assert((dy as int) * (dy as int) >= 0) by (nonlinear_arith);
    }
    let dsq = dx * dx + dy * dy;
    let root = isqrt_u128(dsq as u128);
    proof {
        assert(root < 0x8000_0000_0000_0000u128) by (nonlinear_arith)
            requires
                root * root <= dsq as u128,
                (dsq as u128) < 0x4000_0000_0000_0000_0000_0000_0000_0000u128,
        ;
    }
    Some(root as i64)
}

/// Computes the residual of every pair under `t`, in input order. Fails
/// with `OutOfRange` when some residual is not representable in the
/// fixed-point model.
pub fn residuals_for<T: Transform>(t: &T, pairs: &Vec<PairPt>) -> (r: Result<
    Vec<i64>,
    FitError,
>)
    requires
        t.t_wf(),
    ensures
        r is Ok <==> forall|i: int| 0 <= i < pairs@.len() ==> res_ok(t, #[trigger] pairs@[i]),
        r matches Ok(v) ==> v@.len() == pairs@.len() && forall|i: int|
            0 <= i < pairs@.len() ==> is_residual(t, #[trigger] pairs@[i], v@[i] as int),
        r is Err ==> r == Err::<Vec<i64>, FitError>(FitError::OutOfRange),
{
    let mut out: Vec<i64> = Vec::new();
    let n = pairs.len();
    for i in 0..n
        invariant
            n == pairs@.len(),
            t.t_wf(),
            out@.len() == i,
            forall|j: int| 0 <= j < i ==> res_ok(t, #[trigger] pairs@[j]),
            forall|j: int| 0 <= j < i ==> is_residual(t, #[trigger] pairs@[j], out@[j] as int),
    {
        match residual_of(t, pairs[i]) {
            Some(v) => { out.push(v); },
            None => { return Err(FitError::OutOfRange); },
        }
    }
    Ok(out)
}

/// The point-pair constraints of a list, with their ids, in input order.
pub open spec fn pp_seq(cs: Seq<ConstraintKind>) -> Seq<(u64, PairPt)>
    decreases cs.len(),
{
    if cs.len() == 0 {
        Seq::empty()
    } else {
        let rest = pp_seq(cs.drop_last());
        match cs.last() {
            ConstraintKind::PointPair { id, src, dst, .. } => rest.push(
                (id, PairPt { src, dst }),
            ),
            _ => rest,
        }
    }
}

/// A prefix of the constraint list contributes a prefix of the point-pair
/// sequence.
proof fn lemma_pp_seq_prefix(cs: Seq<ConstraintKind>, i: int)
    requires
        0 <= i <= cs.len(),
    ensures
        pp_seq(cs.take(i)).len() <= pp_seq(cs).len(),
        forall|k: int| 0 <= k < pp_seq(cs.take(i)).len() ==> pp_seq(cs.take(i))[k] == pp_seq(
            cs,
        )[k],
    decreases cs.len() - i,
{
    if i == cs.len() {
        assert(cs.take(i) =~= cs);
    } else {
        lemma_pp_seq_prefix(cs, i + 1);
        assert(cs.take(i + 1).drop_last() =~= cs.take(i));
        assert(cs.take(i + 1).last() == cs[i]);
    }
}

/// Re-runs the transform against every point-pair constraint's raw source
/// and destination (not the filtered pair list) and records the residual
/// keyed by constraint id; other constraint variants are skipped. Fails
/// with `OutOfRange` exactly when some point-pair's residual is not
/// representable.
pub fn residuals_by_id<T: Transform>(t: &T, constraints: &Vec<ConstraintKind>) -> (r: Result<
    Vec<(u64, i64)>,
    FitError,
>)
    requires
        t.t_wf(),
    ensures
        r matches Ok(v) ==> {
            &&& v@.len() == pp_seq(constraints@).len()
            &&& forall|k: int|
                0 <= k < v@.len() ==> (#[trigger] v@[k]).0 == pp_seq(constraints@)[k].0
                    && is_residual(t, pp_seq(constraints@)[k].1, v@[k].1 as int)
        },
        r is Ok <==> forall|k: int|
            0 <= k < pp_seq(constraints@).len() ==> res_ok(
                t,
                (#[trigger] pp_seq(constraints@)[k]).1,
            ),
        r is Err ==> r == Err::<Vec<(u64, i64)>, FitError>(FitError::OutOfRange),
{
    let mut out: Vec<(u64, i64)> = Vec::new();
    let n = constraints.len();
    for i in 0..n
        invariant
            n == constraints@.len(),
            t.t_wf(),
            out@.len() == pp_seq(constraints@.take(i as int)).len(),
            forall|k: int|
                0 <= k < out@.len() ==> (#[trigger] out@[k]).0 == pp_seq(
                    constraints@.take(i as int),
                )[k].0 && is_residual(
                    t,
                    pp_seq(constraints@.take(i as int))[k].1,
                    out@[k].1 as int,
                ) && res_ok(t, pp_seq(constraints@.take(i as int))[k].1),
    {
        proof {
            assert(constraints@.take(i + 1).drop_last() =~= constraints@.take(i as int));
            assert(constraints@.take(i + 1).last() == constraints@[i as int]);
        }
        match &constraints[i] {
            ConstraintKind::PointPair { id, src, dst, .. } => {
                let p = PairPt { src: *src, dst: *dst };
                match residual_of(t, p) {
                    Some(v) => { out.push((*id, v)); },
                    None => {
                        proof {
                            lemma_pp_seq_prefix(constraints@, i + 1);
                            assert(pp_seq(constraints@)[out@.len() as int].1 == p);
                            assert(!res_ok(t, pp_seq(constraints@)[out@.len() as int].1));
                        }
                        return Err(FitError::OutOfRange);
                    },
                }
            },
            _ => {},
        }
    }
    proof {
        assert(constraints@.take(n as int) =~= constraints@);
        assert forall|k: int| 0 <= k < pp_seq(constraints@).len() implies res_ok(
            t,
            (#[trigger] pp_seq(constraints@)[k]).1,
        ) by {
            assert(out@[k].0 == pp_seq(constraints@)[k].0);
        }
    }
    Ok(out)
}

/// Inserts a value into a sorted vector, keeping it sorted.
fn sorted_insert(out: &mut Vec<i64>, x: i64)
    requires
        sorted_asc(old(out)@),
    ensures
        sorted_asc(final(out)@),
        final(out)@.to_multiset() == old(out)@.to_multiset().insert(x),
        final(out)@.len() == old(out)@.len() + 1,
{
    broadcast use group_to_multiset_ensures;
    broadcast use vstd::seq_lib::to_multiset_insert;

    let n = out.len();
    let mut pos: usize = 0;
    while pos < n && out[pos] < x
        invariant
            n == out@.len(),
            pos <= n,
            sorted_asc(out@),
            forall|k: int| 0 <= k < pos ==> out@[k] < x,
        decreases n - pos,
    {
        pos += 1;
    }
    out.insert(pos, x);
    proof {
        assert(sorted_asc(out@)) by {
            assert(forall|k: int| 0 <= k < pos ==> out@[k] < x);
            assert(forall|k: int| pos < k < out@.len() ==> x <= out@[k]);
        }
    }
}

/// Sorts the values ascending, returning a permutation of the input.
pub fn sort_units(v: &Vec<i64>) -> (r: Vec<i64>)
    ensures
        sorted_asc(r@),
        r@.to_multiset() == v@.to_multiset(),
        r@.len() == v@.len(),
{
    broadcast use group_to_multiset_ensures;
    broadcast use vstd::seq_lib::to_multiset_build;

    let mut out: Vec<i64> = Vec::new();
    let n = v.len();
    for i in 0..n
        invariant
            n == v@.len(),
            sorted_asc(out@),
            out@.to_multiset() == v@.take(i as int).to_multiset(),
            out@.len() == i,
    {
        proof {
            assert(v@.take(i + 1) =~= v@.take(i as int).push(v@[i as int]));
            vstd::seq_lib::to_multiset_build(v@.take(i as int), v@[i as int]);
        }
        sorted_insert(&mut out, v[i]);
    }
    proof {
        assert(v@.take(n as int) =~= v@);
    }
    out
}

/// Sum of the squares of a residual sequence.
pub open spec fn sum_sq(s: Seq<i64>) -> int
    decreases s.len(),
{
    if s.len() == 0 {
        0
    } else {
        sum_sq(s.drop_last()) + s.last() * s.last()
    }
}

/// The nearest-rank index of the 90th percentile in a sorted list of `n`
/// residuals: `floor(n * 0.9)`, clamped to `n - 1`.
pub open spec fn p90_index(n: int) -> int {
    if 9 * n / 10 <= n - 1 {
        9 * n / 10
    } else {
        n - 1
    }
}

/// Whether `rmse` and `p90` summarize the residual list `raw`: `rmse` is
/// the root of the truncated mean of squares rounded down, and `p90` is
/// the entry of the ascending reordering of `raw` at the nearest-rank
/// index. An empty list summarizes to zeros.
pub open spec fn summary_of(raw: Seq<i64>, rmse: int, p90: int) -> bool {
    exists|sorted: Seq<i64>|
        #![trigger sorted.to_multiset()]
        {
            &&& sorted_asc(sorted)
            &&& sorted.to_multiset() == raw.to_multiset()
            &&& sorted.len() == raw.len()
            &&& raw.len() == 0 ==> rmse == 0 && p90 == 0
            &&& raw.len() > 0 ==> rmse * rmse <= sum_sq(raw) / (raw.len() as int) && sum_sq(
                raw,
            ) / (raw.len() as int) < (rmse + 1) * (rmse + 1) && p90 == sorted[p90_index(
                raw.len() as int,
            )]
        }
}

/// Summarizes residuals: the root-mean-square error rounded down to whole
/// units, the 90th-percentile error by nearest rank, and the residual list
/// sorted ascending. The input list is left as given; an empty list
/// summarizes to zeros.
pub fn summarize_residuals(residuals: &Vec<i64>) -> (r: (i64, i64, Vec<i64>))
    requires
        residuals@.len() <= 4096,
        forall|i: int| 0 <= i < residuals@.len() ==> 0 <= #[trigger] residuals@[i]
            <= MAX_RESIDUAL,
    ensures
        sorted_asc(r.2@),
        r.2@.to_multiset() == residuals@.to_multiset(),
        r.2@.len() == residuals@.len(),
        residuals@.len() == 0 ==> r.0 == 0 && r.1 == 0,
        residuals@.len() > 0 ==> {
            let mean = sum_sq(residuals@) / residuals@.len() as int;
            &&& r.0 * r.0 <= mean < (r.0 + 1) * (r.0 + 1)
            &&& r.1 == r.2@[p90_index(residuals@.len() as int)]
        },
        summary_of(residuals@, r.0 as int, r.1 as int),
{
    let n = residuals.len();
    if n == 0 {
        let empty: Vec<i64> = Vec::new();
        proof {
            assert(empty@ =~= residuals@);
            assert(summary_of(residuals@, 0, 0)) by {
                assert(sorted_asc(empty@) && empty@.to_multiset() == residuals@.to_multiset()
                    && empty@.len() == residuals@.len());
            }
        }
        return (0, 0, empty);
    }
    let mut sum: i128 = 0;
    for i in 0..n
        invariant
            n == residuals@.len(),
            n <= 4096,
            forall|k: int| 0 <= k < residuals@.len() ==> 0 <= #[trigger] residuals@[k]
                <= MAX_RESIDUAL,
            sum == sum_sq(residuals@.take(i as int)),
            0 <= sum <= 0x1000_0000_0000_0000_0000_0000i128 * i,
    {
        proof {
            assert(residuals@.take(i + 1).drop_last() =~= residuals@.take(i as int));
            assert(residuals@.take(i + 1).last() == residuals@[i as int]);
            lemma_mul_bound(
                residuals@[i as int] as int,
                residuals@[i as int] as int,
                0x4000_0000_0000,
                0x4000_0000_0000,
            );
            assert((residuals@[i as int] as int) * (residuals@[i as int] as int) >= 0)
                by (nonlinear_arith);
        }
        let x = residuals[i] as i128;
        sum = sum + x * x;
    }
    proof {
        assert(residuals@.take(n as int) =~= residuals@);
    }
    let ni = n as i128;
    proof {
        vstd::arithmetic::div_mod::lemma_div_pos_is_pos(sum as int, ni as int);
        vstd::arithmetic::div_mod::lemma_div_nonincreasing(sum as int, ni as int);
    }
    let mean = match sum.checked_div(ni) {
        Some(m) => m,
        None => {
            proof {
                assert(false);
            }
            0
        },
    };
    proof {
        assert((mean as u128) < 0x4000_0000_0000_0000_0000_0000_0000_0000u128);
    }
    let rmse = isqrt_u128(mean as u128);
    proof {
        assert(rmse < 0x8000_0000_0000_0000u128) by (nonlinear_arith)
            requires
                rmse * rmse <= mean as u128,
                (mean as u128) < 0x4000_0000_0000_0000_0000_0000_0000_0000u128,
        ;
    }
    let sorted = sort_units(residuals);
    let mut idx = (n * 9) / 10;
    if idx > n - 1 {
        idx = n - 1;
    }
    proof {
        vstd::arithmetic::div_mod::lemma_div_pos_is_pos(9 * n as int, 10);
        assert(sorted@.len() == n);
        assert(0 <= p90_index(n as int) < n as int);
        assert(idx == p90_index(n as int));
    }
    let p90 = sorted[idx];
    proof {
        assert(summary_of(residuals@, rmse as int, p90 as int)) by {
            assert(sorted_asc(sorted@) && sorted@.to_multiset() == residuals@.to_multiset()
                && sorted@.len() == residuals@.len() && p90 == sorted@[p90_index(
                residuals@.len() as int,
            )]);
        }
    }
    (rmse as i64, p90, sorted)
}

/// `n` times the pooled variance of the source points, in square units:
/// `variance_low` compares it against the squared-pixel threshold.
pub open spec fn low_variance(ps: Seq<PairPt>) -> bool {
    ps.len() == 0 || 100 * crate::fit::fit_nn(ps) < ps.len() * ps.len()
}

/// Whether the pooled variance of the pair source points (mean squared
/// deviation from the centroid, summed over both axes) is below the
/// stability threshold of 1e-6 square pixels. An empty list counts as
/// low-variance.
pub fn variance_low(pairs: &Vec<PairPt>) -> (r: bool)
    requires
        crate::fit::fit_input_ok(pairs@),
    ensures
        r == low_variance(pairs@),
{
    let n = pairs.len();
    if n == 0 {
        return true;
    }
    let (sx, sy, _dx, _dy, pss, _psd, _pcr) = crate::fit::fit_sums(pairs);
    let ni = n as i128;
    proof {
        lemma_mul_bound(ni as int, pss as int, 1024, 0x8_0000_0000_0000i128 as int);
        lemma_mul_bound(sx as int, sx as int, 0x4000_0000, 0x4000_0000);
        lemma_mul_bound(sy as int, sy as int, 0x4000_0000, 0x4000_0000);
        lemma_mul_bound(ni as int, ni as int, 1024, 1024);
    }
    let nn = ni * pss - sx * sx - sy * sy;
    100 * nn < ni * ni
}

} // verus!
