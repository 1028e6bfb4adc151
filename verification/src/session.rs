//! Session operations: the solve request that ties filtering, fitting,
//! quality metrics and unit conversion together, constraint-list editing,
//! and the discrete parts of the coordinate-suggestion queries.

use vstd::prelude::*;
use vstd::string::StringSliceAdditionalSpecFns;

use crate::afffit::{aff_det3, aff_pair_bounded, aff_result, fit_affine_from_pairs, AFF_COORD_LIMIT};
use crate::algebra::fits_i64;
use crate::filter::{extracted, pairs_from_constraints};
use crate::georef::{pixel_to_world, world_x, world_y, Georef, GEOREF_LIMIT};
use crate::fit::{
    fit_input_ok, fit_nn, fit_result, fit_similarity_from_pairs, pair_bounded, FIT_COORD_LIMIT,
    FIT_MAX_PAIRS,
};
use crate::algebra::Transform;
use crate::model::{
    Affine, ConstraintKind, PairPt, Pt, QualityMetrics, Rat, Similarity, TransformKind,
    TransformStack, Warning,
};
use crate::num::lemma_sq_le;
use crate::quality::{
    is_residual, low_variance, pp_seq, res_ok, res_sq, residuals_by_id, residuals_for,
    summarize_residuals, summary_of, variance_low, MAX_RESIDUAL,
};
use crate::text::str_eq;
use crate::{ErrorUnit, FitError, UNITS_PER_PIXEL};

verus! {

/// Whether the method name selects the similarity fitter.
pub open spec fn is_similarity_method(m: &str) -> bool {
    m.spec_bytes() == "similarity".spec_bytes()
}

/// Whether the method name selects the affine fitter.
pub open spec fn is_affine_method(m: &str) -> bool {
    m.spec_bytes() == "affine".spec_bytes()
}

/// The reporting unit a unit name selects; anything unrecognized means
/// pixels.
pub open spec fn unit_of(u: &str) -> ErrorUnit {
    if u.spec_bytes() == "meters".spec_bytes() {
        ErrorUnit::Meters
    } else if u.spec_bytes() == "mapmm".spec_bytes() {
        ErrorUnit::MapMillimeters
    } else {
        ErrorUnit::Pixels
    }
}

/// Whether every pair's coordinates are within `lim`.
pub open spec fn all_within(ps: Seq<PairPt>, lim: int) -> bool {
    forall|i: int| 0 <= i < ps.len() ==> within(#[trigger] ps[i], lim)
}

/// Whether one pair's coordinates are within `lim`.
pub open spec fn within(p: PairPt, lim: int) -> bool {
    &&& -lim <= p.src.x <= lim
    &&& -lim <= p.src.y <= lim
    &&& -lim <= p.dst.x <= lim
    &&& -lim <= p.dst.y <= lim
}

/// Checks that every pair's coordinates are within `lim`.
fn check_within(pairs: &Vec<PairPt>, lim: i64) -> (r: bool)
    requires
        lim > 0,
    ensures
        r == all_within(pairs@, lim as int),
{
    let n = pairs.len();
    for i in 0..n
        invariant
            n == pairs@.len(),
            0 < lim,
            forall|k: int| 0 <= k < i ==> within(#[trigger] pairs@[k], lim as int),
    {
        let p = pairs[i];
        if p.src.x < -lim || p.src.x > lim || p.src.y < -lim || p.src.y > lim || p.dst.x
            < -lim || p.dst.x > lim || p.dst.y < -lim || p.dst.y > lim {
            return false;
        }
    }
    true
}

/// The option behind an optional georeferencing reference, as a value.
pub open spec fn geo_value(georef: Option<&Georef>) -> Option<Georef> {
    match georef {
        Some(g) => Some(*g),
        None => None,
    }
}

/// The cached world coordinates a point-pair constraint gets at
/// insertion: a value already present is kept; else, with a cached
/// georeferencing, the world image of `dst` under its affine mapping,
/// when that image is representable in fixed point.
pub open spec fn expected_real(dst: Pt, dst_real: Option<Pt>, geo: Option<Georef>) -> Option<
    Pt,
> {
    if dst_real is Some {
        dst_real
    } else {
        match geo {
            Some(g) => {
                if -GEOREF_LIMIT <= dst.x <= GEOREF_LIMIT && -GEOREF_LIMIT <= dst.y
                    <= GEOREF_LIMIT && fits_i64(world_x(g, dst.x as int, dst.y as int))
                    && fits_i64(world_y(g, dst.x as int, dst.y as int)) {
                    Some(
                        Pt {
                            x: world_x(g, dst.x as int, dst.y as int) as i64,
                            y: world_y(g, dst.x as int, dst.y as int) as i64,
                        },
                    )
                } else {
                    None
                }
            },
            None => None,
        }
    }
}

/// Whether `r` is `c` with its point-pair caches filled at insertion:
/// `dst_real` per `expected_real`, and a missing `dst_local` taking the
/// caller-projected local point when a georeferencing is cached. Other
/// variants pass through untouched.
pub open spec fn cached_from(
    r: ConstraintKind,
    c: ConstraintKind,
    geo: Option<Georef>,
    local: Option<Pt>,
) -> bool {
    match c {
        ConstraintKind::PointPair { id, src, dst, dst_real, dst_local, weight } => {
            &&& r matches ConstraintKind::PointPair {
                id: rid,
                src: rsrc,
                dst: rdst,
                dst_real: rreal,
                dst_local: rlocal,
                weight: rweight,
            } && rid == id && rsrc == src && rdst == dst && rweight == weight && rreal
                == expected_real(dst, dst_real, geo) && rlocal == (if dst_local is Some {
                dst_local
            } else if geo is Some {
                local
            } else {
                None
            })
        },
        _ => r == c,
    }
}

/// Fills the insertion-time caches of a point-pair constraint: a missing
/// `dst_real` becomes the world image of `dst` under the cached
/// georeferencing (when representable), and a missing `dst_local` takes
/// the locally-projected point the caller supplies. Values already
/// present, and other constraint variants, are untouched.
pub fn cache_pair_coordinates(
    c: ConstraintKind,
    georef: Option<&Georef>,
    local: Option<Pt>,
) -> (r: ConstraintKind)
    requires
        georef matches Some(g) ==> g.wf(),
    ensures
        cached_from(r, c, geo_value(georef), local),
        r.spec_id() == c.spec_id(),
{
    match c {
        ConstraintKind::PointPair { id, src, dst, dst_real, dst_local, weight } => {
            let new_real = if dst_real.is_some() {
                dst_real
            } else {
                match georef {
                    Some(g) => {
                        if dst.x < -GEOREF_LIMIT || dst.x > GEOREF_LIMIT || dst.y
                            < -GEOREF_LIMIT || dst.y > GEOREF_LIMIT {
                            None
                        } else {
                            let (wx, wy) = pixel_to_world(g, dst.x, dst.y);
                            if wx < i64::MIN as i128 || wx > i64::MAX as i128 || wy
                                < i64::MIN as i128 || wy > i64::MAX as i128 {
                                None
                            } else {
                                Some(Pt { x: wx as i64, y: wy as i64 })
                            }
                        }
                    },
                    None => None,
                }
            };
            let new_local = if dst_local.is_some() {
                dst_local
            } else {
                match georef {
                    Some(_) => local,
                    None => None,
                }
            };
            ConstraintKind::PointPair {
                id,
                src,
                dst,
                dst_real: new_real,
                dst_local: new_local,
                weight,
            }
        },
        other => other,
    }
}

/// Appends a constraint to the session's list, filling a point pair's
/// cached world and local coordinates at insertion.
pub fn add_constraint(
    list: &mut Vec<ConstraintKind>,
    c: ConstraintKind,
    georef: Option<&Georef>,
    local: Option<Pt>,
)
    requires
        georef matches Some(g) ==> g.wf(),
    ensures
        final(list)@.len() == old(list)@.len() + 1,
        final(list)@.drop_last() == old(list)@,
        cached_from(final(list)@.last(), c, geo_value(georef), local),
        final(list)@.last().spec_id() == c.spec_id(),
{
    let cached = cache_pair_coordinates(c, georef, local);
    list.push(cached);
    proof {
        assert(final(list)@.drop_last() =~= old(list)@);
    }
}

/// The constraints whose id differs from `id`, in order.
pub open spec fn without_id(cs: Seq<ConstraintKind>, id: u64) -> Seq<ConstraintKind>
    decreases cs.len(),
{
    if cs.len() == 0 {
        Seq::empty()
    } else {
        let rest = without_id(cs.drop_first(), id);
        if cs.first().spec_id() == id {
            rest
        } else {
            seq![cs.first()] + rest
        }
    }
}

/// Deletes every constraint carrying `id` from the session's list in
/// place, keeping the order of the rest.
#[verifier::loop_isolation(false)]
pub fn delete_constraint(list: &mut Vec<ConstraintKind>, id: u64)
    ensures
        final(list)@ == without_id(old(list)@, id),
{
    let mut i: usize = 0;
    proof {
        assert(list@.take(0) =~= Seq::<ConstraintKind>::empty());
        assert(list@.skip(0) =~= list@);
        assert(Seq::<ConstraintKind>::empty() + without_id(list@, id) =~= without_id(
            list@,
            id,
        ));
    }
    while i < list.len()
        invariant
            i <= list@.len(),
            forall|k: int| 0 <= k < i ==> (#[trigger] list@[k]).spec_id() != id,
            without_id(old(list)@, id) == list@.take(i as int) + without_id(
                list@.skip(i as int),
                id,
            ),
        decreases list@.len() - i,
    {
        if list[i].id() == id {
            let ghost before = list@;
            list.remove(i);
            proof {
                assert(before.skip(i as int).drop_first() =~= list@.skip(i as int));
                assert(before.take(i as int) =~= list@.take(i as int));
            }
        } else {
            proof {
                assert(list@.skip(i as int).drop_first() =~= list@.skip(i + 1));
                assert(list@.take(i + 1) =~= list@.take(i as int) + seq![
                    list@.skip(i as int).first(),
                ]);
                assert(list@.take(i as int) + without_id(list@.skip(i as int), id) =~= list@.take(
                    i + 1,
                ) + without_id(list@.skip(i + 1), id));
            }
            i += 1;
        }
    }
    proof {
        assert(list@.take(i as int) =~= list@);
        assert(list@.skip(i as int) =~= Seq::<ConstraintKind>::empty());
        assert(list@ + Seq::<ConstraintKind>::empty() =~= list@);
    }
}

/// The pixel size the solver converts with: the caller's, or one meter
/// per pixel when no georeferencing is cached.
pub open spec fn actual_ps(pixel_size: Option<Rat>) -> Rat {
    match pixel_size {
        Some(p) => p,
        None => Rat { num: 1, den: 1 },
    }
}

/// The coordinate limit the chosen method's exact fit puts on the pairs.
pub open spec fn method_limit(method: &str) -> int {
    if is_similarity_method(method) {
        FIT_COORD_LIMIT as int
    } else {
        AFF_COORD_LIMIT as int
    }
}

/// Whether the chosen method has enough filtered pairs to fit.
pub open spec fn enough_pairs(method: &str, ps: Seq<PairPt>) -> bool {
    if is_similarity_method(method) {
        ps.len() >= 2
    } else {
        ps.len() >= 3
    }
}

/// Whether the filtered pairs are few and small enough for the chosen
/// method's exact fit.
pub open spec fn solvable_input(method: &str, ps: Seq<PairPt>) -> bool {
    ps.len() <= FIT_MAX_PAIRS && all_within(ps, method_limit(method))
}

/// The chosen method's degenerate-geometry condition: no source variance
/// for the similarity fit, a singular normal-equation system for the
/// affine fit.
pub open spec fn degenerate_for(method: &str, ps: Seq<PairPt>) -> bool {
    if is_similarity_method(method) {
        fit_nn(ps) <= 0
    } else {
        aff_det3(ps) <= 0
    }
}

/// Whether every residual the metrics need is representable under `t`:
/// each filtered pair's residual exists and is small enough for the
/// summary, and each point-pair constraint's raw residual exists.
pub open spec fn residuals_representable<T: Transform>(
    t: T,
    ps: Seq<PairPt>,
    cs: Seq<ConstraintKind>,
) -> bool {
    &&& forall|k: int|
        0 <= k < ps.len() ==> res_ok(&t, #[trigger] ps[k]) && res_sq(&t, ps[k]) < (
        MAX_RESIDUAL + 1) * (MAX_RESIDUAL + 1)
    &&& forall|k: int| 0 <= k < pp_seq(cs).len() ==> res_ok(&t, (#[trigger] pp_seq(cs)[k]).1)
}

/// Whether the metrics report exactly the residuals of `t`: each stored
/// residual is its pair's whole-unit Euclidean error times the factor
/// `fnum / fden` (over the pixel denominator), in the order of the
/// filtered pair list; the root-mean-square and nearest-rank summaries
/// come from that same residual list; and the id-keyed residuals
/// re-score every point-pair constraint in list order.
pub open spec fn metrics_tied<T: Transform>(
    t: T,
    ps: Seq<PairPt>,
    cs: Seq<ConstraintKind>,
    qm: QualityMetrics,
    fnum: int,
    fden: int,
) -> bool {
    &&& qm.residuals@.len() == ps.len()
    &&& forall|k: int|
        0 <= k < ps.len() ==> {
            let v = #[trigger] qm.residuals@[k];
            &&& v.den == (UNITS_PER_PIXEL as int) * fden
            &&& exists|u: int|
                is_residual(&t, ps[k], u) && 0 <= u <= MAX_RESIDUAL && v.num == u * fnum
        }
    &&& qm.rmse.den == (UNITS_PER_PIXEL as int) * fden
    &&& qm.p90_error.den == (UNITS_PER_PIXEL as int) * fden
    &&& exists|raw: Seq<i64>, rm: int, p9: int|
        #![trigger summary_of(raw, rm, p9)]
        {
            &&& raw.len() == ps.len()
            &&& forall|k: int|
                0 <= k < ps.len() ==> is_residual(&t, #[trigger] ps[k], raw[k] as int)
            &&& summary_of(raw, rm, p9)
            &&& qm.rmse.num == rm * fnum
            &&& qm.p90_error.num == p9 * fnum
        }
    &&& qm.residuals_by_id@.len() == pp_seq(cs).len()
    &&& forall|k: int|
        0 <= k < pp_seq(cs).len() ==> {
            let e = #[trigger] qm.residuals_by_id@[k];
            &&& e.0 == pp_seq(cs)[k].0
            &&& e.1.den == (UNITS_PER_PIXEL as int) * fden
            &&& exists|u: int| is_residual(&t, pp_seq(cs)[k].1, u) && e.1.num == u * fnum
        }
}

/// Builds the pixel-unit quality metrics of a fitted transform: the
/// residual of every filtered pair in input order, the summary of that
/// list, and the raw re-scoring of every point-pair constraint. Fails
/// with `OutOfRange` exactly when some needed residual is not
/// representable.
#[verifier::loop_isolation(false)]
fn pixel_metrics<T: Transform>(
    t: &T,
    pairs: &Vec<PairPt>,
    constraints: &Vec<ConstraintKind>,
    warnings: Vec<Warning>,
) -> (r: Result<QualityMetrics, FitError>)
    requires
        t.t_wf(),
        pairs@.len() <= FIT_MAX_PAIRS,
    ensures
        r is Err ==> r == Err::<QualityMetrics, FitError>(FitError::OutOfRange),
        r is Ok <==> residuals_representable(*t, pairs@, constraints@),
        r matches Ok(qm) ==> {
            &&& qm.unit is Pixels
            &&& qm.map_scale is None
            &&& qm.warnings@ == warnings@
            &&& metrics_tied(*t, pairs@, constraints@, qm, 1, 1)
            &&& qm.wf()
        },
{
    let residuals_u = match residuals_for(t, pairs) {
        Ok(v) => v,
        Err(_) => { return Err(FitError::OutOfRange); },
    };
    let n = residuals_u.len();
    for i in 0..n
        invariant
            forall|k: int| 0 <= k < i ==> 0 <= #[trigger] residuals_u@[k] <= MAX_RESIDUAL,
    {
        proof {
            assert(is_residual(t, pairs@[i as int], residuals_u@[i as int] as int));
        }
        if residuals_u[i] > MAX_RESIDUAL {
            proof {
                lemma_sq_le(MAX_RESIDUAL as int + 1, residuals_u@[i as int] as int);
                assert(res_sq(t, pairs@[i as int]) >= (MAX_RESIDUAL + 1) * (MAX_RESIDUAL
                    + 1));
                assert(!residuals_representable(*t, pairs@, constraints@));
            }
            return Err(FitError::OutOfRange);
        }
    }
    proof {
        assert forall|k: int| 0 <= k < pairs@.len() implies res_ok(t, #[trigger] pairs@[k])
            && res_sq(t, pairs@[k]) < (MAX_RESIDUAL + 1) * (MAX_RESIDUAL + 1) by {
            lemma_sq_le(residuals_u@[k] as int + 1, MAX_RESIDUAL as int + 1);
        }
    }
    let by_id_u = match residuals_by_id(t, constraints) {
        Ok(v) => v,
        Err(_) => { return Err(FitError::OutOfRange); },
    };
    let (rmse_u, p90_u, _sorted_u) = summarize_residuals(&residuals_u);
    let mut residuals: Vec<Rat> = Vec::new();
    for i in 0..n
        invariant
            residuals@.len() == i,
            forall|k: int|
                0 <= k < i ==> (#[trigger] residuals@[k]).num == residuals_u@[k] as int
                    && residuals@[k].den == UNITS_PER_PIXEL as int,
    {
        residuals.push(Rat { num: residuals_u[i] as i128, den: UNITS_PER_PIXEL as i128 });
    }
    let mut by_id: Vec<(u64, Rat)> = Vec::new();
    let bn = by_id_u.len();
    for i in 0..bn
        invariant
            by_id@.len() == i,
            forall|k: int|
                0 <= k < i ==> (#[trigger] by_id@[k]).0 == by_id_u@[k].0 && by_id@[k].1.num
                    == by_id_u@[k].1 as int && by_id@[k].1.den == UNITS_PER_PIXEL as int,
    {
        let (id, v) = by_id_u[i];
        by_id.push((id, Rat { num: v as i128, den: UNITS_PER_PIXEL as i128 }));
    }
    let qm = QualityMetrics {
        rmse: Rat { num: rmse_u as i128, den: UNITS_PER_PIXEL as i128 },
        p90_error: Rat { num: p90_u as i128, den: UNITS_PER_PIXEL as i128 },
        residuals,
        residuals_by_id: by_id,
        warnings,
        unit: ErrorUnit::Pixels,
        map_scale: None,
    };
    proof {
        assert forall|k: int|
            0 <= k < pairs@.len() implies {
            let v = #[trigger] qm.residuals@[k];
            &&& v.den == (UNITS_PER_PIXEL as int) * 1
            &&& exists|u: int|
                is_residual(t, pairs@[k], u) && 0 <= u <= MAX_RESIDUAL && v.num == u * 1
        } by {
            let u = residuals_u@[k] as int;
            assert(is_residual(t, pairs@[k], u) && 0 <= u <= MAX_RESIDUAL
                && qm.residuals@[k].num == u * 1);
        }
        assert(summary_of(residuals_u@, rmse_u as int, p90_u as int));
        assert(qm.rmse.num == (rmse_u as int) * 1 && qm.p90_error.num == (p90_u as int) * 1);
        assert forall|k: int|
            0 <= k < pp_seq(constraints@).len() implies {
            let e = #[trigger] qm.residuals_by_id@[k];
            &&& e.0 == pp_seq(constraints@)[k].0
            &&& e.1.den == (UNITS_PER_PIXEL as int) * 1
            &&& exists|u: int| is_residual(t, pp_seq(constraints@)[k].1, u) && e.1.num == u
                * 1
        } by {
            let u = by_id_u@[k].1 as int;
            assert(is_residual(t, pp_seq(constraints@)[k].1, u)
                && qm.residuals_by_id@[k].1.num == u * 1);
        }
        assert(metrics_tied(*t, pairs@, constraints@, qm, 1, 1));
    }
    Ok(qm)
}

/// Rescaling every metric field by one factor carries the residual tie
/// from the pixel factor to the scaled factor.
proof fn lemma_metrics_tied_scaled<T: Transform>(
    t: T,
    ps: Seq<PairPt>,
    cs: Seq<ConstraintKind>,
    qm0: QualityMetrics,
    qm1: QualityMetrics,
    fnum: int,
    fden: int,
)
    requires
        metrics_tied(t, ps, cs, qm0, 1, 1),
        qm1.rmse.num == qm0.rmse.num * fnum,
        qm1.rmse.den == qm0.rmse.den * fden,
        qm1.p90_error.num == qm0.p90_error.num * fnum,
        qm1.p90_error.den == qm0.p90_error.den * fden,
        qm1.residuals@.len() == qm0.residuals@.len(),
        forall|i: int|
            0 <= i < qm0.residuals@.len() ==> (#[trigger] qm1.residuals@[i]).num
                == qm0.residuals@[i].num * fnum && qm1.residuals@[i].den
                == qm0.residuals@[i].den * fden,
        qm1.residuals_by_id@.len() == qm0.residuals_by_id@.len(),
        forall|i: int|
            0 <= i < qm0.residuals_by_id@.len() ==> (#[trigger] qm1.residuals_by_id@[i]).0
                == qm0.residuals_by_id@[i].0 && qm1.residuals_by_id@[i].1.num
                == qm0.residuals_by_id@[i].1.num * fnum && qm1.residuals_by_id@[i].1.den
                == qm0.residuals_by_id@[i].1.den * fden,
    ensures
        metrics_tied(t, ps, cs, qm1, fnum, fden),
{
    assert forall|k: int|
        0 <= k < ps.len() implies {
        let v = #[trigger] qm1.residuals@[k];
        &&& v.den == (UNITS_PER_PIXEL as int) * fden
        &&& exists|u: int|
            is_residual(&t, ps[k], u) && 0 <= u <= MAX_RESIDUAL && v.num == u * fnum
    } by {
        assert(qm0.residuals@[k].den == (UNITS_PER_PIXEL as int) * 1);
        let u = choose|u: int|
            is_residual(&t, ps[k], u) && 0 <= u <= MAX_RESIDUAL && qm0.residuals@[k].num == u
                * 1;
        assert(qm1.residuals@[k].num == (u * 1) * fnum);
        assert((u * 1) * fnum == u * fnum) by (nonlinear_arith);
        assert(((UNITS_PER_PIXEL as int) * 1) * fden == (UNITS_PER_PIXEL as int) * fden)
            by (nonlinear_arith);
    }
    let (raw, rm, p9) = choose|raw: Seq<i64>, rm: int, p9: int|
        #![trigger summary_of(raw, rm, p9)]
        {
            &&& raw.len() == ps.len()
            &&& forall|k: int|
                0 <= k < ps.len() ==> is_residual(&t, #[trigger] ps[k], raw[k] as int)
            &&& summary_of(raw, rm, p9)
            &&& qm0.rmse.num == rm * 1
            &&& qm0.p90_error.num == p9 * 1
        };
    assert(qm1.rmse.num == rm * fnum) by {
        assert(qm1.rmse.num == (rm * 1) * fnum);
        assert((rm * 1) * fnum == rm * fnum) by (nonlinear_arith);
    }
    assert(qm1.p90_error.num == p9 * fnum) by {
        assert(qm1.p90_error.num == (p9 * 1) * fnum);
        assert((p9 * 1) * fnum == p9 * fnum) by (nonlinear_arith);
    }
    assert(qm1.rmse.den == (UNITS_PER_PIXEL as int) * fden) by {
        assert(qm0.rmse.den == (UNITS_PER_PIXEL as int) * 1);
        assert(((UNITS_PER_PIXEL as int) * 1) * fden == (UNITS_PER_PIXEL as int) * fden)
            by (nonlinear_arith);
    }
    assert(qm1.p90_error.den == (UNITS_PER_PIXEL as int) * fden) by {
        assert(qm0.p90_error.den == (UNITS_PER_PIXEL as int) * 1);
        assert(((UNITS_PER_PIXEL as int) * 1) * fden == (UNITS_PER_PIXEL as int) * fden)
            by (nonlinear_arith);
    }
    assert forall|k: int|
        0 <= k < pp_seq(cs).len() implies {
        let e = #[trigger] qm1.residuals_by_id@[k];
        &&& e.0 == pp_seq(cs)[k].0
        &&& e.1.den == (UNITS_PER_PIXEL as int) * fden
        &&& exists|u: int| is_residual(&t, pp_seq(cs)[k].1, u) && e.1.num == u * fnum
    } by {
        assert(qm0.residuals_by_id@[k].1.den == (UNITS_PER_PIXEL as int) * 1);
        let u = choose|u: int|
            is_residual(&t, pp_seq(cs)[k].1, u) && qm0.residuals_by_id@[k].1.num == u * 1;
        assert(qm1.residuals_by_id@[k].1.num == (u * 1) * fnum);
        assert((u * 1) * fnum == u * fnum) by (nonlinear_arith);
        assert(((UNITS_PER_PIXEL as int) * 1) * fden == (UNITS_PER_PIXEL as int) * fden)
            by (nonlinear_arith);
    }
}

/// Fits a transform to the session's constraints and scores it. The
/// method name picks the fitter (`similarity` or `affine`, anything else
/// is `UnsupportedMethod`); the unit name picks the reporting unit
/// (pixels unless it is `meters` or `mapmm`). The filtered pair list
/// feeds the fitter; the metrics carry every pair's residual in input
/// order, the root-mean-square and nearest-rank 90th-percentile
/// summaries of that list, and the raw re-scoring of every point-pair
/// constraint, all scaled to the requested unit; the low-variance
/// warning fires exactly when the pooled source variance is below the
/// stability threshold, whatever the fit outcome would have been.
/// `pixel_size` is the ground size of one reference pixel, from the
/// cached georeferencing; without one, metric conversion uses 1.
#[verifier::loop_isolation(false)]
pub fn solve_global(
    constraints: &Vec<ConstraintKind>,
    method: &str,
    error_unit: &str,
    map_scale: Option<u64>,
    pixel_size: Option<Rat>,
) -> (r: Result<(TransformStack, QualityMetrics), FitError>)
    requires
        pixel_size matches Some(p) ==> p.wf() && p.num > 0,
        map_scale matches Some(s) ==> s > 0,
    ensures
        r == Err::<(TransformStack, QualityMetrics), FitError>(FitError::UnsupportedMethod)
            <==> !is_similarity_method(method) && !is_affine_method(method),
        r == Err::<(TransformStack, QualityMetrics), FitError>(FitError::InsufficientData)
            <==> (is_similarity_method(method) && extracted(constraints@).len() < 2) || (
        !is_similarity_method(method) && is_affine_method(method) && extracted(
            constraints@,
        ).len() < 3),
        r == Err::<(TransformStack, QualityMetrics), FitError>(FitError::DegenerateGeometry)
            <==> (is_similarity_method(method) || is_affine_method(method)) && enough_pairs(
            method,
            extracted(constraints@),
        ) && solvable_input(method, extracted(constraints@)) && degenerate_for(
            method,
            extracted(constraints@),
        ),
        ({
            let ps = extracted(constraints@);
            &&& is_similarity_method(method)
            &&& ps.len() >= 2
            &&& solvable_input(method, ps)
            &&& fit_nn(ps) > 0
            &&& unit_of(error_unit) is Pixels
            &&& forall|t: Similarity|
                #![trigger t.v()]
                t.wf() && t.v() == fit_result(ps) ==> residuals_representable(
                    t,
                    ps,
                    constraints@,
                )
        }) ==> r is Ok,
        ({
            let ps = extracted(constraints@);
            &&& !is_similarity_method(method)
            &&& is_affine_method(method)
            &&& ps.len() >= 3
            &&& solvable_input(method, ps)
            &&& aff_det3(ps) > 0
            &&& unit_of(error_unit) is Pixels
            &&& forall|t: Affine|
                #![trigger t.v()]
                t.wf() && t.v() == aff_result(ps) ==> residuals_representable(
                    t,
                    ps,
                    constraints@,
                )
        }) ==> r is Ok,
        r matches Ok((stack, qm)) ==> {
            let ps = extracted(constraints@);
            let fnum = crate::units::factor_num(
                ErrorUnit::Pixels,
                unit_of(error_unit),
                actual_ps(pixel_size),
                map_scale,
            );
            let fden = crate::units::factor_den(
                ErrorUnit::Pixels,
                unit_of(error_unit),
                actual_ps(pixel_size),
                map_scale,
            );
            &&& stack.transforms@.len() == 1
            &&& is_similarity_method(method) ==> (stack.transforms@[0] matches
                TransformKind::Similarity(t) && t.v() == fit_result(ps) && t.wf()
                && metrics_tied(t, ps, constraints@, qm, fnum, fden))
            &&& !is_similarity_method(method) && is_affine_method(method) ==> (
            stack.transforms@[0] matches TransformKind::Affine(t) && t.v() == aff_result(ps)
                && t.wf() && metrics_tied(t, ps, constraints@, qm, fnum, fden))
            &&& qm.warnings@.contains(Warning::LowSourceVariance) <==> low_variance(ps)
            &&& qm.unit == unit_of(error_unit)
            &&& qm.residuals@.len() == ps.len()
            &&& unit_of(error_unit) is Pixels ==> qm.map_scale == map_scale
            &&& unit_of(error_unit) is MapMillimeters ==> qm.map_scale == map_scale
            &&& unit_of(error_unit) is Meters ==> qm.map_scale is None
            &&& qm.wf()
        },
{
    let pairs = pairs_from_constraints(constraints);
    let sim = str_eq(method, "similarity");
    let aff = str_eq(method, "affine");
    if !sim && !aff {
        return Err(FitError::UnsupportedMethod);
    }
    if sim && pairs.len() < 2 {
        return Err(FitError::InsufficientData);
    }
    if !sim && aff && pairs.len() < 3 {
        return Err(FitError::InsufficientData);
    }
    if pairs.len() > FIT_MAX_PAIRS {
        return Err(FitError::OutOfRange);
    }
    if sim {
        if !check_within(&pairs, FIT_COORD_LIMIT) {
            return Err(FitError::OutOfRange);
        }
    } else {
        if !check_within(&pairs, AFF_COORD_LIMIT) {
            return Err(FitError::OutOfRange);
        }
    }
    proof {
        assert(forall|i: int| 0 <= i < pairs@.len() ==> pair_bounded(#[trigger] pairs@[i]));
        assert(fit_input_ok(pairs@));
        assert(solvable_input(method, pairs@));
    }
    let mut warnings: Vec<Warning> = Vec::new();
    if variance_low(&pairs) {
        warnings.push(Warning::LowSourceVariance);
        proof {
            assert(warnings@[0] == Warning::LowSourceVariance);
        }
    } else {
        proof {
            assert(forall|i: int| 0 <= i < warnings@.len() ==> warnings@[i]
                != Warning::LowSourceVariance);
        }
    }
    proof {
        assert(warnings@.contains(Warning::LowSourceVariance) <==> low_variance(pairs@));
    }
    let ghost warn0 = warnings@;
    let target = if str_eq(error_unit, "meters") {
        ErrorUnit::Meters
    } else if str_eq(error_unit, "mapmm") {
        ErrorUnit::MapMillimeters
    } else {
        ErrorUnit::Pixels
    };
    proof {
        assert(target == unit_of(error_unit));
    }
    let ps_rat = match pixel_size {
        Some(p) => p,
        None => Rat::from_int(1),
    };
    proof {
        assert(ps_rat == actual_ps(pixel_size));
    }
    if sim {
        let t = match fit_similarity_from_pairs(&pairs) {
            Ok(t) => t,
            Err(e) => {
                proof {
                    assert(e == FitError::DegenerateGeometry);
                }
                return Err(e);
            },
        };
        let mut qm = match pixel_metrics(&t, &pairs, constraints, warnings) {
            Ok(q) => q,
            Err(_) => { return Err(FitError::OutOfRange); },
        };
        if matches!(target, ErrorUnit::Pixels) {
            qm.map_scale = map_scale;
            proof {
                assert(metrics_tied(t, pairs@, constraints@, qm, 1, 1));
            }
        } else {
            let ghost qm0 = qm;
            match qm.convert_units(ps_rat, map_scale, target) {
                Ok(()) => {
                    proof {
                        lemma_metrics_tied_scaled(
                            t,
                            pairs@,
                            constraints@,
                            qm0,
                            qm,
                            crate::units::factor_num(
                                ErrorUnit::Pixels,
                                target,
                                ps_rat,
                                map_scale,
                            ),
                            crate::units::factor_den(
                                ErrorUnit::Pixels,
                                target,
                                ps_rat,
                                map_scale,
                            ),
                        );
                        assert(qm.warnings@ =~= warn0);
                    }
                },
                Err(_) => { return Err(FitError::OutOfRange); },
            }
        }
        let stack = TransformStack { transforms: vec![TransformKind::Similarity(t)] };
        Ok((stack, qm))
    } else {
        let t = match fit_affine_from_pairs(&pairs) {
            Ok(t) => t,
            Err(e) => {
                proof {
                    assert(e == FitError::DegenerateGeometry);
                }
                return Err(e);
            },
        };
        let mut qm = match pixel_metrics(&t, &pairs, constraints, warnings) {
            Ok(q) => q,
            Err(_) => { return Err(FitError::OutOfRange); },
        };
        if matches!(target, ErrorUnit::Pixels) {
            qm.map_scale = map_scale;
            proof {
                assert(metrics_tied(t, pairs@, constraints@, qm, 1, 1));
            }
        } else {
            let ghost qm0 = qm;
            match qm.convert_units(ps_rat, map_scale, target) {
                Ok(()) => {
                    proof {
                        lemma_metrics_tied_scaled(
                            t,
                            pairs@,
                            constraints@,
                            qm0,
                            qm,
                            crate::units::factor_num(
                                ErrorUnit::Pixels,
                                target,
                                ps_rat,
                                map_scale,
                            ),
                            crate::units::factor_den(
                                ErrorUnit::Pixels,
                                target,
                                ps_rat,
                                map_scale,
                            ),
                        );
                        assert(qm.warnings@ =~= warn0);
                    }
                },
                Err(_) => { return Err(FitError::OutOfRange); },
            }
        }
        let stack = TransformStack { transforms: vec![TransformKind::Affine(t)] };
        Ok((stack, qm))
    }
}

/// The Universal Transverse Mercator zone that contains a longitude, from
/// its fixed-point value in degrees: `floor((lon + 180) / 6)` clamped to
/// the zone range 1 to 60.
pub fn utm_zone(lon: i64) -> (r: u8)
    requires
        -180 * UNITS_PER_PIXEL <= lon <= 180 * UNITS_PER_PIXEL,
    ensures
        r as int == {
            let z = (lon + 180 * (UNITS_PER_PIXEL as int)) / (6 * (UNITS_PER_PIXEL as int));
            if z < 1 {
                1int
            } else if z > 60 {
                60int
            } else {
                z
            }
        },
{
    let shifted = lon + 180 * UNITS_PER_PIXEL;
    let z = shifted / (6 * UNITS_PER_PIXEL);
    if z < 1 {
        1
    } else if z > 60 {
        60
    } else {
        proof {
            vstd::arithmetic::div_mod::lemma_div_pos_is_pos(shifted as int, 600);
        }
        z as u8
    }
}

/// The discrete part of the output-reference suggestion: the UTM zone of
/// a geodetic location and whether it lies in the northern hemisphere.
pub fn suggest_utm(lon: i64, lat: i64) -> (r: (u8, bool))
    requires
        -180 * UNITS_PER_PIXEL <= lon <= 180 * UNITS_PER_PIXEL,
    ensures
        r.0 as int == {
            let z = (lon + 180 * (UNITS_PER_PIXEL as int)) / (6 * (UNITS_PER_PIXEL as int));
            if z < 1 {
                1int
            } else if z > 60 {
                60int
            } else {
                z
            }
        },
        r.1 == (lat >= 0),
{
    (utm_zone(lon), lat >= 0)
}

} // verus!
