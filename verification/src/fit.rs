//! Least-squares transform fitting: the closed-form similarity fit in the
//! Procrustes form, computed exactly over integers.

use vstd::prelude::*;

use crate::model::{PairPt, Similarity};
use crate::num::lemma_mul_bound;
use crate::FitError;

verus! {

/// Largest coordinate magnitude (in fixed-point units) the exact fit
/// accepts; chosen so no intermediate product can leave the machine words.
pub const FIT_COORD_LIMIT: i64 = 0x10_0000;

/// Largest number of pairs the exact fit accepts; chosen so no
/// intermediate sum can leave the machine words.
pub const FIT_MAX_PAIRS: usize = 1024;

/// Whether every coordinate of every pair is small enough for the exact
/// fit, and there are few enough pairs.
pub open spec fn fit_input_ok(ps: Seq<PairPt>) -> bool {
    &&& ps.len() <= FIT_MAX_PAIRS
    &&& forall|i: int| 0 <= i < ps.len() ==> pair_bounded(#[trigger] ps[i])
}

/// Whether one pair's coordinates are within the exact fit's range.
pub open spec fn pair_bounded(p: PairPt) -> bool {
    &&& -FIT_COORD_LIMIT <= p.src.x <= FIT_COORD_LIMIT
    &&& -FIT_COORD_LIMIT <= p.src.y <= FIT_COORD_LIMIT
    &&& -FIT_COORD_LIMIT <= p.dst.x <= FIT_COORD_LIMIT
    &&& -FIT_COORD_LIMIT <= p.dst.y <= FIT_COORD_LIMIT
}

/// Sum of the source x coordinates.
pub open spec fn s_sx(ps: Seq<PairPt>) -> int
    decreases ps.len(),
{
    if ps.len() == 0 {
        0
    } else {
        s_sx(ps.drop_last()) + ps.last().src.x
    }
}

/// Sum of the source y coordinates.
pub open spec fn s_sy(ps: Seq<PairPt>) -> int
    decreases ps.len(),
{
    if ps.len() == 0 {
        0
    } else {
        s_sy(ps.drop_last()) + ps.last().src.y
    }
}

/// Sum of the destination x coordinates.
pub open spec fn s_dx(ps: Seq<PairPt>) -> int
    decreases ps.len(),
{
    if ps.len() == 0 {
        0
    } else {
        s_dx(ps.drop_last()) + ps.last().dst.x
    }
}

/// Sum of the destination y coordinates.
pub open spec fn s_dy(ps: Seq<PairPt>) -> int
    decreases ps.len(),
{
    if ps.len() == 0 {
        0
    } else {
        s_dy(ps.drop_last()) + ps.last().dst.y
    }
}

/// Sum of the squared source norms.
pub open spec fn s_ss(ps: Seq<PairPt>) -> int
    decreases ps.len(),
{
    if ps.len() == 0 {
        0
    } else {
        s_ss(ps.drop_last()) + ps.last().src.x * ps.last().src.x + ps.last().src.y
            * ps.last().src.y
    }
}

/// Sum of the source/destination dot products.
pub open spec fn s_sd(ps: Seq<PairPt>) -> int
    decreases ps.len(),
{
    if ps.len() == 0 {
        0
    } else {
        s_sd(ps.drop_last()) + ps.last().src.x * ps.last().dst.x + ps.last().src.y
            * ps.last().dst.y
    }
}

/// Sum of the source/destination cross products.
pub open spec fn s_cr(ps: Seq<PairPt>) -> int
    decreases ps.len(),
{
    if ps.len() == 0 {
        0
    } else {
        s_cr(ps.drop_last()) + ps.last().src.x * ps.last().dst.y - ps.last().src.y
            * ps.last().dst.x
    }
}

/// `n` times the centered source variance sum: the denominator of the
/// closed-form similarity fit. Zero exactly when all source points
/// coincide.
pub open spec fn fit_nn(ps: Seq<PairPt>) -> int {
    ps.len() * s_ss(ps) - s_sx(ps) * s_sx(ps) - s_sy(ps) * s_sy(ps)
}

/// `n` times the centered dot-product sum: `fit_aa / fit_nn` is
/// `scale * cos(theta)`.
pub open spec fn fit_aa(ps: Seq<PairPt>) -> int {
    ps.len() * s_sd(ps) - s_sx(ps) * s_dx(ps) - s_sy(ps) * s_dy(ps)
}

/// `n` times the centered cross-product sum: `fit_bb / fit_nn` is
/// `scale * sin(theta)`.
pub open spec fn fit_bb(ps: Seq<PairPt>) -> int {
    ps.len() * s_cr(ps) - (s_sx(ps) * s_dy(ps) - s_sy(ps) * s_dx(ps))
}

/// Numerator of the fitted x translation, over `fit_den`.
pub open spec fn fit_tx(ps: Seq<PairPt>) -> int {
    s_dx(ps) * fit_nn(ps) - fit_aa(ps) * s_sx(ps) + fit_bb(ps) * s_sy(ps)
}

/// Numerator of the fitted y translation, over `fit_den`.
pub open spec fn fit_ty(ps: Seq<PairPt>) -> int {
    s_dy(ps) * fit_nn(ps) - fit_bb(ps) * s_sx(ps) - fit_aa(ps) * s_sy(ps)
}

/// Common denominator of the fitted similarity.
pub open spec fn fit_den(ps: Seq<PairPt>) -> int {
    ps.len() * fit_nn(ps)
}

/// The exact closed-form least-squares similarity for `ps`, as a rational
/// transform: `a / den` is `scale * cos(theta)`, `b / den` is
/// `scale * sin(theta)`, and `(tx, ty) / den` is the translation.
pub open spec fn fit_result(ps: Seq<PairPt>) -> crate::algebra::SimV {
    crate::algebra::SimV {
        a: ps.len() * fit_aa(ps),
        b: ps.len() * fit_bb(ps),
        tx: fit_tx(ps),
        ty: fit_ty(ps),
        den: fit_den(ps),
    }
}

/// Fits a similarity transform to correspondence pairs by least squares,
/// in the closed Procrustes form: the returned transform is exactly the
/// rational `fit_result` of the input. Fails with `InsufficientData` on
/// fewer than 2 pairs and with `DegenerateGeometry` when the source points
/// carry no variance (they all coincide).
pub fn fit_similarity_from_pairs(pairs: &Vec<PairPt>) -> (r: Result<Similarity, FitError>)
    requires
        fit_input_ok(pairs@),
    ensures
        r is Ok <==> pairs@.len() >= 2 && fit_nn(pairs@) > 0,
        r matches Ok(t) ==> t.v() == fit_result(pairs@) && t.wf(),
        r == Err::<Similarity, FitError>(FitError::InsufficientData) <==> pairs@.len() < 2,
        r == Err::<Similarity, FitError>(FitError::DegenerateGeometry) <==> pairs@.len() >= 2
            && fit_nn(pairs@) <= 0,
{
    let n = pairs.len();
    if n < 2 {
        return Err(FitError::InsufficientData);
    }
    let (sx, sy, dx, dy, pss, psd, pcr) = fit_sums(pairs);
    let ni = n as i128;
    proof {
        lemma_mul_bound(ni as int, pss as int, 1024, 0x8_0000_0000_0000i128 as int);
        lemma_mul_bound(sx as int, sx as int, 0x4000_0000, 0x4000_0000);
        lemma_mul_bound(sy as int, sy as int, 0x4000_0000, 0x4000_0000);
        lemma_mul_bound(ni as int, psd as int, 1024, 0x8_0000_0000_0000i128 as int);
        lemma_mul_bound(sx as int, dx as int, 0x4000_0000, 0x4000_0000);
        lemma_mul_bound(sy as int, dy as int, 0x4000_0000, 0x4000_0000);
        lemma_mul_bound(ni as int, pcr as int, 1024, 0x8_0000_0000_0000i128 as int);
        lemma_mul_bound(sx as int, dy as int, 0x4000_0000, 0x4000_0000);
        lemma_mul_bound(sy as int, dx as int, 0x4000_0000, 0x4000_0000);
    }
    let nn = ni * pss - sx * sx - sy * sy;
    let aa = ni * psd - sx * dx - sy * dy;
    let bb = ni * pcr - (sx * dy - sy * dx);
    if nn <= 0 {
        return Err(FitError::DegenerateGeometry);
    }
    proof {
        let b62: int = 0x4000_0000_0000_0000i128 as int;
        lemma_mul_bound(ni as int, aa as int, 1024, b62);
        lemma_mul_bound(ni as int, bb as int, 1024, b62);
        lemma_mul_bound(ni as int, nn as int, 1024, b62);
        lemma_mul_bound(dx as int, nn as int, 0x4000_0000, b62);
        lemma_mul_bound(aa as int, sx as int, b62, 0x4000_0000);
        lemma_mul_bound(bb as int, sy as int, b62, 0x4000_0000);
        lemma_mul_bound(dy as int, nn as int, 0x4000_0000, b62);
        lemma_mul_bound(bb as int, sx as int, b62, 0x4000_0000);
        lemma_mul_bound(aa as int, sy as int, b62, 0x4000_0000);
        assert(ni as int * nn as int > 0) by (nonlinear_arith)
            requires
                ni as int >= 2,
                nn as int > 0,
        ;
    }
    let t = Similarity {
        a: ni * aa,
        b: ni * bb,
        tx: dx * nn - aa * sx + bb * sy,
        ty: dy * nn - bb * sx - aa * sy,
        den: ni * nn,
    };
    Ok(t)
}

/// Identity recovery: when every pair's destination equals its source, the
/// fitted similarity is exactly the identity transform (unit scale, zero
/// angle, zero translation), in rational form.
pub proof fn lemma_identity_pairs_fit_identity(ps: Seq<PairPt>)
    requires
        forall|i: int| 0 <= i < ps.len() ==> (#[trigger] ps[i]).dst == ps[i].src,
    ensures
        fit_aa(ps) == fit_nn(ps),
        fit_bb(ps) == 0,
        fit_tx(ps) == 0,
        fit_ty(ps) == 0,
        crate::algebra::sim_is_identity(fit_result(ps)),
{
    lemma_identity_pair_sums(ps);
    assert(s_sx(ps) * s_sy(ps) == s_sy(ps) * s_sx(ps)) by (nonlinear_arith);
    assert(fit_tx(ps) == 0) by {
        assert(s_dx(ps) * fit_nn(ps) == fit_aa(ps) * s_sx(ps)) by (nonlinear_arith)
            requires
                s_dx(ps) == s_sx(ps),
                fit_aa(ps) == fit_nn(ps),
        ;
        assert(fit_bb(ps) * s_sy(ps) == 0) by (nonlinear_arith)
            requires
                fit_bb(ps) == 0,
        ;
    }
    assert(fit_ty(ps) == 0) by {
        assert(s_dy(ps) * fit_nn(ps) == fit_aa(ps) * s_sy(ps)) by (nonlinear_arith)
            requires
                s_dy(ps) == s_sy(ps),
                fit_aa(ps) == fit_nn(ps),
        ;
        assert(fit_bb(ps) * s_sx(ps) == 0) by (nonlinear_arith)
            requires
                fit_bb(ps) == 0,
        ;
    }
    assert(ps.len() * fit_bb(ps) == 0) by (nonlinear_arith)
        requires
            fit_bb(ps) == 0,
    ;
}

/// When destinations equal sources, the destination sums collapse onto the
/// source sums and the cross sum vanishes.
proof fn lemma_identity_pair_sums(ps: Seq<PairPt>)
    requires
        forall|i: int| 0 <= i < ps.len() ==> (#[trigger] ps[i]).dst == ps[i].src,
    ensures
        s_dx(ps) == s_sx(ps),
        s_dy(ps) == s_sy(ps),
        s_sd(ps) == s_ss(ps),
        s_cr(ps) == 0,
    decreases ps.len(),
{
    if ps.len() > 0 {
        lemma_identity_pair_sums(ps.drop_last());
        assert(ps.last().src.x * ps.last().src.y - ps.last().src.y * ps.last().src.x == 0)
            by (nonlinear_arith);
    }
}

/// Computes the seven coordinate sums of the fit over one pass.
pub(crate) fn fit_sums(pairs: &Vec<PairPt>) -> (r: (i128, i128, i128, i128, i128, i128, i128))
    requires
        fit_input_ok(pairs@),
    ensures
        r.0 == s_sx(pairs@) && r.1 == s_sy(pairs@) && r.2 == s_dx(pairs@) && r.3 == s_dy(
            pairs@,
        ),
        r.4 == s_ss(pairs@) && r.5 == s_sd(pairs@) && r.6 == s_cr(pairs@),
        -0x4000_0000 <= r.0 <= 0x4000_0000,
        -0x4000_0000 <= r.1 <= 0x4000_0000,
        -0x4000_0000 <= r.2 <= 0x4000_0000,
        -0x4000_0000 <= r.3 <= 0x4000_0000,
        -0x8_0000_0000_0000i128 <= r.4 <= 0x8_0000_0000_0000i128,
        -0x8_0000_0000_0000i128 <= r.5 <= 0x8_0000_0000_0000i128,
        -0x8_0000_0000_0000i128 <= r.6 <= 0x8_0000_0000_0000i128,
{
    let n = pairs.len();
    let mut sx: i128 = 0;
    let mut sy: i128 = 0;
    let mut dx: i128 = 0;
    let mut dy: i128 = 0;
    let mut pss: i128 = 0;
    let mut psd: i128 = 0;
    let mut pcr: i128 = 0;
    for i in 0..n
        invariant
            n == pairs@.len(),
            fit_input_ok(pairs@),
            sx == s_sx(pairs@.take(i as int)),
            sy == s_sy(pairs@.take(i as int)),
            dx == s_dx(pairs@.take(i as int)),
            dy == s_dy(pairs@.take(i as int)),
            pss == s_ss(pairs@.take(i as int)),
            psd == s_sd(pairs@.take(i as int)),
            pcr == s_cr(pairs@.take(i as int)),
            -0x10_0000i128 * i <= sx <= 0x10_0000i128 * i,
            -0x10_0000i128 * i <= sy <= 0x10_0000i128 * i,
            -0x10_0000i128 * i <= dx <= 0x10_0000i128 * i,
            -0x10_0000i128 * i <= dy <= 0x10_0000i128 * i,
            -0x200_0000_0000i128 * i <= pss <= 0x200_0000_0000i128 * i,
            -0x200_0000_0000i128 * i <= psd <= 0x200_0000_0000i128 * i,
            -0x200_0000_0000i128 * i <= pcr <= 0x200_0000_0000i128 * i,
    {
        let p = pairs[i];
        let psx = p.src.x as i128;
        let psy = p.src.y as i128;
        let pdx = p.dst.x as i128;
        let pdy = p.dst.y as i128;
        proof {
            assert(pairs@.take(i + 1).drop_last() =~= pairs@.take(i as int));
            assert(pairs@.take(i + 1).last() == pairs@[i as int]);
            let lim: int = 0x10_0000;
            lemma_mul_bound(psx as int, psx as int, lim, lim);
            lemma_mul_bound(psy as int, psy as int, lim, lim);
            lemma_mul_bound(psx as int, pdx as int, lim, lim);
            lemma_mul_bound(psy as int, pdy as int, lim, lim);
            lemma_mul_bound(psx as int, pdy as int, lim, lim);
            lemma_mul_bound(psy as int, pdx as int, lim, lim);
        }
        sx = sx + psx;
        sy = sy + psy;
        dx = dx + pdx;
        dy = dy + pdy;
        pss = pss + psx * psx + psy * psy;
        psd = psd + psx * pdx + psy * pdy;
        pcr = pcr + psx * pdy - psy * pdx;
    }
    proof {
        assert(pairs@.take(n as int) =~= pairs@);
    }
    (sx, sy, dx, dy, pss, psd, pcr)
}

} // verus!
