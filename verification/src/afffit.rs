//! Least-squares affine fitting: the 2n-by-6 design system reduced to its
//! normal equations and solved exactly by Cramer's rule. The two coordinate
//! rows decouple into two 3-by-3 solves that share one Gram matrix.

use vstd::prelude::*;

use crate::fit::{s_dx, s_dy, s_sx, s_sy};
use crate::model::{Affine, PairPt};
use crate::num::lemma_mul_bound;
use crate::FitError;

verus! {

/// Largest coordinate magnitude (in fixed-point units) the exact affine
/// fit accepts; chosen so no intermediate product can leave the machine
/// words.
pub const AFF_COORD_LIMIT: i64 = 0x4_0000;

/// Whether every coordinate of every pair is small enough for the exact
/// affine fit, and there are few enough pairs.
pub open spec fn aff_input_ok(ps: Seq<PairPt>) -> bool {
    &&& ps.len() <= crate::fit::FIT_MAX_PAIRS
    &&& forall|i: int| 0 <= i < ps.len() ==> aff_pair_bounded(#[trigger] ps[i])
}

/// Whether one pair's coordinates are within the exact affine fit's range.
pub open spec fn aff_pair_bounded(p: PairPt) -> bool {
    &&& -AFF_COORD_LIMIT <= p.src.x <= AFF_COORD_LIMIT
    &&& -AFF_COORD_LIMIT <= p.src.y <= AFF_COORD_LIMIT
    &&& -AFF_COORD_LIMIT <= p.dst.x <= AFF_COORD_LIMIT
    &&& -AFF_COORD_LIMIT <= p.dst.y <= AFF_COORD_LIMIT
}

/// Sum of the squared source x coordinates.
pub open spec fn s_xx(ps: Seq<PairPt>) -> int
    decreases ps.len(),
{
    if ps.len() == 0 {
        0
    } else {
        s_xx(ps.drop_last()) + ps.last().src.x * ps.last().src.x
    }
}

/// Sum of the source x*y products.
pub open spec fn s_xy(ps: Seq<PairPt>) -> int
    decreases ps.len(),
{
    if ps.len() == 0 {
        0
    } else {
        s_xy(ps.drop_last()) + ps.last().src.x * ps.last().src.y
    }
}

/// Sum of the squared source y coordinates.
pub open spec fn s_yy(ps: Seq<PairPt>) -> int
    decreases ps.len(),
{
    if ps.len() == 0 {
        0
    } else {
        s_yy(ps.drop_last()) + ps.last().src.y * ps.last().src.y
    }
}

/// Sum of the source-x times destination-x products.
pub open spec fn s_xdx(ps: Seq<PairPt>) -> int
    decreases ps.len(),
{
    if ps.len() == 0 {
        0
    } else {
        s_xdx(ps.drop_last()) + ps.last().src.x * ps.last().dst.x
    }
}

/// Sum of the source-y times destination-x products.
pub open spec fn s_ydx(ps: Seq<PairPt>) -> int
    decreases ps.len(),
{
    if ps.len() == 0 {
        0
    } else {
        s_ydx(ps.drop_last()) + ps.last().src.y * ps.last().dst.x
    }
}

/// Sum of the source-x times destination-y products.
pub open spec fn s_xdy(ps: Seq<PairPt>) -> int
    decreases ps.len(),
{
    if ps.len() == 0 {
        0
    } else {
        s_xdy(ps.drop_last()) + ps.last().src.x * ps.last().dst.y
    }
}

/// Sum of the source-y times destination-y products.
pub open spec fn s_ydy(ps: Seq<PairPt>) -> int
    decreases ps.len(),
{
    if ps.len() == 0 {
        0
    } else {
        s_ydy(ps.drop_last()) + ps.last().src.y * ps.last().dst.y
    }
}

/// Determinant of the symmetric 3-by-3 Gram matrix
/// `[[m11, m12, m13], [m12, m22, m23], [m13, m23, m33]]`.
pub open spec fn det3_sym(m11: int, m12: int, m22: int, m13: int, m23: int, m33: int) -> int {
    m11 * (m22 * m33 - m23 * m23) - m12 * (m12 * m33 - m23 * m13) + m13 * (m12 * m23 - m22
        * m13)
}

/// Cramer numerator for the first unknown: the Gram matrix with its first
/// column replaced by the right-hand side `(u0, u1, u2)`.
pub open spec fn cram1(
    m11: int,
    m12: int,
    m22: int,
    m13: int,
    m23: int,
    m33: int,
    u0: int,
    u1: int,
    u2: int,
) -> int {
    u0 * (m22 * m33 - m23 * m23) - m12 * (u1 * m33 - m23 * u2) + m13 * (u1 * m23 - m22 * u2)
}

/// Cramer numerator for the second unknown.
pub open spec fn cram2(
    m11: int,
    m12: int,
    m22: int,
    m13: int,
    m23: int,
    m33: int,
    u0: int,
    u1: int,
    u2: int,
) -> int {
    m11 * (u1 * m33 - m23 * u2) - u0 * (m12 * m33 - m23 * m13) + m13 * (m12 * u2 - u1 * m13)
}

/// Cramer numerator for the third unknown.
pub open spec fn cram3(
    m11: int,
    m12: int,
    m22: int,
    m13: int,
    m23: int,
    m33: int,
    u0: int,
    u1: int,
    u2: int,
) -> int {
    m11 * (m22 * u2 - u1 * m23) - m12 * (m12 * u2 - u1 * m13) + u0 * (m12 * m23 - m22 * m13)
}

/// Determinant of the normal-equation matrix of the affine fit. Zero
/// exactly when the source points are collinear (the system is singular).
pub open spec fn aff_det3(ps: Seq<PairPt>) -> int {
    det3_sym(s_xx(ps), s_xy(ps), s_yy(ps), s_sx(ps), s_sy(ps), ps.len() as int)
}

/// Numerator of the fitted `a` coefficient, over `aff_det3`.
pub open spec fn aff_a(ps: Seq<PairPt>) -> int {
    cram1(
        s_xx(ps),
        s_xy(ps),
        s_yy(ps),
        s_sx(ps),
        s_sy(ps),
        ps.len() as int,
        s_xdx(ps),
        s_ydx(ps),
        s_dx(ps),
    )
}

/// Numerator of the fitted `b` coefficient, over `aff_det3`.
pub open spec fn aff_b(ps: Seq<PairPt>) -> int {
    cram2(
        s_xx(ps),
        s_xy(ps),
        s_yy(ps),
        s_sx(ps),
        s_sy(ps),
        ps.len() as int,
        s_xdx(ps),
        s_ydx(ps),
        s_dx(ps),
    )
}

/// Numerator of the fitted x translation, over `aff_det3`.
pub open spec fn aff_tx(ps: Seq<PairPt>) -> int {
    cram3(
        s_xx(ps),
        s_xy(ps),
        s_yy(ps),
        s_sx(ps),
        s_sy(ps),
        ps.len() as int,
        s_xdx(ps),
        s_ydx(ps),
        s_dx(ps),
    )
}

/// Numerator of the fitted `c` coefficient, over `aff_det3`.
pub open spec fn aff_c(ps: Seq<PairPt>) -> int {
    cram1(
        s_xx(ps),
        s_xy(ps),
        s_yy(ps),
        s_sx(ps),
        s_sy(ps),
        ps.len() as int,
        s_xdy(ps),
        s_ydy(ps),
        s_dy(ps),
    )
}

/// Numerator of the fitted `d` coefficient, over `aff_det3`.
pub open spec fn aff_d(ps: Seq<PairPt>) -> int {
    cram2(
        s_xx(ps),
        s_xy(ps),
        s_yy(ps),
        s_sx(ps),
        s_sy(ps),
        ps.len() as int,
        s_xdy(ps),
        s_ydy(ps),
        s_dy(ps),
    )
}

/// Numerator of the fitted y translation, over `aff_det3`.
pub open spec fn aff_ty(ps: Seq<PairPt>) -> int {
    cram3(
        s_xx(ps),
        s_xy(ps),
        s_yy(ps),
        s_sx(ps),
        s_sy(ps),
        ps.len() as int,
        s_xdy(ps),
        s_ydy(ps),
        s_dy(ps),
    )
}

/// The exact least-squares affine transform for `ps`, as a rational value.
pub open spec fn aff_result(ps: Seq<PairPt>) -> crate::algebra::AffV {
    crate::algebra::AffV {
        a: aff_a(ps),
        b: aff_b(ps),
        c: aff_c(ps),
        d: aff_d(ps),
        tx: aff_tx(ps),
        ty: aff_ty(ps),
        den: aff_det3(ps),
    }
}

/// Fits a general affine transform to correspondence pairs by least
/// squares: the returned transform is exactly the rational solution of the
/// normal equations of the 2n-by-6 design system. Fails with
/// `InsufficientData` on fewer than 3 pairs and with `DegenerateGeometry`
/// when the system is singular (all source points collinear).
pub fn fit_affine_from_pairs(pairs: &Vec<PairPt>) -> (r: Result<Affine, FitError>)
    requires
        aff_input_ok(pairs@),
    ensures
        r is Ok <==> pairs@.len() >= 3 && aff_det3(pairs@) > 0,
        r matches Ok(t) ==> t.v() == aff_result(pairs@) && t.wf(),
        r == Err::<Affine, FitError>(FitError::InsufficientData) <==> pairs@.len() < 3,
        r == Err::<Affine, FitError>(FitError::DegenerateGeometry) <==> pairs@.len() >= 3
            && aff_det3(pairs@) <= 0,
{
    let n = pairs.len();
    if n < 3 {
        return Err(FitError::InsufficientData);
    }
    let s = aff_sums(pairs);
    let (sxx, sxy, syy, sx, sy) = (s.0, s.1, s.2, s.3, s.4);
    let (uxx, uyx, ux) = (s.5, s.6, s.7);
    let (uxy, uyy, uy) = (s.8, s.9, s.10);
    let ni = n as i128;
    proof {
        lemma_gram_bounds(sxx as int, sxy as int, syy as int, sx as int, sy as int, ni as int);
    }
    let q1 = syy * ni - sy * sy;
    let q2 = sxy * ni - sy * sx;
    let q3 = sxy * sy - syy * sx;
    let det3 = sxx * q1 - sxy * q2 + sx * q3;
    if det3 <= 0 {
        return Err(FitError::DegenerateGeometry);
    }
    let (na, nb, ntx) = cramer_row(sxx, sxy, syy, sx, sy, ni, uxx, uyx, ux);
    let (nc, nd, nty) = cramer_row(sxx, sxy, syy, sx, sy, ni, uxy, uyy, uy);
    Ok(Affine { a: na, b: nb, c: nc, d: nd, tx: ntx, ty: nty, den: det3 })
}

/// Bounds every product in the Gram determinant, given the sum bounds.
proof fn lemma_gram_bounds(sxx: int, sxy: int, syy: int, sx: int, sy: int, ni: int)
    requires
        -0x4000_0000_0000 <= sxx <= 0x4000_0000_0000,
        -0x4000_0000_0000 <= sxy <= 0x4000_0000_0000,
        -0x4000_0000_0000 <= syy <= 0x4000_0000_0000,
        -0x1000_0000 <= sx <= 0x1000_0000,
        -0x1000_0000 <= sy <= 0x1000_0000,
        0 <= ni <= 0x400,
    ensures
        -0x200_0000_0000_0000 <= syy * ni <= 0x200_0000_0000_0000,
        -0x200_0000_0000_0000 <= sxy * ni <= 0x200_0000_0000_0000,
        -0x200_0000_0000_0000 <= sy * sy <= 0x200_0000_0000_0000,
        -0x200_0000_0000_0000 <= sy * sx <= 0x200_0000_0000_0000,
        -0x8000_0000_0000_0000_0000 <= sxy * sy <= 0x8000_0000_0000_0000_0000,
        -0x8000_0000_0000_0000_0000 <= syy * sx <= 0x8000_0000_0000_0000_0000,
        -0x10000000000000000000000000000000 <= sxx * (syy * ni - sy * sy)
            <= 0x10000000000000000000000000000000,
        -0x10000000000000000000000000000000 <= sxy * (sxy * ni - sy * sx)
            <= 0x10000000000000000000000000000000,
        -0x10000000000000000000000000000000 <= sx * (sxy * sy - syy * sx)
            <= 0x10000000000000000000000000000000,
{
    let b46: int = 0x4000_0000_0000;
    let b28: int = 0x1000_0000;
    let b57: int = 0x400_0000_0000_0000;
    let b75: int = 0x8000_0000_0000_0000_0000;
    lemma_mul_bound(syy, ni, b46, 0x400);
    lemma_mul_bound(sxy, ni, b46, 0x400);
    lemma_mul_bound(sy, sy, b28, b28);
    lemma_mul_bound(sy, sx, b28, b28);
    lemma_mul_bound(sxy, sy, b46, b28);
    lemma_mul_bound(syy, sx, b46, b28);
    lemma_mul_bound(sxx, syy * ni - sy * sy, b46, b57);
    lemma_mul_bound(sxy, sxy * ni - sy * sx, b46, b57);
    lemma_mul_bound(sx, sxy * sy - syy * sx, b28, b75);
}

/// Solves one 3-by-3 Cramer row of the affine normal equations exactly.
fn cramer_row(
    sxx: i128,
    sxy: i128,
    syy: i128,
    sx: i128,
    sy: i128,
    ni: i128,
    u0: i128,
    u1: i128,
    u2: i128,
) -> (r: (i128, i128, i128))
    requires
        -0x4000_0000_0000 <= sxx <= 0x4000_0000_0000,
        -0x4000_0000_0000 <= sxy <= 0x4000_0000_0000,
        -0x4000_0000_0000 <= syy <= 0x4000_0000_0000,
        -0x1000_0000 <= sx <= 0x1000_0000,
        -0x1000_0000 <= sy <= 0x1000_0000,
        0 <= ni <= 0x400,
        -0x4000_0000_0000 <= u0 <= 0x4000_0000_0000,
        -0x4000_0000_0000 <= u1 <= 0x4000_0000_0000,
        -0x1000_0000 <= u2 <= 0x1000_0000,
    ensures
        r.0 == cram1(
            sxx as int,
            sxy as int,
            syy as int,
            sx as int,
            sy as int,
            ni as int,
            u0 as int,
            u1 as int,
            u2 as int,
        ),
        r.1 == cram2(
            sxx as int,
            sxy as int,
            syy as int,
            sx as int,
            sy as int,
            ni as int,
            u0 as int,
            u1 as int,
            u2 as int,
        ),
        r.2 == cram3(
            sxx as int,
            sxy as int,
            syy as int,
            sx as int,
            sy as int,
            ni as int,
            u0 as int,
            u1 as int,
            u2 as int,
        ),
{
    proof {
        let b46: int = 0x4000_0000_0000;
        let b28: int = 0x1000_0000;
        let b57: int = 0x400_0000_0000_0000;
        let b75: int = 0x8000_0000_0000_0000_0000;
        lemma_mul_bound(syy as int, ni as int, b46, 0x400);
        lemma_mul_bound(sy as int, sy as int, b28, b28);
        lemma_mul_bound(u1 as int, ni as int, b46, 0x400);
        lemma_mul_bound(sy as int, u2 as int, b28, b28);
        lemma_mul_bound(u1 as int, sy as int, b46, b28);
        lemma_mul_bound(syy as int, u2 as int, b46, b28);
        lemma_mul_bound(u0 as int, syy as int * ni as int - sy as int * sy as int, b46, b57);
        lemma_mul_bound(sxy as int, u1 as int * ni as int - sy as int * u2 as int, b46, b57);
        lemma_mul_bound(sx as int, u1 as int * sy as int - syy as int * u2 as int, b28, b75);
        lemma_mul_bound(sxy as int, ni as int, b46, 0x400);
        lemma_mul_bound(sy as int, sx as int, b28, b28);
        lemma_mul_bound(sxy as int, u2 as int, b46, b28);
        lemma_mul_bound(u1 as int, sx as int, b46, b28);
        lemma_mul_bound(sxx as int, u1 as int * ni as int - sy as int * u2 as int, b46, b57);
        lemma_mul_bound(u0 as int, sxy as int * ni as int - sy as int * sx as int, b46, b57);
        lemma_mul_bound(sx as int, sxy as int * u2 as int - u1 as int * sx as int, b28, b75);
        lemma_mul_bound(syy as int, u2 as int, b46, b28);
        lemma_mul_bound(sxy as int, sy as int, b46, b28);
        lemma_mul_bound(syy as int, sx as int, b46, b28);
        lemma_mul_bound(
            sxx as int,
            syy as int * u2 as int - u1 as int * sy as int,
            b46,
            b75,
        );
        lemma_mul_bound(
            sxy as int,
            sxy as int * u2 as int - u1 as int * sx as int,
            b46,
            b75,
        );
        lemma_mul_bound(
            u0 as int,
            sxy as int * sy as int - syy as int * sx as int,
            b46,
            b75,
        );
    }
    let c1 = u0 * (syy * ni - sy * sy) - sxy * (u1 * ni - sy * u2) + sx * (u1 * sy - syy * u2);
    let c2 = sxx * (u1 * ni - sy * u2) - u0 * (sxy * ni - sy * sx) + sx * (sxy * u2 - u1 * sx);
    let c3 = sxx * (syy * u2 - u1 * sy) - sxy * (sxy * u2 - u1 * sx) + u0 * (sxy * sy - syy
        * sx);
    (c1, c2, c3)
}

/// Computes the eleven coordinate sums of the affine fit over one pass.
fn aff_sums(pairs: &Vec<PairPt>) -> (r: (
    i128,
    i128,
    i128,
    i128,
    i128,
    i128,
    i128,
    i128,
    i128,
    i128,
    i128,
))
    requires
        aff_input_ok(pairs@),
    ensures
        r.0 == s_xx(pairs@) && r.1 == s_xy(pairs@) && r.2 == s_yy(pairs@),
        r.3 == s_sx(pairs@) && r.4 == s_sy(pairs@),
        r.5 == s_xdx(pairs@) && r.6 == s_ydx(pairs@) && r.7 == s_dx(pairs@),
        r.8 == s_xdy(pairs@) && r.9 == s_ydy(pairs@) && r.10 == s_dy(pairs@),
        -0x4000_0000_0000 <= r.0 <= 0x4000_0000_0000,
        -0x4000_0000_0000 <= r.1 <= 0x4000_0000_0000,
        -0x4000_0000_0000 <= r.2 <= 0x4000_0000_0000,
        -0x1000_0000 <= r.3 <= 0x1000_0000,
        -0x1000_0000 <= r.4 <= 0x1000_0000,
        -0x4000_0000_0000 <= r.5 <= 0x4000_0000_0000,
        -0x4000_0000_0000 <= r.6 <= 0x4000_0000_0000,
        -0x1000_0000 <= r.7 <= 0x1000_0000,
        -0x4000_0000_0000 <= r.8 <= 0x4000_0000_0000,
        -0x4000_0000_0000 <= r.9 <= 0x4000_0000_0000,
        -0x1000_0000 <= r.10 <= 0x1000_0000,
{
    let n = pairs.len();
    let mut sxx: i128 = 0;
    let mut sxy: i128 = 0;
    let mut syy: i128 = 0;
    let mut sx: i128 = 0;
    let mut sy: i128 = 0;
    let mut uxx: i128 = 0;
    let mut uyx: i128 = 0;
    let mut ux: i128 = 0;
    let mut uxy: i128 = 0;
    let mut uyy: i128 = 0;
    let mut uy: i128 = 0;
    for i in 0..n
        invariant
            n == pairs@.len(),
            aff_input_ok(pairs@),
            sxx == s_xx(pairs@.take(i as int)),
            sxy == s_xy(pairs@.take(i as int)),
            syy == s_yy(pairs@.take(i as int)),
            sx == s_sx(pairs@.take(i as int)),
            sy == s_sy(pairs@.take(i as int)),
            uxx == s_xdx(pairs@.take(i as int)),
            uyx == s_ydx(pairs@.take(i as int)),
            ux == s_dx(pairs@.take(i as int)),
            uxy == s_xdy(pairs@.take(i as int)),
            uyy == s_ydy(pairs@.take(i as int)),
            uy == s_dy(pairs@.take(i as int)),
            -0x10_0000_0000i128 * i <= sxx <= 0x10_0000_0000i128 * i,
            -0x10_0000_0000i128 * i <= sxy <= 0x10_0000_0000i128 * i,
            -0x10_0000_0000i128 * i <= syy <= 0x10_0000_0000i128 * i,
            -0x4_0000i128 * i <= sx <= 0x4_0000i128 * i,
            -0x4_0000i128 * i <= sy <= 0x4_0000i128 * i,
            -0x10_0000_0000i128 * i <= uxx <= 0x10_0000_0000i128 * i,
            -0x10_0000_0000i128 * i <= uyx <= 0x10_0000_0000i128 * i,
            -0x4_0000i128 * i <= ux <= 0x4_0000i128 * i,
            -0x10_0000_0000i128 * i <= uxy <= 0x10_0000_0000i128 * i,
            -0x10_0000_0000i128 * i <= uyy <= 0x10_0000_0000i128 * i,
            -0x4_0000i128 * i <= uy <= 0x4_0000i128 * i,
    {
        let p = pairs[i];
        let psx = p.src.x as i128;
        let psy = p.src.y as i128;
        let pdx = p.dst.x as i128;
        let pdy = p.dst.y as i128;
        proof {
            assert(pairs@.take(i + 1).drop_last() =~= pairs@.take(i as int));
            assert(pairs@.take(i + 1).last() == pairs@[i as int]);
            let lim: int = 0x4_0000;
            lemma_mul_bound(psx as int, psx as int, lim, lim);
            lemma_mul_bound(psx as int, psy as int, lim, lim);
            lemma_mul_bound(psy as int, psy as int, lim, lim);
            lemma_mul_bound(psx as int, pdx as int, lim, lim);
            lemma_mul_bound(psy as int, pdx as int, lim, lim);
            lemma_mul_bound(psx as int, pdy as int, lim, lim);
            lemma_mul_bound(psy as int, pdy as int, lim, lim);
        }
        sxx = sxx + psx * psx;
        sxy = sxy + psx * psy;
        syy = syy + psy * psy;
        sx = sx + psx;
        sy = sy + psy;
        uxx = uxx + psx * pdx;
        uyx = uyx + psy * pdx;
        ux = ux + pdx;
        uxy = uxy + psx * pdy;
        uyy = uyy + psy * pdy;
        uy = uy + pdy;
    }
    proof {
        assert(pairs@.take(n as int) =~= pairs@);
    }
    (sxx, sxy, syy, sx, sy, uxx, uyx, ux, uxy, uyy, uy)
}

} // verus!
