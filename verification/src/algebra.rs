//! Transform algebra: application, inversion and composition of similarity
//! and affine transforms over exact rational coefficients.

use vstd::prelude::*;

use crate::model::{Affine, Pt, Similarity};

verus! {

/// Truncating division (round toward zero), defined for a positive divisor.
pub open spec fn tdiv(a: int, b: int) -> int
    recommends
        b > 0,
{
    if a >= 0 {
        a / b
    } else {
        -((-a) / b)
    }
}

/// Whether a mathematical integer fits in the machine word used for
/// transform coefficients.
pub open spec fn fits_i128(v: int) -> bool {
    i128::MIN <= v <= i128::MAX
}

/// Whether a mathematical integer fits in a fixed-point coordinate.
pub open spec fn fits_i64(v: int) -> bool {
    i64::MIN <= v <= i64::MAX
}

/// Truncating division on machine words; total for a positive divisor.
pub fn tdiv_i128(a: i128, b: i128) -> (r: i128)
    requires
        b > 0,
    ensures
        r == tdiv(a as int, b as int),
{
    let q = a.checked_div(b);
    match q {
        Some(v) => v,
        None => {
            proof {
                if a >= 0 {
                    vstd::arithmetic::div_mod::lemma_div_nonincreasing(a as int, b as int);
                    vstd::arithmetic::div_mod::lemma_div_pos_is_pos(a as int, b as int);
                } else {
                    vstd::arithmetic::div_mod::lemma_div_nonincreasing(-(a as int), b as int);
                    vstd::arithmetic::div_mod::lemma_div_pos_is_pos(-(a as int), b as int);
                }
                assert(false);
            }
            0
        },
    }
}

/// The mathematical (unbounded) value of a similarity: the transform that
/// sends `p` to `M p + t` with `M = [[a, -b], [b, a]] / den` and
/// `t = (tx, ty) / den`.
pub ghost struct SimV {
    pub a: int,
    pub b: int,
    pub tx: int,
    pub ty: int,
    pub den: int,
}

impl Similarity {
    /// The mathematical value of this similarity.
    pub open spec fn v(self) -> SimV {
        SimV {
            a: self.a as int,
            b: self.b as int,
            tx: self.tx as int,
            ty: self.ty as int,
            den: self.den as int,
        }
    }
}

/// The mathematical value of an affine transform: the transform that sends
/// `p` to `M p + t` with `M = [[a, b], [c, d]] / den` and `t = (tx, ty) / den`.
pub ghost struct AffV {
    pub a: int,
    pub b: int,
    pub c: int,
    pub d: int,
    pub tx: int,
    pub ty: int,
    pub den: int,
}

impl Affine {
    /// The mathematical value of this affine transform.
    pub open spec fn v(self) -> AffV {
        AffV {
            a: self.a as int,
            b: self.b as int,
            c: self.c as int,
            d: self.d as int,
            tx: self.tx as int,
            ty: self.ty as int,
            den: self.den as int,
        }
    }
}

/// Numerator of the x coordinate of a similarity image, over `s.den`.
pub open spec fn sim_nx(s: SimV, x: int, y: int) -> int {
    s.a * x - s.b * y + s.tx
}

/// Numerator of the y coordinate of a similarity image, over `s.den`.
pub open spec fn sim_ny(s: SimV, x: int, y: int) -> int {
    s.b * x + s.a * y + s.ty
}

/// The x coordinate of the image of `(x, y)`, truncated to whole units.
pub open spec fn sim_app_x(s: SimV, x: int, y: int) -> int {
    tdiv(sim_nx(s, x, y), s.den)
}

/// The y coordinate of the image of `(x, y)`, truncated to whole units.
pub open spec fn sim_app_y(s: SimV, x: int, y: int) -> int {
    tdiv(sim_ny(s, x, y), s.den)
}

/// Whether every intermediate of the similarity application fits the
/// machine words, in the order the computation performs them.
pub open spec fn sim_app_fits(s: SimV, x: int, y: int) -> bool {
    &&& fits_i128(s.a * x)
    &&& fits_i128(s.b * y)
    &&& fits_i128(s.a * x - s.b * y)
    &&& fits_i128(sim_nx(s, x, y))
    &&& fits_i128(s.b * x)
    &&& fits_i128(s.a * y)
    &&& fits_i128(s.b * x + s.a * y)
    &&& fits_i128(sim_ny(s, x, y))
    &&& fits_i64(sim_app_x(s, x, y))
    &&& fits_i64(sim_app_y(s, x, y))
}

/// Numerator of the x coordinate of an affine image, over `t.den`.
pub open spec fn aff_nx(t: AffV, x: int, y: int) -> int {
    t.a * x + t.b * y + t.tx
}

/// Numerator of the y coordinate of an affine image, over `t.den`.
pub open spec fn aff_ny(t: AffV, x: int, y: int) -> int {
    t.c * x + t.d * y + t.ty
}

/// The x coordinate of the affine image of `(x, y)`, truncated to units.
pub open spec fn aff_app_x(t: AffV, x: int, y: int) -> int {
    tdiv(aff_nx(t, x, y), t.den)
}

/// The y coordinate of the affine image of `(x, y)`, truncated to units.
pub open spec fn aff_app_y(t: AffV, x: int, y: int) -> int {
    tdiv(aff_ny(t, x, y), t.den)
}

/// Whether every intermediate of the affine application fits the machine
/// words, in the order the computation performs them.
pub open spec fn aff_app_fits(t: AffV, x: int, y: int) -> bool {
    &&& fits_i128(t.a * x)
    &&& fits_i128(t.b * y)
    &&& fits_i128(t.a * x + t.b * y)
    &&& fits_i128(aff_nx(t, x, y))
    &&& fits_i128(t.c * x)
    &&& fits_i128(t.d * y)
    &&& fits_i128(t.c * x + t.d * y)
    &&& fits_i128(aff_ny(t, x, y))
    &&& fits_i64(aff_app_x(t, x, y))
    &&& fits_i64(aff_app_y(t, x, y))
}

/// A transform that can be applied to a fixed-point point. `apply` returns
/// `None` exactly when some intermediate of the exact computation leaves
/// the machine range.
pub trait Transform: Sized {
    /// Well-formedness of the transform's coefficients.
    spec fn t_wf(&self) -> bool;

    /// Whether the application of `self` to `p` stays in machine range.
    spec fn app_fits(&self, p: Pt) -> bool;

    /// The x coordinate of the exact image, truncated to whole units.
    spec fn app_x(&self, p: Pt) -> int;

    /// The y coordinate of the exact image, truncated to whole units.
    spec fn app_y(&self, p: Pt) -> int;

    /// Applies the transform to a point.
    fn apply(&self, p: Pt) -> (r: Option<Pt>)
        requires
            self.t_wf(),
        ensures
            r is Some <==> self.app_fits(p),
            r matches Some(q) ==> q.x == self.app_x(p) && q.y == self.app_y(p),
    ;
}

impl Transform for Similarity {
    open spec fn t_wf(&self) -> bool {
        self.wf()
    }

    open spec fn app_fits(&self, p: Pt) -> bool {
        sim_app_fits(self.v(), p.x as int, p.y as int)
    }

    open spec fn app_x(&self, p: Pt) -> int {
        sim_app_x(self.v(), p.x as int, p.y as int)
    }

    open spec fn app_y(&self, p: Pt) -> int {
        sim_app_y(self.v(), p.x as int, p.y as int)
    }

    /// Applies `p -> (s R) p + t` and truncates to whole units.
    fn apply(&self, p: Pt) -> (r: Option<Pt>) {
        let ax = match self.a.checked_mul(p.x as i128) {
            Some(v) => v,
            None => { return None; },
        };
        let by = match self.b.checked_mul(p.y as i128) {
            Some(v) => v,
            None => { return None; },
        };
        let mx = match ax.checked_sub(by) {
            Some(v) => v,
            None => { return None; },
        };
        let nx = match mx.checked_add(self.tx) {
            Some(v) => v,
            None => { return None; },
        };
        let bx = match self.b.checked_mul(p.x as i128) {
            Some(v) => v,
            None => { return None; },
        };
        let ay = match self.a.checked_mul(p.y as i128) {
            Some(v) => v,
            None => { return None; },
        };
        let my = match bx.checked_add(ay) {
            Some(v) => v,
            None => { return None; },
        };
        let ny = match my.checked_add(self.ty) {
            Some(v) => v,
            None => { return None; },
        };
        let qx = tdiv_i128(nx, self.den);
        let qy = tdiv_i128(ny, self.den);
        if qx < i64::MIN as i128 || qx > i64::MAX as i128 {
            return None;
        }
        if qy < i64::MIN as i128 || qy > i64::MAX as i128 {
            return None;
        }
        Some(Pt { x: qx as i64, y: qy as i64 })
    }
}

impl Transform for Affine {
    open spec fn t_wf(&self) -> bool {
        self.wf()
    }

    open spec fn app_fits(&self, p: Pt) -> bool {
        aff_app_fits(self.v(), p.x as int, p.y as int)
    }

    open spec fn app_x(&self, p: Pt) -> int {
        aff_app_x(self.v(), p.x as int, p.y as int)
    }

    open spec fn app_y(&self, p: Pt) -> int {
        aff_app_y(self.v(), p.x as int, p.y as int)
    }

    /// Applies `p -> M p + t` and truncates to whole units.
    fn apply(&self, p: Pt) -> (r: Option<Pt>) {
        let ax = match self.a.checked_mul(p.x as i128) {
            Some(v) => v,
            None => { return None; },
        };
        let by = match self.b.checked_mul(p.y as i128) {
            Some(v) => v,
            None => { return None; },
        };
        let mx = match ax.checked_add(by) {
            Some(v) => v,
            None => { return None; },
        };
        let nx = match mx.checked_add(self.tx) {
            Some(v) => v,
            None => { return None; },
        };
        let cx = match self.c.checked_mul(p.x as i128) {
            Some(v) => v,
            None => { return None; },
        };
        let dy = match self.d.checked_mul(p.y as i128) {
            Some(v) => v,
            None => { return None; },
        };
        let my = match cx.checked_add(dy) {
            Some(v) => v,
            None => { return None; },
        };
        let ny = match my.checked_add(self.ty) {
            Some(v) => v,
            None => { return None; },
        };
        let qx = tdiv_i128(nx, self.den);
        let qy = tdiv_i128(ny, self.den);
        if qx < i64::MIN as i128 || qx > i64::MAX as i128 {
            return None;
        }
        if qy < i64::MIN as i128 || qy > i64::MAX as i128 {
            return None;
        }
        Some(Pt { x: qx as i64, y: qy as i64 })
    }
}

/// The exact inverse of a similarity with a nonzero linear part:
/// `sqrt(a^2 + b^2) / den` inverts to its reciprocal, the rotation angle is
/// negated, and the translation is mapped back through the inverse.
pub open spec fn sim_inv(s: SimV) -> SimV {
    SimV {
        a: s.a * s.den,
        b: -(s.b * s.den),
        tx: -(s.a * s.tx + s.b * s.ty),
        ty: s.b * s.tx - s.a * s.ty,
        den: s.a * s.a + s.b * s.b,
    }
}

/// The exact composition "`first`, then `second`": scales multiply, angles
/// add, and the translation is `second`'s image of `first`'s translation.
pub open spec fn sim_comp(first: SimV, second: SimV) -> SimV {
    SimV {
        a: second.a * first.a - second.b * first.b,
        b: second.b * first.a + second.a * first.b,
        tx: second.a * first.tx - second.b * first.ty + second.tx * first.den,
        ty: second.b * first.tx + second.a * first.ty + second.ty * first.den,
        den: second.den * first.den,
    }
}

/// A similarity in identity form leaves every point in place.
pub open spec fn sim_is_identity(s: SimV) -> bool {
    s.a == s.den && s.b == 0 && s.tx == 0 && s.ty == 0
}

/// Composing any similarity that has a nonzero linear part with its exact
/// inverse yields the identity transform, exactly.
#[verifier::rlimit(100)]
pub proof fn lemma_invert_then_compose_is_identity(s: SimV)
    requires
        s.den > 0,
        s.a * s.a + s.b * s.b > 0,
    ensures
        sim_is_identity(sim_comp(s, sim_inv(s))),
        sim_comp(s, sim_inv(s)).den > 0,
{
    let i = sim_inv(s);
    let c = sim_comp(s, i);
    assert(c.a == c.den && c.b == 0 && c.tx == 0 && c.ty == 0) by (nonlinear_arith)
        requires
            i == sim_inv(s),
            c == sim_comp(s, i),
    ;
    assert(c.den > 0) by (nonlinear_arith)
        requires
            i == sim_inv(s),
            c == sim_comp(s, i),
            s.den > 0,
            s.a * s.a + s.b * s.b > 0,
    ;
}

/// An identity-form similarity maps every point to itself, exactly.
pub proof fn lemma_identity_fixes_points(s: SimV, x: int, y: int)
    requires
        sim_is_identity(s),
        s.den > 0,
    ensures
        sim_app_x(s, x, y) == x,
        sim_app_y(s, x, y) == y,
{
    assert(sim_nx(s, x, y) == s.den * x) by (nonlinear_arith)
        requires
            sim_is_identity(s),
    ;
    assert(sim_ny(s, x, y) == s.den * y) by (nonlinear_arith)
        requires
            sim_is_identity(s),
    ;
    vstd::arithmetic::div_mod::lemma_div_multiples_vanish(x, s.den);
    vstd::arithmetic::div_mod::lemma_div_multiples_vanish(-x, s.den);
    vstd::arithmetic::div_mod::lemma_div_multiples_vanish(y, s.den);
    vstd::arithmetic::div_mod::lemma_div_multiples_vanish(-y, s.den);
    assert(s.den * -x == -(s.den * x)) by (nonlinear_arith);
    assert(s.den * -y == -(s.den * y)) by (nonlinear_arith);
}

/// Returns the exact inverse of a similarity, or `None` when the linear
/// part is zero (the transform collapses the plane) or an intermediate
/// leaves the machine range.
pub fn invert_similarity(sim: &Similarity) -> (r: Option<Similarity>)
    requires
        sim.wf(),
    ensures
        r matches Some(inv) ==> inv.v() == sim_inv(sim.v()) && inv.wf(),
        r is Some <==> sim_inv_fits(sim.v()) && sim.v().a * sim.v().a + sim.v().b * sim.v().b
            > 0,
{
    let aa = match sim.a.checked_mul(sim.a) {
        Some(v) => v,
        None => { return None; },
    };
    let bb = match sim.b.checked_mul(sim.b) {
        Some(v) => v,
        None => { return None; },
    };
    let den = match aa.checked_add(bb) {
        Some(v) => v,
        None => { return None; },
    };
    if den <= 0 {
        proof {
            assert(sim.v().a * sim.v().a >= 0) by (nonlinear_arith);
            assert(sim.v().b * sim.v().b >= 0) by (nonlinear_arith);
        }
        return None;
    }
    let na = match sim.a.checked_mul(sim.den) {
        Some(v) => v,
        None => { return None; },
    };
    let nb0 = match sim.b.checked_mul(sim.den) {
        Some(v) => v,
        None => { return None; },
    };
    let nb = match (0 as i128).checked_sub(nb0) {
        Some(v) => v,
        None => { return None; },
    };
    let atx = match sim.a.checked_mul(sim.tx) {
        Some(v) => v,
        None => { return None; },
    };
    let bty = match sim.b.checked_mul(sim.ty) {
        Some(v) => v,
        None => { return None; },
    };
    let ntx0 = match atx.checked_add(bty) {
        Some(v) => v,
        None => { return None; },
    };
    let ntx = match (0 as i128).checked_sub(ntx0) {
        Some(v) => v,
        None => { return None; },
    };
    let btx = match sim.b.checked_mul(sim.tx) {
        Some(v) => v,
        None => { return None; },
    };
    let aty = match sim.a.checked_mul(sim.ty) {
        Some(v) => v,
        None => { return None; },
    };
    let nty = match btx.checked_sub(aty) {
        Some(v) => v,
        None => { return None; },
    };
    Some(Similarity { a: na, b: nb, tx: ntx, ty: nty, den })
}

/// Whether every intermediate of the exact similarity inversion fits the
/// machine words, in the order the computation performs them.
pub open spec fn sim_inv_fits(s: SimV) -> bool {
    &&& fits_i128(s.a * s.a)
    &&& fits_i128(s.b * s.b)
    &&& fits_i128(s.a * s.a + s.b * s.b)
    &&& fits_i128(s.a * s.den)
    &&& fits_i128(s.b * s.den)
    &&& fits_i128(-(s.b * s.den))
    &&& fits_i128(s.a * s.tx)
    &&& fits_i128(s.b * s.ty)
    &&& fits_i128(s.a * s.tx + s.b * s.ty)
    &&& fits_i128(-(s.a * s.tx + s.b * s.ty))
    &&& fits_i128(s.b * s.tx)
    &&& fits_i128(s.a * s.ty)
    &&& fits_i128(s.b * s.tx - s.a * s.ty)
}

/// Whether every intermediate of the exact similarity composition fits the
/// machine words, in the order the computation performs them.
pub open spec fn sim_comp_fits(first: SimV, second: SimV) -> bool {
    &&& fits_i128(second.a * first.a)
    &&& fits_i128(second.b * first.b)
    &&& fits_i128(second.a * first.a - second.b * first.b)
    &&& fits_i128(second.b * first.a)
    &&& fits_i128(second.a * first.b)
    &&& fits_i128(second.b * first.a + second.a * first.b)
    &&& fits_i128(second.a * first.tx)
    &&& fits_i128(second.b * first.ty)
    &&& fits_i128(second.a * first.tx - second.b * first.ty)
    &&& fits_i128(second.tx * first.den)
    &&& fits_i128(second.a * first.tx - second.b * first.ty + second.tx * first.den)
    &&& fits_i128(second.b * first.tx)
    &&& fits_i128(second.a * first.ty)
    &&& fits_i128(second.b * first.tx + second.a * first.ty)
    &&& fits_i128(second.ty * first.den)
    &&& fits_i128(second.b * first.tx + second.a * first.ty + second.ty * first.den)
    &&& fits_i128(second.den * first.den)
}

/// Composes two similarity transforms: the result applies `first`, then
/// `second`. Returns `None` when an intermediate leaves the machine range.
pub fn compose_similarity(first: &Similarity, second: &Similarity) -> (r: Option<Similarity>)
    requires
        first.wf(),
        second.wf(),
    ensures
        r matches Some(c) ==> c.v() == sim_comp(first.v(), second.v()) && c.wf(),
        r is Some <==> sim_comp_fits(first.v(), second.v()),
{
    let ca = match checked_mul_sub(second.a, first.a, second.b, first.b) {
        Some(v) => v,
        None => { return None; },
    };
    let cb = match checked_mul_add(second.b, first.a, second.a, first.b) {
        Some(v) => v,
        None => { return None; },
    };
    let tx0 = match checked_mul_sub(second.a, first.tx, second.b, first.ty) {
        Some(v) => v,
        None => { return None; },
    };
    let tx1 = match second.tx.checked_mul(first.den) {
        Some(v) => v,
        None => { return None; },
    };
    let ctx = match tx0.checked_add(tx1) {
        Some(v) => v,
        None => { return None; },
    };
    let ty0 = match checked_mul_add(second.b, first.tx, second.a, first.ty) {
        Some(v) => v,
        None => { return None; },
    };
    let ty1 = match second.ty.checked_mul(first.den) {
        Some(v) => v,
        None => { return None; },
    };
    let cty = match ty0.checked_add(ty1) {
        Some(v) => v,
        None => { return None; },
    };
    let cden = match second.den.checked_mul(first.den) {
        Some(v) => v,
        None => { return None; },
    };
    proof {
        assert(second.v().den * first.v().den > 0) by (nonlinear_arith)
            requires
                second.v().den > 0,
                first.v().den > 0,
        ;
    }
    Some(Similarity { a: ca, b: cb, tx: ctx, ty: cty, den: cden })
}

/// The exact composition "`first`, then `second`" of two affine
/// transforms: the linear parts multiply and the translation is
/// `second`'s image of `first`'s translation.
pub open spec fn aff_comp(first: AffV, second: AffV) -> AffV {
    AffV {
        a: second.a * first.a + second.b * first.c,
        b: second.a * first.b + second.b * first.d,
        c: second.c * first.a + second.d * first.c,
        d: second.c * first.b + second.d * first.d,
        tx: second.a * first.tx + second.b * first.ty + second.tx * first.den,
        ty: second.c * first.tx + second.d * first.ty + second.ty * first.den,
        den: second.den * first.den,
    }
}

/// Whether every intermediate of the exact affine composition fits the
/// machine words, in the order the computation performs them.
pub open spec fn aff_comp_fits(first: AffV, second: AffV) -> bool {
    &&& fits_i128(second.a * first.a)
    &&& fits_i128(second.b * first.c)
    &&& fits_i128(second.a * first.a + second.b * first.c)
    &&& fits_i128(second.a * first.b)
    &&& fits_i128(second.b * first.d)
    &&& fits_i128(second.a * first.b + second.b * first.d)
    &&& fits_i128(second.c * first.a)
    &&& fits_i128(second.d * first.c)
    &&& fits_i128(second.c * first.a + second.d * first.c)
    &&& fits_i128(second.c * first.b)
    &&& fits_i128(second.d * first.d)
    &&& fits_i128(second.c * first.b + second.d * first.d)
    &&& fits_i128(second.a * first.tx)
    &&& fits_i128(second.b * first.ty)
    &&& fits_i128(second.a * first.tx + second.b * first.ty)
    &&& fits_i128(second.tx * first.den)
    &&& fits_i128(second.a * first.tx + second.b * first.ty + second.tx * first.den)
    &&& fits_i128(second.c * first.tx)
    &&& fits_i128(second.d * first.ty)
    &&& fits_i128(second.c * first.tx + second.d * first.ty)
    &&& fits_i128(second.ty * first.den)
    &&& fits_i128(second.c * first.tx + second.d * first.ty + second.ty * first.den)
    &&& fits_i128(second.den * first.den)
}

/// Composes two affine transforms: the result applies `first`, then
/// `second`. Returns `None` exactly when an intermediate leaves the
/// machine range.
pub fn compose_affine(first: &Affine, second: &Affine) -> (r: Option<Affine>)
    requires
        first.wf(),
        second.wf(),
    ensures
        r matches Some(c) ==> c.v() == aff_comp(first.v(), second.v()) && c.wf(),
        r is Some <==> aff_comp_fits(first.v(), second.v()),
{
    let ca = match checked_mul_add(second.a, first.a, second.b, first.c) {
        Some(v) => v,
        None => { return None; },
    };
    let cb = match checked_mul_add(second.a, first.b, second.b, first.d) {
        Some(v) => v,
        None => { return None; },
    };
    let cc = match checked_mul_add(second.c, first.a, second.d, first.c) {
        Some(v) => v,
        None => { return None; },
    };
    let cd = match checked_mul_add(second.c, first.b, second.d, first.d) {
        Some(v) => v,
        None => { return None; },
    };
    let tx0 = match checked_mul_add(second.a, first.tx, second.b, first.ty) {
        Some(v) => v,
        None => { return None; },
    };
    let tx1 = match second.tx.checked_mul(first.den) {
        Some(v) => v,
        None => { return None; },
    };
    let ctx = match tx0.checked_add(tx1) {
        Some(v) => v,
        None => { return None; },
    };
    let ty0 = match checked_mul_add(second.c, first.tx, second.d, first.ty) {
        Some(v) => v,
        None => { return None; },
    };
    let ty1 = match second.ty.checked_mul(first.den) {
        Some(v) => v,
        None => { return None; },
    };
    let cty = match ty0.checked_add(ty1) {
        Some(v) => v,
        None => { return None; },
    };
    let cden = match second.den.checked_mul(first.den) {
        Some(v) => v,
        None => { return None; },
    };
    proof {
        assert(second.v().den * first.v().den > 0) by (nonlinear_arith)
            requires
                second.v().den > 0,
                first.v().den > 0,
        ;
    }
    Some(Affine { a: ca, b: cb, c: cc, d: cd, tx: ctx, ty: cty, den: cden })
}

/// Rearranges a similarity into general affine form: the linear part
/// becomes `[[a, -b], [b, a]]` over the same denominator, exactly.
pub fn similarity_to_affine(sim: &Similarity) -> (r: Option<Affine>)
    requires
        sim.wf(),
    ensures
        r matches Some(t) ==> {
            &&& t.a == sim.a && t.b == -sim.b && t.c == sim.b && t.d == sim.a
            &&& t.tx == sim.tx && t.ty == sim.ty && t.den == sim.den
            &&& t.wf()
        },
        r is Some <==> sim.b != i128::MIN,
{
    if sim.b == i128::MIN {
        return None;
    }
    Some(
        Affine {
            a: sim.a,
            b: -sim.b,
            c: sim.b,
            d: sim.a,
            tx: sim.tx,
            ty: sim.ty,
            den: sim.den,
        },
    )
}

/// Computes `a * b - c * d` with every step checked.
fn checked_mul_sub(a: i128, b: i128, c: i128, d: i128) -> (r: Option<i128>)
    ensures
        r is Some <==> fits_i128(a * b) && fits_i128(c * d) && fits_i128(a * b - c * d),
        r matches Some(v) ==> v == a * b - c * d,
{
    let ab = match a.checked_mul(b) {
        Some(v) => v,
        None => { return None; },
    };
    let cd = match c.checked_mul(d) {
        Some(v) => v,
        None => { return None; },
    };
    ab.checked_sub(cd)
}

/// Computes `a * b + c * d` with every step checked.
fn checked_mul_add(a: i128, b: i128, c: i128, d: i128) -> (r: Option<i128>)
    ensures
        r is Some <==> fits_i128(a * b) && fits_i128(c * d) && fits_i128(a * b + c * d),
        r matches Some(v) ==> v == a * b + c * d,
{
    let ab = match a.checked_mul(b) {
        Some(v) => v,
        None => { return None; },
    };
    let cd = match c.checked_mul(d) {
        Some(v) => v,
        None => { return None; },
    };
    ab.checked_add(cd)
}

} // verus!
