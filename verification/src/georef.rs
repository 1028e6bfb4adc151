//! Georeferencing model: the affine sextuple that maps reference pixels to
//! world coordinates, and the derived ground size of one pixel.

use vstd::prelude::*;

use crate::algebra::tdiv;
use crate::model::Affine;
use crate::model::Rat;
use crate::num::{isqrt_u128, lemma_mul_bound};
use crate::UNITS_PER_PIXEL;

verus! {

/// Largest world-file coefficient magnitude (in fixed-point units) the
/// projector accepts, so products stay within the machine words.
pub const GEOREF_LIMIT: i64 = 0x100_0000_0000;

/// An affine pixel-to-world mapping read from a world file or embedded
/// geotagging, with an optional coordinate-reference description (well
/// known text or an identifier string). The six coefficients are in
/// fixed-point units and map a pixel `(u, v)` to the world point
/// `x = a u + b v + c`, `y = d u + e v + f`.
#[derive(Debug, Clone)]
pub struct Georef {
    pub a: i64,
    pub b: i64,
    pub d: i64,
    pub e: i64,
    pub c: i64,
    pub f: i64,
    pub crs: Option<String>,
}

impl Georef {
    /// All coefficients are small enough for exact projection.
    pub open spec fn wf(self) -> bool {
        &&& -GEOREF_LIMIT <= self.a <= GEOREF_LIMIT
        &&& -GEOREF_LIMIT <= self.b <= GEOREF_LIMIT
        &&& -GEOREF_LIMIT <= self.d <= GEOREF_LIMIT
        &&& -GEOREF_LIMIT <= self.e <= GEOREF_LIMIT
        &&& -GEOREF_LIMIT <= self.c <= GEOREF_LIMIT
        &&& -GEOREF_LIMIT <= self.f <= GEOREF_LIMIT
    }

    /// The same mapping as a rational affine transform on fixed-point
    /// coordinates (pixels in, world units out): the translation moves
    /// into the shared numerator, so `tx / den` is `c` in units.
    pub fn to_affine(&self) -> (r: Affine)
        requires
            self.wf(),
        ensures
            r.a == self.a as int && r.b == self.b as int && r.c == self.d as int && r.d
                == self.e as int,
            r.tx == self.c as int * (UNITS_PER_PIXEL as int),
            r.ty == self.f as int * (UNITS_PER_PIXEL as int),
            r.den == UNITS_PER_PIXEL as int,
            r.wf(),
    {
        Affine {
            a: self.a as i128,
            b: self.b as i128,
            c: self.d as i128,
            d: self.e as i128,
            tx: self.c as i128 * UNITS_PER_PIXEL as i128,
            ty: self.f as i128 * UNITS_PER_PIXEL as i128,
            den: UNITS_PER_PIXEL as i128,
        }
    }
}

/// The world x coordinate of a pixel under the mapping, in units.
pub open spec fn world_x(g: Georef, u: int, v: int) -> int {
    tdiv(g.a * u + g.b * v, UNITS_PER_PIXEL as int) + g.c
}

/// The world y coordinate of a pixel under the mapping, in units.
pub open spec fn world_y(g: Georef, u: int, v: int) -> int {
    tdiv(g.d * u + g.e * v, UNITS_PER_PIXEL as int) + g.f
}

/// Converts a reference pixel coordinate (in units) to world coordinates
/// (in units) by applying the affine mapping exactly.
pub fn pixel_to_world(g: &Georef, u: i64, v: i64) -> (r: (i128, i128))
    requires
        g.wf(),
        -GEOREF_LIMIT <= u <= GEOREF_LIMIT,
        -GEOREF_LIMIT <= v <= GEOREF_LIMIT,
    ensures
        r.0 == world_x(*g, u as int, v as int),
        r.1 == world_y(*g, u as int, v as int),
{
    proof {
        let lim: int = GEOREF_LIMIT as int;
        lemma_mul_bound(g.a as int, u as int, lim, lim);
        lemma_mul_bound(g.b as int, v as int, lim, lim);
        lemma_mul_bound(g.d as int, u as int, lim, lim);
        lemma_mul_bound(g.e as int, v as int, lim, lim);
    }
    let nx = g.a as i128 * u as i128 + g.b as i128 * v as i128;
    let ny = g.d as i128 * u as i128 + g.e as i128 * v as i128;
    let x = crate::algebra::tdiv_i128(nx, UNITS_PER_PIXEL as i128) + g.c as i128;
    let y = crate::algebra::tdiv_i128(ny, UNITS_PER_PIXEL as i128) + g.f as i128;
    (x, y)
}

/// Whether `v` is the integer square root of `x`.
pub open spec fn is_isqrt(v: int, x: int) -> bool {
    0 <= v && v * v <= x && x < (v + 1) * (v + 1)
}

/// The ground distance covered by one reference pixel, in meters: the
/// average of the two affine basis-vector lengths, as an exact rational
/// over the rounded-down integer norms.
pub fn pixel_size(g: &Georef) -> (r: Rat)
    requires
        g.wf(),
    ensures
        r.wf(),
        r.num >= 0,
        r.den == 2 * (UNITS_PER_PIXEL as int),
        exists|ax: int, ay: int|
            (#[trigger] is_isqrt(ax, g.a * g.a + g.d * g.d)) && (#[trigger] is_isqrt(
                ay,
                g.b * g.b + g.e * g.e,
            )) && r.num == ax + ay,
{
    proof {
        let lim: int = GEOREF_LIMIT as int;
        lemma_mul_bound(g.a as int, g.a as int, lim, lim);
        lemma_mul_bound(g.d as int, g.d as int, lim, lim);
        lemma_mul_bound(g.b as int, g.b as int, lim, lim);
        lemma_mul_bound(g.e as int, g.e as int, lim, lim);
        assert((g.a as int) * (g.a as int) >= 0) by (nonlinear_arith);
        assert((g.d as int) * (g.d as int) >= 0) by (nonlinear_arith);
        assert((g.b as int) * (g.b as int) >= 0) by (nonlinear_arith);
        assert((g.e as int) * (g.e as int) >= 0) by (nonlinear_arith);
    }
    let nx = g.a as i128 * g.a as i128 + g.d as i128 * g.d as i128;
    let ny = g.b as i128 * g.b as i128 + g.e as i128 * g.e as i128;
    let ax = isqrt_u128(nx as u128);
    let ay = isqrt_u128(ny as u128);
    proof {
        assert(ax < 0x8000_0000_0000_0000u128 && ay < 0x8000_0000_0000_0000u128)
            by (nonlinear_arith)
            requires
                ax * ax <= nx as u128,
                ay * ay <= ny as u128,
                (nx as u128) < 0x4000_0000_0000_0000_0000_0000_0000_0000u128,
                (ny as u128) < 0x4000_0000_0000_0000_0000_0000_0000_0000u128,
        ;
        assert(is_isqrt(ax as int, g.a * g.a + g.d * g.d));
        assert(is_isqrt(ay as int, g.b * g.b + g.e * g.e));
    }
    Rat { num: ax as i128 + ay as i128, den: 2 * UNITS_PER_PIXEL as i128 }
}

} // verus!
