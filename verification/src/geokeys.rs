//! Embedded geotagging: scanning a GeoKey directory for the coordinate
//! reference code and the raster-type key, and deriving the affine mapping
//! from a pixel-scale/tiepoint tag pair or a model-transformation tag.

use vstd::prelude::*;

use crate::algebra::tdiv;
use crate::georef::Georef;
use crate::UNITS_PER_PIXEL;

verus! {

/// GeoKey id of the raster-type key: 1 means pixel-is-area, 2 means
/// pixel-is-point.
pub const RASTER_TYPE_KEY: u16 = 1025;

/// GeoKey id of the projected coordinate-reference code.
pub const PROJECTED_CRS_KEY: u16 = 3072;

/// GeoKey id of the geographic coordinate-reference code.
pub const GEOGRAPHIC_CRS_KEY: u16 = 2048;

/// Number of key entries a GeoKey directory announces in its header.
pub open spec fn geokey_count(dir: Seq<u16>) -> int {
    if dir.len() < 4 {
        0
    } else {
        dir[3] as int
    }
}

/// Whether the directory really holds the entries its header announces:
/// a four-value header followed by one 4-tuple per key.
pub open spec fn geokey_dir_ok(dir: Seq<u16>) -> bool {
    dir.len() >= 4 && dir.len() >= 4 + geokey_count(dir) * 4
}

/// The value of the first entry from position `i` on whose key id is
/// `key1` or `key2` and whose location field is zero (the value is stored
/// inline), if any.
pub open spec fn find_key(dir: Seq<u16>, key1: u16, key2: u16, i: int) -> Option<u16>
    decreases geokey_count(dir) - i,
{
    if i < 0 || i >= geokey_count(dir) || !geokey_dir_ok(dir) {
        None
    } else {
        let base = 4 + i * 4;
        if (dir[base] == key1 || dir[base] == key2) && dir[base + 1] == 0 {
            Some(dir[base + 3])
        } else {
            find_key(dir, key1, key2, i + 1)
        }
    }
}

/// Scans a GeoKey directory for an inline value under either of two keys.
fn scan_keys(dir: &Vec<u16>, key1: u16, key2: u16) -> (r: Option<u16>)
    ensures
        r == find_key(dir@, key1, key2, 0),
{
    if dir.len() < 4 {
        return None;
    }
    let count = dir[3] as usize;
    if dir.len() < 4 + count * 4 {
        proof {
            assert(!geokey_dir_ok(dir@));
        }
        return None;
    }
    proof {
        assert(geokey_dir_ok(dir@));
    }
    for i in 0..count
        invariant
            geokey_dir_ok(dir@),
            count == geokey_count(dir@),
            4 + count * 4 <= dir@.len(),
            find_key(dir@, key1, key2, 0) == find_key(dir@, key1, key2, i as int),
    {
        let base = 4 + i * 4;
        if (dir[base] == key1 || dir[base] == key2) && dir[base + 1] == 0 {
            return Some(dir[base + 3]);
        }
    }
    None
}

/// Extracts the coordinate-reference code from a GeoKey directory: the
/// first inline entry under the projected or the geographic key.
pub fn geotiff_epsg(dir: &Vec<u16>) -> (r: Option<u16>)
    ensures
        r == find_key(dir@, PROJECTED_CRS_KEY, GEOGRAPHIC_CRS_KEY, 0),
{
    scan_keys(dir, PROJECTED_CRS_KEY, GEOGRAPHIC_CRS_KEY)
}

/// Extracts the raster-type key from a GeoKey directory: 1 means
/// pixel-is-area (the default), 2 means pixel-is-point.
pub fn geotiff_raster_type(dir: &Vec<u16>) -> (r: Option<u16>)
    ensures
        r == find_key(dir@, RASTER_TYPE_KEY, RASTER_TYPE_KEY, 0),
{
    scan_keys(dir, RASTER_TYPE_KEY, RASTER_TYPE_KEY)
}

/// Builds the affine mapping from a full model-transformation tag: the
/// 2-by-2 linear block and the translation column of the row-major 4-by-4
/// matrix, taken directly. `None` unless exactly 16 values are given.
pub fn from_model_transformation(m: &Vec<i64>, crs: Option<String>) -> (r: Option<Georef>)
    requires
        forall|i: int| 0 <= i < m@.len() ==> -crate::georef::GEOREF_LIMIT <= #[trigger] m@[i]
            <= crate::georef::GEOREF_LIMIT,
    ensures
        r is Some <==> m@.len() == 16,
        r matches Some(g) ==> {
            &&& g.a == m@[0] && g.b == m@[1] && g.c == m@[3]
            &&& g.d == m@[4] && g.e == m@[5] && g.f == m@[7]
            &&& g.wf()
        },
{
    if m.len() != 16 {
        return None;
    }
    Some(
        Georef {
            a: m[0],
            b: m[1],
            d: m[4],
            e: m[5],
            c: m[3],
            f: m[7],
            crs,
        },
    )
}

/// The x translation derived from a tiepoint: the tiepoint maps pixel
/// `(i, j)` to world `(x, y)`, so `c = x - a i` (there is no rotation),
/// shifted by half a pixel unless the raster type says pixel-is-point.
pub open spec fn tiepoint_c(a: int, ti: int, x: int, raster_type: Option<u16>) -> int {
    let base = x - tdiv(a * ti, UNITS_PER_PIXEL as int);
    if raster_type == Some(2u16) {
        base
    } else {
        base + tdiv(a, 2)
    }
}

/// Builds the affine mapping from a pixel-scale tag and the first
/// tiepoint: `a = sx`, `e = -sy`, no rotation, and the translation
/// back-solved from the tiepoint's pixel/world pair, with a half-pixel
/// origin correction unless the raster type says pixel-is-point.
/// `None` when a value leaves the range the projector accepts.
pub fn from_scale_and_tiepoint(
    sx: i64,
    sy: i64,
    ti: i64,
    tj: i64,
    x: i64,
    y: i64,
    raster_type: Option<u16>,
    crs: Option<String>,
) -> (r: Option<Georef>)
    requires
        -crate::georef::GEOREF_LIMIT <= sx <= crate::georef::GEOREF_LIMIT,
        -crate::georef::GEOREF_LIMIT <= sy <= crate::georef::GEOREF_LIMIT,
        -crate::georef::GEOREF_LIMIT <= ti <= crate::georef::GEOREF_LIMIT,
        -crate::georef::GEOREF_LIMIT <= tj <= crate::georef::GEOREF_LIMIT,
        -crate::georef::GEOREF_LIMIT <= x <= crate::georef::GEOREF_LIMIT,
        -crate::georef::GEOREF_LIMIT <= y <= crate::georef::GEOREF_LIMIT,
    ensures
        r matches Some(g) ==> {
            &&& g.a == sx && g.b == 0 && g.d == 0 && g.e == -sy
            &&& g.c == tiepoint_c(sx as int, ti as int, x as int, raster_type)
            &&& g.f == tiepoint_c(-(sy as int), tj as int, y as int, raster_type)
            &&& g.wf()
        },
        r is Some <==> -crate::georef::GEOREF_LIMIT <= tiepoint_c(
            sx as int,
            ti as int,
            x as int,
            raster_type,
        ) <= crate::georef::GEOREF_LIMIT && -crate::georef::GEOREF_LIMIT <= tiepoint_c(
            -(sy as int),
            tj as int,
            y as int,
            raster_type,
        ) <= crate::georef::GEOREF_LIMIT,
{
    let a = sx;
    let e = -sy;
    proof {
        let lim: int = crate::georef::GEOREF_LIMIT as int;
        crate::num::lemma_mul_bound(a as int, ti as int, lim, lim);
        crate::num::lemma_mul_bound(e as int, tj as int, lim, lim);
        crate::num::lemma_tdiv_bound((a as int) * (ti as int), 100);
        crate::num::lemma_tdiv_bound((e as int) * (tj as int), 100);
        crate::num::lemma_tdiv_bound(a as int, 2);
        crate::num::lemma_tdiv_bound(e as int, 2);
    }
    let mut cval = x as i128 - crate::algebra::tdiv_i128(
        a as i128 * ti as i128,
        UNITS_PER_PIXEL as i128,
    );
    let mut fval = y as i128 - crate::algebra::tdiv_i128(
        e as i128 * tj as i128,
        UNITS_PER_PIXEL as i128,
    );
    let point_is_point = match raster_type {
        Some(v) => v == 2,
        None => false,
    };
    if !point_is_point {
        cval = cval + crate::algebra::tdiv_i128(a as i128, 2);
        fval = fval + crate::algebra::tdiv_i128(e as i128, 2);
    }
    let lim = crate::georef::GEOREF_LIMIT as i128;
    if cval < -lim || cval > lim || fval < -lim || fval > lim {
        return None;
    }
    Some(Georef { a, b: 0, d: 0, e, c: cval as i64, f: fval as i64, crs })
}

} // verus!
