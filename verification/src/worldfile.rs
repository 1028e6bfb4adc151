//! World-file sidecar conventions: which sidecar names to probe for a
//! raster of a given extension, and the projection-sidecar variants.

use vstd::prelude::*;
use vstd::string::StringExecFns;
use vstd::string::StringSliceAdditionalSpecFns;

use crate::text::str_eq;

verus! {

/// Whether `e` names a tagged-raster extension.
pub open spec fn is_tiff_ext(e: &str) -> bool {
    e.spec_bytes() == "tif".spec_bytes() || e.spec_bytes() == "tiff".spec_bytes()
}

/// Whether `e` names a raster extension with its own world-file sidecar
/// convention.
pub open spec fn is_jpeg_ext(e: &str) -> bool {
    e.spec_bytes() == "jpg".spec_bytes() || e.spec_bytes() == "jpeg".spec_bytes()
}

/// Whether `e` holds the same bytes as `lit`.
pub open spec fn ext_is(e: &str, lit: &str) -> bool {
    e.spec_bytes() == lit.spec_bytes()
}

/// The conventional world-file extensions to probe for a raster file
/// extension, specific names first and the generic fallback last; a
/// raster without a convention of its own gets the fallback alone.
pub fn world_file_candidates(ext: &str) -> (r: Vec<String>)
    ensures
        r@.len() >= 1,
        r@[r@.len() - 1]@ == "wld"@,
        is_tiff_ext(ext) ==> r@.len() == 2 && r@[0]@ == "tfw"@,
        !is_tiff_ext(ext) && is_jpeg_ext(ext) ==> r@.len() == 3 && r@[0]@ == "jgw"@ && r@[1]@
            == "j2w"@,
        !is_tiff_ext(ext) && !is_jpeg_ext(ext) && ext_is(ext, "png") ==> r@.len() == 2
            && r@[0]@ == "pgw"@,
        !is_tiff_ext(ext) && !is_jpeg_ext(ext) && !ext_is(ext, "png") && ext_is(ext, "gif")
            ==> r@.len() == 2 && r@[0]@ == "gfw"@,
        !is_tiff_ext(ext) && !is_jpeg_ext(ext) && !ext_is(ext, "png") && !ext_is(ext, "gif")
            && ext_is(ext, "bmp") ==> r@.len() == 2 && r@[0]@ == "bpw"@,
        !is_tiff_ext(ext) && !is_jpeg_ext(ext) && !ext_is(ext, "png") && !ext_is(ext, "gif")
            && !ext_is(ext, "bmp") ==> r@.len() == 1,
{
    let mut out: Vec<String> = Vec::new();
    if str_eq(ext, "tif") || str_eq(ext, "tiff") {
        out.push(String::from_str("tfw"));
    } else if str_eq(ext, "jpg") || str_eq(ext, "jpeg") {
        out.push(String::from_str("jgw"));
        out.push(String::from_str("j2w"));
    } else if str_eq(ext, "png") {
        out.push(String::from_str("pgw"));
    } else if str_eq(ext, "gif") {
        out.push(String::from_str("gfw"));
    } else if str_eq(ext, "bmp") {
        out.push(String::from_str("bpw"));
    }
    out.push(String::from_str("wld"));
    out
}

/// The projection-sidecar extensions to probe, in order: the common case
/// variants of `prj`, then the well-known-text variants.
pub fn prj_candidates() -> (r: Vec<String>)
    ensures
        r@.len() == 5,
        r@[0]@ == "prj"@,
        r@[1]@ == "PRJ"@,
        r@[2]@ == "Prj"@,
        r@[3]@ == "wkt"@,
        r@[4]@ == "WKT"@,
{
    let mut out: Vec<String> = Vec::new();
    out.push(String::from_str("prj"));
    out.push(String::from_str("PRJ"));
    out.push(String::from_str("Prj"));
    out.push(String::from_str("wkt"));
    out.push(String::from_str("WKT"));
    out
}

} // verus!
