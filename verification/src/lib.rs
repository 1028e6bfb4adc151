//! Fits coordinate transforms that register a scanned raster map onto a
//! reference coordinate space from user-supplied point correspondences,
//! robustly handles outliers, reports calibrated error metrics in several
//! physical units, and recovers world coordinates from georeferencing
//! metadata.
//!
//! Coordinates are carried as fixed-point integers: `UNITS_PER_PIXEL` units
//! make one pixel. Transform parameters are exact rationals (an integer
//! numerator per coefficient over one positive denominator), so the algebra
//! of fitting, inversion and composition is verified exactly.

use vstd::prelude::*;

pub mod afffit;
pub mod algebra;
pub mod filter;
pub mod geokeys;
pub mod georef;
pub mod fit;
pub mod num;
pub mod quality;
pub mod ransac;
pub mod session;
pub mod text;
pub mod units;
pub mod worldfile;
pub mod model;

verus! {

/// Number of fixed-point coordinate units in one pixel.
pub const UNITS_PER_PIXEL: i64 = 100;

/// Units for reporting positional error metrics.
#[derive(Debug, Clone, Copy, PartialEq, Eq, Structural)]
pub enum ErrorUnit {
    Pixels,
    Meters,
    MapMillimeters,
}

/// Why a fitting or conversion request could not be served.
#[derive(Debug, Clone, Copy, PartialEq, Eq, Structural)]
pub enum FitError {
    /// Fewer correspondences than the method requires.
    InsufficientData,
    /// Near-zero variance or a singular linear system.
    DegenerateGeometry,
    /// A non-positive robust-fit threshold.
    InvalidParameter,
    /// No robust-fit iteration produced a single inlier.
    NoModelFound,
    /// An unrecognized fit-method name.
    UnsupportedMethod,
    /// No coordinate reference is known for a coordinate query.
    ConversionUnavailable,
    /// A value exceeds the range the fixed-point model can hold exactly.
    OutOfRange,
}

/// Placeholder tile-set loader; the format is not supported yet.
pub fn load_mbtiles(_path: &str) -> (r: Result<(), FitError>)
    ensures
        r is Ok,
{
    Ok(())
}

/// Placeholder cloud-optimized raster loader; the format is not supported yet.
pub fn load_cog(_path: &str) -> (r: Result<(), FitError>)
    ensures
        r is Ok,
{
    Ok(())
}

/// Placeholder document loader; the format is not supported yet.
pub fn load_pdf(_path: &str) -> (r: Result<(), FitError>)
    ensures
        r is Ok,
{
    Ok(())
}

} // verus!
