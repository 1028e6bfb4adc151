//! Entity model: constraint variants, transform variants, rational scalars
//! and the quality-metric record.

use vstd::prelude::*;

use crate::ErrorUnit;

verus! {

/// A point in fixed-point coordinates: `UNITS_PER_PIXEL` units per pixel.
#[derive(Debug, Clone, Copy, PartialEq, Eq, Structural)]
pub struct Pt {
    pub x: i64,
    pub y: i64,
}

impl Pt {
    pub fn new(x: i64, y: i64) -> (r: Pt)
        ensures
            r.x == x && r.y == y,
    {
        Pt { x, y }
    }
}

/// A source/destination correspondence in fixed-point coordinates.
#[derive(Debug, Clone, Copy, PartialEq, Eq, Structural)]
pub struct PairPt {
    pub src: Pt,
    pub dst: Pt,
}

/// An exact rational scalar: `num / den` with a positive denominator.
#[derive(Debug, Clone, Copy, PartialEq, Eq, Structural)]
pub struct Rat {
    pub num: i128,
    pub den: i128,
}

impl Rat {
    /// A well-formed rational has a positive denominator.
    pub open spec fn wf(self) -> bool {
        self.den > 0
    }

    /// Two rationals denote the same value when they cross-multiply equally.
    pub open spec fn same_value(self, other: Rat) -> bool {
        self.num * other.den == other.num * self.den
    }

    /// The rational `v / 1`.
    pub fn from_int(v: i64) -> (r: Rat)
        ensures
            r.wf(),
            r.num == v as int,
            r.den == 1,
    {
        Rat { num: v as i128, den: 1 }
    }
}

/// A user-editable registration constraint. Only `PointPair` takes part in
/// fitting; the other variants are stored but inert for solving.
#[derive(Debug, Clone)]
pub enum ConstraintKind {
    Point { id: u64, point: Pt, weight: i64 },
    PointPair {
        id: u64,
        src: Pt,
        dst: Pt,
        /// World coordinates of `dst` derived from the reference
        /// georeferencing, in fixed-point CRS units.
        dst_real: Option<Pt>,
        /// Local meter-plane coordinates of `dst` relative to the reference
        /// origin, in fixed-point meters.
        dst_local: Option<Pt>,
        weight: i64,
    },
    Polyline { id: u64, points: Vec<Pt>, weight: i64 },
    Polygon { id: u64, points: Vec<Pt>, weight: i64 },
    AnisotropicPin {
        id: u64,
        point: Pt,
        sigma_major: i64,
        sigma_minor: i64,
        angle: i64,
    },
    Anchor { id: u64, point: Pt },
}

impl ConstraintKind {
    /// The process-unique identifier of a constraint, whatever its variant.
    pub open spec fn spec_id(&self) -> u64 {
        match self {
            ConstraintKind::Point { id, .. } => *id,
            ConstraintKind::PointPair { id, .. } => *id,
            ConstraintKind::Polyline { id, .. } => *id,
            ConstraintKind::Polygon { id, .. } => *id,
            ConstraintKind::AnisotropicPin { id, .. } => *id,
            ConstraintKind::Anchor { id, .. } => *id,
        }
    }

    /// Returns the constraint's identifier.
    pub fn id(&self) -> (r: u64)
        ensures
            r == self.spec_id(),
    {
        match self {
            ConstraintKind::Point { id, .. } => *id,
            ConstraintKind::PointPair { id, .. } => *id,
            ConstraintKind::Polyline { id, .. } => *id,
            ConstraintKind::Polygon { id, .. } => *id,
            ConstraintKind::AnisotropicPin { id, .. } => *id,
            ConstraintKind::Anchor { id, .. } => *id,
        }
    }
}

/// A similarity transform held as one exact rational matrix: it maps a point
/// `p` to `M p + t` where `M = [[a, -b], [b, a]] / den` and
/// `t = (tx, ty) / den`. The uniform scale is `sqrt(a^2 + b^2) / den` and
/// `(a, b) / den` is `scale * (cos theta, sin theta)`.
#[derive(Debug, Clone, Copy, PartialEq, Eq, Structural)]
pub struct Similarity {
    pub a: i128,
    pub b: i128,
    pub tx: i128,
    pub ty: i128,
    pub den: i128,
}

impl Similarity {
    pub open spec fn wf(self) -> bool {
        self.den > 0
    }

    /// The identity transform.
    pub fn identity() -> (r: Similarity)
        ensures
            r.wf(),
            r.a == 1 && r.b == 0 && r.tx == 0 && r.ty == 0 && r.den == 1,
    {
        Similarity { a: 1, b: 0, tx: 0, ty: 0, den: 1 }
    }
}

/// A general affine transform held as one exact rational matrix: it maps a
/// point `p` to `M p + t` where `M = [[a, b], [c, d]] / den` and
/// `t = (tx, ty) / den`.
#[derive(Debug, Clone, Copy, PartialEq, Eq, Structural)]
pub struct Affine {
    pub a: i128,
    pub b: i128,
    pub c: i128,
    pub d: i128,
    pub tx: i128,
    pub ty: i128,
    pub den: i128,
}

impl Affine {
    pub open spec fn wf(self) -> bool {
        self.den > 0
    }
}

/// Schema-only placeholder: a projective transform; no fitting is provided.
#[derive(Debug, Clone)]
pub struct Homography {
    pub params: Vec<i64>,
}

/// Schema-only placeholder: a thin-plate spline; no fitting is provided.
#[derive(Debug, Clone)]
pub struct Tps {
    pub control_points: Vec<Pt>,
    pub lambda: i64,
}

/// Schema-only placeholder: a free-form deformation; no fitting is provided.
#[derive(Debug, Clone)]
pub struct Ffd {
    pub control_points: Vec<Pt>,
    pub grid_cols: usize,
    pub grid_rows: usize,
}

/// The closed set of transform families the data schema can represent.
#[derive(Debug, Clone)]
pub enum TransformKind {
    Similarity(Similarity),
    Affine(Affine),
    Homography(Homography),
    Tps(Tps),
    Ffd(Ffd),
}

/// An ordered sequence of transforms applied in composition order.
#[derive(Debug, Clone)]
pub struct TransformStack {
    pub transforms: Vec<TransformKind>,
}

impl TransformStack {
    pub fn empty() -> (r: TransformStack)
        ensures
            r.transforms@.len() == 0,
    {
        TransformStack { transforms: Vec::new() }
    }
}

/// Calibrated error metrics for one solve, in the unit named by `unit`.
/// Values are exact rationals so unit conversion is an exact rescaling.
#[derive(Debug, Clone)]
pub struct QualityMetrics {
    /// Root-mean-square residual.
    pub rmse: Rat,
    /// 90th-percentile residual by nearest rank.
    pub p90_error: Rat,
    /// All residuals, in the order of the filtered pair list.
    pub residuals: Vec<Rat>,
    /// Residual of every point-pair constraint, keyed by constraint id.
    pub residuals_by_id: Vec<(u64, Rat)>,
    /// Stability warnings raised while solving.
    pub warnings: Vec<Warning>,
    /// Unit in which the numeric fields are expressed.
    pub unit: ErrorUnit,
    /// Map-scale denominator (e.g. 10000 for 1:10000), kept when reporting
    /// in map millimeters.
    pub map_scale: Option<u64>,
}

impl QualityMetrics {
    /// All rational fields are well formed.
    pub open spec fn wf(self) -> bool {
        &&& self.rmse.wf()
        &&& self.p90_error.wf()
        &&& forall|i: int| 0 <= i < self.residuals@.len() ==> self.residuals@[i].wf()
        &&& forall|i: int| 0 <= i < self.residuals_by_id@.len()
            ==> self.residuals_by_id@[i].1.wf()
    }
}

/// A solver warning. The UI shows `message()`; contracts speak of the
/// variant itself.
#[derive(Debug, Clone, Copy, PartialEq, Eq, Structural)]
pub enum Warning {
    /// The pooled variance of the source points is below the stability
    /// threshold; the fit may be unstable.
    LowSourceVariance,
}

impl Warning {
    /// The user-facing text of the warning.
    pub fn message(&self) -> String {
        match self {
            Warning::LowSourceVariance => {
                "Low variance in source points; results may be unstable".to_owned()
            },
        }
    }
}

} // verus!
