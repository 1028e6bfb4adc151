//! Unit conversion for quality metrics: every numeric field is rescaled in
//! place by an exact rational factor chosen from the source/target unit
//! pair, so conversions compose and invert without rounding.

use vstd::prelude::*;

use crate::algebra::fits_i128;
use crate::model::{QualityMetrics, Rat};
use crate::{ErrorUnit, FitError};

verus! {

/// Numerator of the conversion factor from `from` to `to`, given the
/// ground size of one pixel in meters (`ps`) and an optional map-scale
/// denominator. A conversion that needs a map scale and lacks one falls
/// back to the factor 1 (a silent no-op), matching the unit model.
pub open spec fn factor_num(from: ErrorUnit, to: ErrorUnit, ps: Rat, scale: Option<u64>) -> int {
    match (from, to) {
        (ErrorUnit::Pixels, ErrorUnit::Meters) => ps.num as int,
        (ErrorUnit::Meters, ErrorUnit::Pixels) => ps.den as int,
        (ErrorUnit::Pixels, ErrorUnit::MapMillimeters) => match scale {
            Some(s) => ps.num * 1000,
            None => 1,
        },
        (ErrorUnit::MapMillimeters, ErrorUnit::Pixels) => match scale {
            Some(s) => ps.den * (s as int),
            None => 1,
        },
        (ErrorUnit::Meters, ErrorUnit::MapMillimeters) => match scale {
            Some(s) => 1000,
            None => 1,
        },
        (ErrorUnit::MapMillimeters, ErrorUnit::Meters) => match scale {
            Some(s) => s as int,
            None => 1,
        },
        _ => 1,
    }
}

/// Denominator of the conversion factor from `from` to `to`.
pub open spec fn factor_den(from: ErrorUnit, to: ErrorUnit, ps: Rat, scale: Option<u64>) -> int {
    match (from, to) {
        (ErrorUnit::Pixels, ErrorUnit::Meters) => ps.den as int,
        (ErrorUnit::Meters, ErrorUnit::Pixels) => ps.num as int,
        (ErrorUnit::Pixels, ErrorUnit::MapMillimeters) => match scale {
            Some(s) => ps.den * (s as int),
            None => 1,
        },
        (ErrorUnit::MapMillimeters, ErrorUnit::Pixels) => match scale {
            Some(s) => ps.num * 1000,
            None => 1,
        },
        (ErrorUnit::Meters, ErrorUnit::MapMillimeters) => match scale {
            Some(s) => s as int,
            None => 1,
        },
        (ErrorUnit::MapMillimeters, ErrorUnit::Meters) => match scale {
            Some(s) => 1000,
            None => 1,
        },
        _ => 1,
    }
}

/// Whether rescaling one rational by the factor stays in machine range.
pub open spec fn scaled_fits(v: Rat, fnum: int, fden: int) -> bool {
    fits_i128(v.num * fnum) && fits_i128(v.den * fden)
}

/// Whether computing the conversion factor itself stays in machine range:
/// only the two pixel/map-millimeter directions multiply values.
pub open spec fn factor_fits(from: ErrorUnit, to: ErrorUnit, ps: Rat, scale: Option<u64>) -> bool {
    match (from, to) {
        (ErrorUnit::Pixels, ErrorUnit::MapMillimeters) => match scale {
            Some(s) => fits_i128(ps.num * 1000) && fits_i128(ps.den * (s as int)),
            None => true,
        },
        (ErrorUnit::MapMillimeters, ErrorUnit::Pixels) => match scale {
            Some(s) => fits_i128(ps.den * (s as int)) && fits_i128(ps.num * 1000),
            None => true,
        },
        _ => true,
    }
}

/// Whether rescaling every numeric field of the metrics by the factor
/// stays in machine range.
pub open spec fn convert_fits(m: QualityMetrics, fnum: int, fden: int) -> bool {
    &&& scaled_fits(m.rmse, fnum, fden)
    &&& scaled_fits(m.p90_error, fnum, fden)
    &&& forall|i: int| 0 <= i < m.residuals@.len() ==> scaled_fits(
        #[trigger] m.residuals@[i],
        fnum,
        fden,
    )
    &&& forall|i: int| 0 <= i < m.residuals_by_id@.len() ==> scaled_fits(
        (#[trigger] m.residuals_by_id@[i]).1,
        fnum,
        fden,
    )
}

impl QualityMetrics {
    /// Converts the metrics to the requested unit, rewriting `rmse`, the
    /// 90th-percentile error, every residual and every id-keyed residual
    /// in place by the factor of the unit pair. `pixel_size` is the ground
    /// distance one reference pixel covers, in meters. A conversion
    /// touching map millimeters requires `map_scale` (the denominator,
    /// e.g. 10000 for 1:10000); without it the factor silently stays 1.
    /// The stored map scale is replaced only when the target unit is map
    /// millimeters. On `OutOfRange` the metrics are left unchanged.
    pub fn convert_units(
        &mut self,
        pixel_size: Rat,
        map_scale: Option<u64>,
        target: ErrorUnit,
    ) -> (r: Result<(), FitError>)
        requires
            old(self).wf(),
            pixel_size.wf(),
            pixel_size.num > 0,
            map_scale matches Some(s) ==> s > 0,
        ensures
            r is Err ==> *final(self) == *old(self) && r == Err::<(), FitError>(
                FitError::OutOfRange,
            ),
            r is Ok <==> factor_fits(old(self).unit, target, pixel_size, map_scale)
                && convert_fits(
                *old(self),
                factor_num(old(self).unit, target, pixel_size, map_scale),
                factor_den(old(self).unit, target, pixel_size, map_scale),
            ),
            r matches Ok(()) ==> {
                let fnum = factor_num(old(self).unit, target, pixel_size, map_scale);
                let fden = factor_den(old(self).unit, target, pixel_size, map_scale);
                &&& final(self).rmse.num == old(self).rmse.num * fnum
                &&& final(self).rmse.den == old(self).rmse.den * fden
                &&& final(self).p90_error.num == old(self).p90_error.num * fnum
                &&& final(self).p90_error.den == old(self).p90_error.den * fden
                &&& final(self).residuals@.len() == old(self).residuals@.len()
                &&& forall|i: int|
                    0 <= i < old(self).residuals@.len() ==> {
                        let w = #[trigger] final(self).residuals@[i];
                        w.num == old(self).residuals@[i].num * fnum && w.den == old(
                            self,
                        ).residuals@[i].den * fden
                    }
                &&& final(self).residuals_by_id@.len() == old(self).residuals_by_id@.len()
                &&& forall|i: int|
                    0 <= i < old(self).residuals_by_id@.len() ==> {
                        let w = #[trigger] final(self).residuals_by_id@[i];
                        w.0 == old(self).residuals_by_id@[i].0 && w.1.num == old(
                            self,
                        ).residuals_by_id@[i].1.num * fnum && w.1.den == old(
                            self,
                        ).residuals_by_id@[i].1.den * fden
                    }
                &&& final(self).warnings@ == old(self).warnings@
                &&& final(self).unit == target
                &&& final(self).map_scale == if target is MapMillimeters {
                    map_scale
                } else {
                    old(self).map_scale
                }
                &&& final(self).wf()
            },
    {
        let (fnum, fden) = match conv_factor(self.unit, target, pixel_size, map_scale) {
            Some(f) => f,
            None => { return Err(FitError::OutOfRange); },
        };
        let rmse = match scale_rat(self.rmse, fnum, fden) {
            Some(v) => v,
            None => { return Err(FitError::OutOfRange); },
        };
        let p90 = match scale_rat(self.p90_error, fnum, fden) {
            Some(v) => v,
            None => { return Err(FitError::OutOfRange); },
        };
        let mut residuals: Vec<Rat> = Vec::new();
        let n = self.residuals.len();
        for i in 0..n
            invariant
                n == self.residuals@.len(),
                self == old(self),
                fden > 0,
                fnum == factor_num(old(self).unit, target, pixel_size, map_scale),
                fden == factor_den(old(self).unit, target, pixel_size, map_scale),
                forall|k: int| 0 <= k < self.residuals@.len() ==> (
                #[trigger] self.residuals@[k]).wf(),
                residuals@.len() == i,
                forall|k: int|
                    0 <= k < i ==> (#[trigger] residuals@[k]).num == self.residuals@[k].num
                        * fnum && residuals@[k].den == self.residuals@[k].den * fden
                        && residuals@[k].wf(),
                forall|k: int| 0 <= k < i ==> scaled_fits(
                    #[trigger] self.residuals@[k],
                    fnum as int,
                    fden as int,
                ),
        {
            match scale_rat(self.residuals[i], fnum, fden) {
                Some(v) => { residuals.push(v); },
                None => { return Err(FitError::OutOfRange); },
            }
        }
        let mut by_id: Vec<(u64, Rat)> = Vec::new();
        let m = self.residuals_by_id.len();
        for i in 0..m
            invariant
                m == self.residuals_by_id@.len(),
                self == old(self),
                fden > 0,
                fnum == factor_num(old(self).unit, target, pixel_size, map_scale),
                fden == factor_den(old(self).unit, target, pixel_size, map_scale),
                forall|k: int| 0 <= k < self.residuals_by_id@.len() ==> (
                #[trigger] self.residuals_by_id@[k]).1.wf(),
                by_id@.len() == i,
                forall|k: int|
                    0 <= k < i ==> (#[trigger] by_id@[k]).0 == self.residuals_by_id@[k].0
                        && by_id@[k].1.num == self.residuals_by_id@[k].1.num * fnum
                        && by_id@[k].1.den == self.residuals_by_id@[k].1.den * fden
                        && by_id@[k].1.wf(),
                forall|k: int| 0 <= k < i ==> scaled_fits(
                    (#[trigger] self.residuals_by_id@[k]).1,
                    fnum as int,
                    fden as int,
                ),
        {
            let (id, v) = self.residuals_by_id[i];
            match scale_rat(v, fnum, fden) {
                Some(w) => { by_id.push((id, w)); },
                None => { return Err(FitError::OutOfRange); },
            }
        }
        self.rmse = rmse;
        self.p90_error = p90;
        self.residuals = residuals;
        self.residuals_by_id = by_id;
        self.unit = target;
        if matches!(target, ErrorUnit::MapMillimeters) {
            self.map_scale = map_scale;
        }
        Ok(())
    }
}

/// Computes the conversion factor for a unit pair, or `None` when it
/// leaves the machine range.
fn conv_factor(from: ErrorUnit, to: ErrorUnit, ps: Rat, scale: Option<u64>) -> (r: Option<
    (i128, i128),
>)
    requires
        ps.wf(),
        ps.num > 0,
        scale matches Some(s) ==> s > 0,
    ensures
        r matches Some(f) ==> f.0 == factor_num(from, to, ps, scale) && f.1 == factor_den(
            from,
            to,
            ps,
            scale,
        ) && f.1 > 0,
        r is Some <==> factor_fits(from, to, ps, scale),
{
    match (from, to) {
        (ErrorUnit::Pixels, ErrorUnit::Meters) => Some((ps.num, ps.den)),
        (ErrorUnit::Meters, ErrorUnit::Pixels) => Some((ps.den, ps.num)),
        (ErrorUnit::Pixels, ErrorUnit::MapMillimeters) => match scale {
            Some(s) => {
                let num = ps.num.checked_mul(1000)?;
                let den = ps.den.checked_mul(s as i128)?;
                proof {
                    assert(ps.den as int * (s as int) > 0) by (nonlinear_arith)
                        requires
                            ps.den as int > 0,
                            s as int > 0,
                    ;
                }
                Some((num, den))
            },
            None => Some((1, 1)),
        },
        (ErrorUnit::MapMillimeters, ErrorUnit::Pixels) => match scale {
            Some(s) => {
                let num = ps.den.checked_mul(s as i128)?;
                let den = ps.num.checked_mul(1000)?;
                proof {
                    assert(ps.num as int * 1000 > 0) by (nonlinear_arith)
                        requires
                            ps.num as int > 0,
                    ;
                }
                Some((num, den))
            },
            None => Some((1, 1)),
        },
        (ErrorUnit::Meters, ErrorUnit::MapMillimeters) => match scale {
            Some(s) => Some((1000, s as i128)),
            None => Some((1, 1)),
        },
        (ErrorUnit::MapMillimeters, ErrorUnit::Meters) => match scale {
            Some(s) => Some((s as i128, 1000)),
            None => Some((1, 1)),
        },
        _ => Some((1, 1)),
    }
}

/// Rescales one rational by a factor, or `None` when it leaves the
/// machine range.
fn scale_rat(v: Rat, fnum: i128, fden: i128) -> (r: Option<Rat>)
    requires
        v.wf(),
        fden > 0,
    ensures
        r is Some <==> scaled_fits(v, fnum as int, fden as int),
        r matches Some(w) ==> w.num == v.num * fnum && w.den == v.den * fden && w.wf(),
{
    let num = v.num.checked_mul(fnum)?;
    let den = v.den.checked_mul(fden)?;
    proof {
        assert(v.den as int * fden as int > 0) by (nonlinear_arith)
            requires
                v.den as int > 0,
                fden as int > 0,
        ;
    }
    Some(Rat { num, den })
}

/// Unit round trip: converting a value from pixels to meters and back
/// with one fixed pixel size multiplies its numerator and denominator by
/// the same positive quantity, so the result denotes exactly the original
/// rational value.
pub proof fn lemma_unit_round_trip(v: Rat, ps: Rat)
    requires
        v.wf(),
        ps.wf(),
        ps.num > 0,
    ensures
        ({
            let n1 = v.num * factor_num(ErrorUnit::Pixels, ErrorUnit::Meters, ps, None);
            let d1 = v.den * factor_den(ErrorUnit::Pixels, ErrorUnit::Meters, ps, None);
            let n2 = n1 * factor_num(ErrorUnit::Meters, ErrorUnit::Pixels, ps, None);
            let d2 = d1 * factor_den(ErrorUnit::Meters, ErrorUnit::Pixels, ps, None);
            n2 * v.den == v.num * d2 && d2 > 0
        }),
{
    let n2 = (v.num * ps.num) * ps.den;
    let d2 = (v.den * ps.den) * ps.num;
    assert(n2 * v.den == v.num * d2) by (nonlinear_arith)
        requires
            n2 == (v.num * ps.num) * ps.den,
            d2 == (v.den * ps.den) * ps.num,
    ;
    assert(d2 > 0) by (nonlinear_arith)
        requires
            d2 == (v.den * ps.den) * ps.num,
            v.den > 0,
            ps.den > 0,
            ps.num > 0,
    ;
}

} // verus!
