use georeg::algebra::{compose_affine, similarity_to_affine, Transform};
use georeg::geokeys::{from_scale_and_tiepoint, geotiff_epsg, geotiff_raster_type};
use georeg::georef::{pixel_size, pixel_to_world, Georef};
use georeg::model::{ConstraintKind, PairPt, Pt, QualityMetrics, Rat, TransformKind, Warning};
use georeg::quality::{summarize_residuals, variance_low};
use georeg::session::{delete_constraint, solve_global, utm_zone};
use georeg::{ErrorUnit, FitError};

const U: i64 = 100;

fn pp(id: u64, sx: i64, sy: i64, dx: i64, dy: i64) -> ConstraintKind {
    ConstraintKind::PointPair {
        id,
        src: Pt { x: sx * U, y: sy * U },
        dst: Pt { x: dx * U, y: dy * U },
        dst_real: None,
        dst_local: None,
        weight: 1000,
    }
}

#[test]
fn test_p90_worked_example() {
    // residuals 1..10 pixels, ascending: p90 index floor(10 * 0.9) = 9
    let residuals: Vec<i64> = (1..=10).map(|v| v * U).collect();
    let (_rmse, p90, sorted) = summarize_residuals(&residuals);
    assert_eq!(p90, 10 * U);
    assert_eq!(sorted.len(), 10);
    assert_eq!(sorted[0], U);
    assert_eq!(sorted[9], 10 * U);
}

#[test]
fn test_summarize_rmse_exact() {
    // residuals 3 and 4 pixels: rmse = sqrt((9 + 16) / 2) = sqrt(12.5) px
    let residuals = vec![3 * U, 4 * U];
    let (rmse, p90, _sorted) = summarize_residuals(&residuals);
    let expected = (12.5f64).sqrt() * U as f64;
    assert!((rmse as f64 - expected).abs() <= 1.0);
    assert_eq!(p90, 4 * U);
}

#[test]
fn test_unit_round_trip() {
    let mut qm = QualityMetrics {
        rmse: Rat { num: 123, den: 100 },
        p90_error: Rat { num: 250, den: 100 },
        residuals: vec![Rat { num: 123, den: 100 }, Rat { num: 250, den: 100 }],
        residuals_by_id: vec![(7, Rat { num: 99, den: 100 })],
        warnings: vec![],
        unit: ErrorUnit::Pixels,
        map_scale: None,
    };
    let before = qm.clone();
    let ps = Rat { num: 25, den: 10 };
    qm.convert_units(ps, None, ErrorUnit::Meters).unwrap();
    assert_eq!(qm.unit, ErrorUnit::Meters);
    // 1.23 px at 2.5 m/px is 3.075 m
    assert_eq!(qm.rmse.num * 1000, 3075 * qm.rmse.den);
    qm.convert_units(ps, None, ErrorUnit::Pixels).unwrap();
    assert_eq!(qm.unit, ErrorUnit::Pixels);
    // the round trip preserves every value as a rational, exactly
    assert_eq!(qm.rmse.num * before.rmse.den, before.rmse.num * qm.rmse.den);
    assert_eq!(qm.p90_error.num * before.p90_error.den, before.p90_error.num * qm.p90_error.den);
    for (a, b) in qm.residuals.iter().zip(before.residuals.iter()) {
        assert_eq!(a.num * b.den, b.num * a.den);
    }
    assert_eq!(qm.residuals_by_id[0].0, 7);
}

#[test]
fn test_map_millimeters_factor() {
    let mut qm = QualityMetrics {
        rmse: Rat { num: 200, den: 100 },
        p90_error: Rat { num: 200, den: 100 },
        residuals: vec![],
        residuals_by_id: vec![],
        warnings: vec![],
        unit: ErrorUnit::Pixels,
        map_scale: None,
    };
    // 2 px at 2.5 m/px and scale 1:10000 is 0.5 map millimeters
    let ps = Rat { num: 25, den: 10 };
    qm.convert_units(ps, Some(10000), ErrorUnit::MapMillimeters).unwrap();
    assert_eq!(qm.unit, ErrorUnit::MapMillimeters);
    assert_eq!(qm.map_scale, Some(10000));
    assert_eq!(qm.rmse.num * 2, qm.rmse.den);
    // without a map scale the factor silently stays 1
    let mut qm2 = qm.clone();
    qm2.unit = ErrorUnit::Pixels;
    qm2.convert_units(ps, None, ErrorUnit::MapMillimeters).unwrap();
    assert_eq!(qm2.rmse.num, qm.rmse.num);
    assert_eq!(qm2.rmse.den, qm.rmse.den);
}

#[test]
fn test_low_variance_warning() {
    // all source points coincide: pooled variance is zero, below 1e-6
    let pooled = vec![
        PairPt { src: Pt { x: 0, y: 0 }, dst: Pt { x: 10 * U, y: 0 } },
        PairPt { src: Pt { x: 0, y: 0 }, dst: Pt { x: 0, y: 10 * U } },
    ];
    assert!(variance_low(&pooled));
    // the same request through the solver fails on degenerate geometry,
    // the warning having been computed before the fit
    let cs = vec![pp(1, 0, 0, 10, 0), pp(2, 0, 0, 0, 10)];
    assert!(matches!(
        solve_global(&cs, "similarity", "pixels", None, None),
        Err(FitError::DegenerateGeometry)
    ));
    // spread source points carry no warning
    let spread = vec![
        PairPt { src: Pt { x: 0, y: 0 }, dst: Pt { x: 0, y: 0 } },
        PairPt { src: Pt { x: 10 * U, y: 0 }, dst: Pt { x: 10 * U, y: 0 } },
    ];
    assert!(!variance_low(&spread));
}

#[test]
fn test_solve_global_exact_affine() {
    let cs = vec![
        pp(1, 0, 0, 5, 6),
        pp(2, 1, 0, 6, 9),
        pp(3, 0, 1, 7, 10),
        ConstraintKind::Anchor { id: 4, point: Pt { x: 0, y: 0 } },
    ];
    let (stack, qm) = solve_global(&cs, "affine", "pixels", Some(5000), None).unwrap();
    assert_eq!(stack.transforms.len(), 1);
    match &stack.transforms[0] {
        TransformKind::Affine(t) => {
            assert_eq!(t.a, t.den);
            assert_eq!(t.b, 2 * t.den);
            assert_eq!(t.c, 3 * t.den);
            assert_eq!(t.d, 4 * t.den);
        },
        _ => panic!("expected an affine transform"),
    }
    assert_eq!(qm.unit, ErrorUnit::Pixels);
    assert_eq!(qm.map_scale, Some(5000));
    assert!(qm.warnings.is_empty());
    assert_eq!(qm.residuals.len(), 3);
    // the fit is exact, so every residual and both summary metrics are zero
    assert_eq!(qm.rmse.num, 0);
    assert_eq!(qm.p90_error.num, 0);
    assert_eq!(qm.residuals_by_id.len(), 3);
    assert_eq!(qm.residuals_by_id[0].0, 1);
}

#[test]
fn test_solve_global_dispatch_errors() {
    let cs = vec![pp(1, 0, 0, 1, 1)];
    assert!(matches!(
        solve_global(&cs, "homography", "pixels", None, None),
        Err(FitError::UnsupportedMethod)
    ));
    assert!(matches!(
        solve_global(&cs, "similarity", "pixels", None, None),
        Err(FitError::InsufficientData)
    ));
    let cs2 = vec![pp(1, 0, 0, 1, 1), pp(2, 1, 0, 2, 1)];
    assert!(matches!(
        solve_global(&cs2, "affine", "pixels", None, None),
        Err(FitError::InsufficientData)
    ));
}

#[test]
fn test_solve_global_meters() {
    let cs = vec![pp(1, 0, 0, 1, 2), pp(2, 10, 0, 11, 2), pp(3, 0, 10, 1, 12)];
    let ps = Rat { num: 2, den: 1 };
    let (_stack, qm) = solve_global(&cs, "similarity", "meters", None, Some(ps)).unwrap();
    assert_eq!(qm.unit, ErrorUnit::Meters);
    assert_eq!(qm.rmse.num, 0);
}

#[test]
fn test_delete_constraint_by_id() {
    let mut cs = vec![pp(1, 0, 0, 1, 1), pp(2, 1, 1, 2, 2), pp(3, 2, 2, 3, 3)];
    delete_constraint(&mut cs, 2);
    assert_eq!(cs.len(), 2);
    assert_eq!(cs[0].id(), 1);
    assert_eq!(cs[1].id(), 3);
}

#[test]
fn test_geokey_directory_scan() {
    // header [*,*,*,count]; entries [key, location, count, value]
    let dir: Vec<u16> = vec![1, 1, 0, 2, 1025, 0, 1, 2, 3072, 0, 1, 32633];
    assert_eq!(geotiff_epsg(&dir), Some(32633));
    assert_eq!(geotiff_raster_type(&dir), Some(2));
    // a directory announcing more entries than it holds yields nothing
    let short: Vec<u16> = vec![1, 1, 0, 5, 3072, 0, 1, 32633];
    assert_eq!(geotiff_epsg(&short), None);
    // an entry whose value lives outside the directory is skipped
    let outline: Vec<u16> = vec![1, 1, 0, 1, 3072, 34737, 1, 7];
    assert_eq!(geotiff_epsg(&outline), None);
}

#[test]
fn test_scale_tiepoint_derivation() {
    // scale 1 px/unit, tiepoint maps pixel (0,0) to world (1000, 2000),
    // pixel-is-area: the origin shifts by half a pixel
    let g = from_scale_and_tiepoint(U, U, 0, 0, 1000 * U, 2000 * U, None, None).unwrap();
    assert_eq!(g.a, U);
    assert_eq!(g.e, -U);
    assert_eq!(g.b, 0);
    assert_eq!(g.d, 0);
    assert_eq!(g.c, 1000 * U + U / 2);
    assert_eq!(g.f, 2000 * U - U / 2);
    // pixel-is-point: the tiepoint is taken as the pixel center
    let g2 = from_scale_and_tiepoint(U, U, 0, 0, 1000 * U, 2000 * U, Some(2), None).unwrap();
    assert_eq!(g2.c, 1000 * U);
    assert_eq!(g2.f, 2000 * U);
}

#[test]
fn test_pixel_to_world_and_size() {
    let g = Georef { a: 3 * U, b: 0, d: 0, e: -4 * U, c: 50 * U, f: 1000 * U, crs: None };
    // pixel (10, 20): x = 3*10 + 50 = 80, y = -4*20 + 1000 = 920
    let (x, y) = pixel_to_world(&g, 10 * U, 20 * U);
    assert_eq!(x, (80 * U) as i128);
    assert_eq!(y, (920 * U) as i128);
    // pixel size: (|(3,0)| + |(0,-4)|) / 2 = 3.5 meters per pixel
    let ps = pixel_size(&g);
    assert_eq!(ps.num * 2, 7 * ps.den);
}

#[test]
fn test_utm_zone_of_longitude() {
    // lon -77.5 degrees: floor((180 - 77.5) / 6) = 17
    assert_eq!(utm_zone(-775 * 10), 17);
    assert_eq!(utm_zone(-180 * U), 1);
    assert_eq!(utm_zone(180 * U), 60);
    assert_eq!(utm_zone(0), 30);
}

#[test]
fn test_export_composition() {
    // map -> reference: scale 2, translation (1, 2) pixels
    let sim = georeg::model::Similarity { a: 200, b: 0, tx: 10_000, ty: 20_000, den: 100 };
    let map2ref = similarity_to_affine(&sim).unwrap();
    // reference pixel -> world: unit scale with offset (10, 20) world units
    let g = Georef { a: 100, b: 0, d: 0, e: 100, c: 1000, f: 2000, crs: None };
    let composed = compose_affine(&map2ref, &g.to_affine()).unwrap();
    // map pixel (1, 1) lands on reference (3, 4), then world (3 + 10, 4 + 20)
    let q = composed.apply(Pt { x: 100, y: 100 }).unwrap();
    assert_eq!(q.x, 1300);
    assert_eq!(q.y, 2400);
}

#[test]
fn test_world_file_candidates() {
    let c = georeg::worldfile::world_file_candidates("tif");
    assert_eq!(c, vec!["tfw".to_string(), "wld".to_string()]);
    let c = georeg::worldfile::world_file_candidates("jpeg");
    assert_eq!(c, vec!["jgw".to_string(), "j2w".to_string(), "wld".to_string()]);
    let c = georeg::worldfile::world_file_candidates("gif");
    assert_eq!(c, vec!["gfw".to_string(), "wld".to_string()]);
    let c = georeg::worldfile::world_file_candidates("bmp");
    assert_eq!(c, vec!["bpw".to_string(), "wld".to_string()]);
    let c = georeg::worldfile::world_file_candidates("xyz");
    assert_eq!(c, vec!["wld".to_string()]);
    let p = georeg::worldfile::prj_candidates();
    assert_eq!(p.len(), 5);
    assert_eq!(p[0], "prj");
    assert_eq!(p[4], "WKT");
}

#[test]
fn test_residuals_keep_input_order() {
    // an inexact similarity problem: each stored residual must belong to
    // its own pair, in the order of the filtered list
    let cs = vec![pp(1, 0, 0, 1, 0), pp(2, 10, 0, 11, 0), pp(3, 0, 10, 1, 11)];
    let (stack, qm) = solve_global(&cs, "similarity", "pixels", None, None).unwrap();
    let pairs = georeg::filter::pairs_from_constraints(&cs);
    assert_eq!(qm.residuals.len(), pairs.len());
    match &stack.transforms[0] {
        TransformKind::Similarity(t) => {
            for k in 0..pairs.len() {
                let expected = georeg::quality::residual_of(t, pairs[k]).unwrap();
                assert_eq!(qm.residuals[k].num, expected as i128);
            }
        },
        _ => panic!("expected a similarity transform"),
    }
}

#[test]
fn test_ransac_zero_iterations() {
    let cs = vec![
        PairPt { src: Pt { x: 0, y: 0 }, dst: Pt { x: U, y: 0 } },
        PairPt { src: Pt { x: 10 * U, y: 0 }, dst: Pt { x: 11 * U, y: 0 } },
    ];
    assert_eq!(
        georeg::ransac::ransac_fit_similarity(&cs, U, 0),
        Err(FitError::NoModelFound)
    );
}

#[test]
fn test_add_constraint_caches_world() {
    let g = Georef { a: 2 * U, b: 0, d: 0, e: 2 * U, c: 100 * U, f: 200 * U, crs: None };
    let mut list: Vec<ConstraintKind> = Vec::new();
    georeg::session::add_constraint(&mut list, pp(1, 0, 0, 3, 4), Some(&g), None);
    match &list[0] {
        ConstraintKind::PointPair { dst_real, dst_local, .. } => {
            // dst (3, 4) maps to world (2*3 + 100, 2*4 + 200) = (106, 208)
            assert_eq!(*dst_real, Some(Pt { x: 106 * U, y: 208 * U }));
            assert_eq!(*dst_local, None);
        },
        _ => panic!("expected a point pair"),
    }
    // a caller-supplied value is never overwritten, and without a cached
    // georeferencing nothing is filled
    let filled = ConstraintKind::PointPair {
        id: 2,
        src: Pt { x: 0, y: 0 },
        dst: Pt { x: U, y: U },
        dst_real: Some(Pt { x: 7, y: 8 }),
        dst_local: None,
        weight: 1000,
    };
    georeg::session::add_constraint(&mut list, filled, Some(&g), Some(Pt { x: 1, y: 2 }));
    match &list[1] {
        ConstraintKind::PointPair { dst_real, dst_local, .. } => {
            assert_eq!(*dst_real, Some(Pt { x: 7, y: 8 }));
            assert_eq!(*dst_local, Some(Pt { x: 1, y: 2 }));
        },
        _ => panic!("expected a point pair"),
    }
    georeg::session::add_constraint(&mut list, pp(3, 1, 1, 2, 2), None, None);
    match &list[2] {
        ConstraintKind::PointPair { dst_real, dst_local, .. } => {
            assert_eq!(*dst_real, None);
            assert_eq!(*dst_local, None);
        },
        _ => panic!("expected a point pair"),
    }
}

#[test]
fn test_warning_message_text() {
    let w = Warning::LowSourceVariance;
    assert_eq!(w.message(), "Low variance in source points; results may be unstable");
}
