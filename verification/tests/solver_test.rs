use georeg::algebra::{compose_similarity, invert_similarity, Transform};
use georeg::fit::fit_similarity_from_pairs;
use georeg::afffit::fit_affine_from_pairs;
use georeg::filter::pairs_from_constraints;
use georeg::model::{ConstraintKind, PairPt, Pt, Similarity};
use georeg::ransac::ransac_fit_similarity;
use georeg::FitError;

// One pixel is 100 fixed-point units.
const U: f64 = 100.0;

fn pt(x_px: f64, y_px: f64) -> Pt {
    Pt { x: (x_px * U).round() as i64, y: (y_px * U).round() as i64 }
}

fn pair(sx: f64, sy: f64, dx: f64, dy: f64) -> PairPt {
    PairPt { src: pt(sx, sy), dst: pt(dx, dy) }
}

/// Scale, angle and translation (in pixels) of a rational similarity.
fn sim_params(t: &Similarity) -> (f64, f64, f64, f64) {
    let a = t.a as f64 / t.den as f64;
    let b = t.b as f64 / t.den as f64;
    let s = (a * a + b * b).sqrt();
    let theta = b.atan2(a);
    let tx = t.tx as f64 / t.den as f64 / U;
    let ty = t.ty as f64 / t.den as f64 / U;
    (s, theta, tx, ty)
}

/// Builds the rational similarity for float parameters `[s, theta, tx, ty]`.
fn sim_of(s: f64, theta: f64, tx_px: f64, ty_px: f64) -> Similarity {
    let den = 1_000_000i128;
    Similarity {
        a: (s * theta.cos() * den as f64).round() as i128,
        b: (s * theta.sin() * den as f64).round() as i128,
        tx: (tx_px * U * den as f64).round() as i128,
        ty: (ty_px * U * den as f64).round() as i128,
        den,
    }
}

#[test]
fn test_pairs_extraction_filters_bad() {
    let v = vec![
        // valid
        ConstraintKind::PointPair {
            id: 1,
            src: pt(0.0, 0.0),
            dst: pt(10.0, 0.0),
            dst_real: None,
            dst_local: None,
            weight: 1000,
        },
        // duplicate
        ConstraintKind::PointPair {
            id: 2,
            src: pt(0.0, 0.0),
            dst: pt(10.0, 0.0),
            dst_real: None,
            dst_local: None,
            weight: 1000,
        },
        // degenerate (src == dst)
        ConstraintKind::PointPair {
            id: 3,
            src: pt(5.0, 5.0),
            dst: pt(5.0, 5.0),
            dst_real: None,
            dst_local: None,
            weight: 1000,
        },
    ];
    let pairs = pairs_from_constraints(&v);
    assert_eq!(pairs.len(), 1);
    assert_eq!(pairs[0].src, pt(0.0, 0.0));
    assert_eq!(pairs[0].dst, pt(10.0, 0.0));
}

#[test]
fn test_similarity_apply() {
    let t = sim_of(2.0, 0.0, 1.0, 2.0);
    let p = pt(1.0, 1.0);
    let p2 = t.apply(p).unwrap();
    assert!((p2.x as f64 / U - 3.0).abs() < 1e-6);
    assert!((p2.y as f64 / U - 4.0).abs() < 1e-6);
}

#[test]
fn test_fit_similarity_from_pairs_identity() {
    let pairs = vec![
        pair(0.0, 0.0, 0.0, 0.0),
        pair(1.0, 0.0, 1.0, 0.0),
        pair(0.0, 1.0, 0.0, 1.0),
    ];
    let t = fit_similarity_from_pairs(&pairs).unwrap();
    let (s, theta, tx, ty) = sim_params(&t);
    assert!((s - 1.0).abs() < 1e-6);
    assert!(theta.abs() < 1e-6);
    assert!(tx.abs() < 1e-6);
    assert!(ty.abs() < 1e-6);
}

#[test]
fn test_fit_affine_from_pairs() {
    // affine: x' = 1*x + 2*y + 5, y' = 3*x + 4*y + 6
    let pairs = vec![
        pair(0.0, 0.0, 5.0, 6.0),
        pair(1.0, 0.0, 6.0, 9.0),
        pair(0.0, 1.0, 7.0, 10.0),
    ];
    let t = fit_affine_from_pairs(&pairs).unwrap();
    let den = t.den as f64;
    assert!((t.a as f64 / den - 1.0).abs() < 1e-6);
    assert!((t.b as f64 / den - 2.0).abs() < 1e-6);
    assert!((t.c as f64 / den - 3.0).abs() < 1e-6);
    assert!((t.d as f64 / den - 4.0).abs() < 1e-6);
    assert!((t.tx as f64 / den / U - 5.0).abs() < 1e-6);
    assert!((t.ty as f64 / den / U - 6.0).abs() < 1e-6);
}

#[test]
fn test_ransac_fit_similarity_recovers() {
    let (s, theta, tx, ty) = (1.5f64, 0.2f64, 5.0f64, -3.0f64);
    let mut pairs = Vec::new();
    for i in 0..20 {
        let px = i as f64;
        let py = (i as f64) * 0.5;
        let qx = s * (theta.cos() * px - theta.sin() * py) + tx;
        let qy = s * (theta.sin() * px + theta.cos() * py) + ty;
        pairs.push(pair(px, py, qx, qy));
    }
    // add an outlier
    pairs.push(pair(100.0, 100.0, -100.0, -100.0));
    let t = ransac_fit_similarity(&pairs, (1.0 * U) as i64, 100).unwrap();
    let (rs, rtheta, rtx, rty) = sim_params(&t);
    assert!((rs - s).abs() < 1e-2);
    assert!((rtheta - theta).abs() < 1e-2);
    assert!((rtx - tx).abs() < 1e-2);
    assert!((rty - ty).abs() < 1e-2);
}

#[test]
fn test_similarity_invert_compose() {
    let t = sim_of(1.2, 0.3, 4.0, -2.0);
    let inv = invert_similarity(&t).unwrap();
    let composed = compose_similarity(&t, &inv).unwrap();
    // composed should be the identity, exactly at this resolution
    let p = pt(2.0, -1.0);
    let q = composed.apply(p).unwrap();
    assert_eq!(q.x, p.x);
    assert_eq!(q.y, p.y);
}

#[test]
fn test_ransac_no_model_on_degenerate_sources() {
    // Every sample shares one source point, so no minimal fit succeeds.
    let pairs = vec![pair(0.0, 0.0, 1.0, 1.0), pair(0.0, 0.0, 2.0, 2.0)];
    let r = ransac_fit_similarity(&pairs, (1.0 * U) as i64, 50);
    assert_eq!(r, Err(FitError::NoModelFound));
}

#[test]
fn test_ransac_rejects_bad_threshold() {
    let pairs = vec![pair(0.0, 0.0, 1.0, 1.0), pair(1.0, 0.0, 2.0, 1.0)];
    assert_eq!(ransac_fit_similarity(&pairs, 0, 10), Err(FitError::InvalidParameter));
    let one = vec![pair(0.0, 0.0, 1.0, 1.0)];
    assert_eq!(
        ransac_fit_similarity(&one, (1.0 * U) as i64, 10),
        Err(FitError::InsufficientData)
    );
}

#[test]
fn test_fit_error_cases() {
    let one = vec![pair(0.0, 0.0, 1.0, 1.0)];
    assert_eq!(fit_similarity_from_pairs(&one), Err(FitError::InsufficientData));
    // all source points coincide: no variance
    let flat = vec![pair(1.0, 1.0, 2.0, 2.0), pair(1.0, 1.0, 3.0, 3.0)];
    assert_eq!(fit_similarity_from_pairs(&flat), Err(FitError::DegenerateGeometry));
    let two = vec![pair(0.0, 0.0, 1.0, 1.0), pair(1.0, 0.0, 2.0, 1.0)];
    assert_eq!(fit_affine_from_pairs(&two), Err(FitError::InsufficientData));
    // collinear sources: singular normal equations
    let line = vec![
        pair(0.0, 0.0, 1.0, 1.0),
        pair(1.0, 0.0, 2.0, 1.0),
        pair(2.0, 0.0, 3.0, 1.0),
    ];
    assert_eq!(fit_affine_from_pairs(&line), Err(FitError::DegenerateGeometry));
}
