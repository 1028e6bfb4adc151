//! Robust similarity fitting by random-sample consensus: repeated minimal
//! two-pair fits, inlier counting under a pixel threshold, and a refit over
//! the full inlier set of the best candidate.

use vstd::prelude::*;

use rand::Rng;

use crate::fit::{fit_input_ok, fit_nn, fit_result, fit_similarity_from_pairs, pair_bounded};
use crate::model::{PairPt, Similarity};
use crate::num::lemma_sq_le;
use crate::quality::{res_ok, res_sq, residual_of};
use crate::FitError;

verus! {

/// Relies on rand's `thread_rng` and `Rng::gen_range`: returns an index
/// drawn uniformly below `n`. Nothing more is assumed of the draw.
#[verifier::external_body]
fn rand_index(n: usize) -> (r: usize)
    requires
        n >= 1,
    ensures
        r < n,
{
    rand::thread_rng().gen_range(0..n)
}

/// Draws two distinct indices below `n`, uniformly without replacement.
fn sample_two(n: usize) -> (r: (usize, usize))
    requires
        n >= 2,
    ensures
        r.0 < n,
        r.1 < n,
        r.0 != r.1,
{
    let i = rand_index(n);
    let j0 = rand_index(n - 1);
    let j = if j0 >= i {
        j0 + 1
    } else {
        j0
    };
    (i, j)
}

/// Whether `p` is an inlier of `t` under the threshold: its residual is
/// representable and its squared error is below the squared threshold
/// (so the residual norm is strictly below the threshold).
pub open spec fn is_inlier(t: Similarity, p: PairPt, thr: int) -> bool {
    res_ok(&t, p) && res_sq(&t, p) < thr * thr
}

/// The inliers of `t` among `ps`, in input order.
pub open spec fn inlier_seq(t: Similarity, ps: Seq<PairPt>, thr: int) -> Seq<PairPt>
    decreases ps.len(),
{
    if ps.len() == 0 {
        Seq::empty()
    } else {
        let rest = inlier_seq(t, ps.drop_last(), thr);
        if is_inlier(t, ps.last(), thr) {
            rest.push(ps.last())
        } else {
            rest
        }
    }
}

/// Whether `t` is the untouched starting model, or the exact least-squares
/// refit over the full inlier set (under `thr`) of a minimal candidate
/// fitted to two distinct pairs of `ps`. Which sample was drawn depends on
/// the random source, so no more can be promised of a returned model.
pub open spec fn ransac_model(t: Similarity, ps: Seq<PairPt>, thr: int) -> bool {
    ||| t == (Similarity { a: 1, b: 0, tx: 0, ty: 0, den: 1 })
    ||| exists|i: int, j: int, cand: Similarity|
        #![trigger ps[i], ps[j], inlier_seq(cand, ps, thr)]
        {
            let s = seq![ps[i], ps[j]];
            let inl = inlier_seq(cand, ps, thr);
            &&& 0 <= i < ps.len() && 0 <= j < ps.len() && i != j
            &&& cand.wf() && fit_nn(s) > 0 && cand.v() == fit_result(s)
            &&& inl.len() >= 2 && fit_nn(inl) > 0
            &&& t.v() == fit_result(inl)
        }
}

/// Collects the inliers of `t` among `pairs` under the threshold.
fn collect_inliers(t: &Similarity, pairs: &Vec<PairPt>, threshold: i64) -> (r: Vec<PairPt>)
    requires
        t.wf(),
        fit_input_ok(pairs@),
        threshold > 0,
    ensures
        r@ == inlier_seq(*t, pairs@, threshold as int),
        fit_input_ok(r@),
{
    let mut out: Vec<PairPt> = Vec::new();
    let n = pairs.len();
    for i in 0..n
        invariant
            n == pairs@.len(),
            t.wf(),
            fit_input_ok(pairs@),
            threshold > 0,
            out@ == inlier_seq(*t, pairs@.take(i as int), threshold as int),
            out@.len() <= i,
            forall|k: int| 0 <= k < out@.len() ==> pair_bounded(#[trigger] out@[k]),
    {
        proof {
            assert(pairs@.take(i + 1).drop_last() =~= pairs@.take(i as int));
            assert(pairs@.take(i + 1).last() == pairs@[i as int]);
        }
        let p = pairs[i];
        match residual_of(t, p) {
            Some(v) => {
                if v < threshold {
                    proof {
                        lemma_sq_le(v as int + 1, threshold as int);
                        assert(is_inlier(*t, p, threshold as int));
                    }
                    out.push(p);
                } else {
                    proof {
                        lemma_sq_le(threshold as int, v as int);
                        assert(!is_inlier(*t, p, threshold as int));
                    }
                }
            },
            None => {
                proof {
                    assert(!is_inlier(*t, p, threshold as int));
                }
            },
        }
    }
    proof {
        assert(pairs@.take(n as int) =~= pairs@);
    }
    out
}

/// Fits a similarity robustly: each iteration draws two distinct pairs at
/// random, fits a minimal candidate, and counts its inliers (pairs whose
/// residual norm is strictly below the threshold); when a candidate beats
/// the best inlier count so far, a refit over all of its inliers becomes
/// the new best model. Fails with `InsufficientData` on fewer than 2
/// pairs, `InvalidParameter` on a non-positive threshold, and
/// `NoModelFound` when no iteration produced a single inlier (zero
/// iterations included). The sampler is a process-level random source,
/// so which candidate wins is not promised; any returned model is the
/// exact least-squares refit over the full inlier set of some sampled
/// two-pair candidate of the input.
pub fn ransac_fit_similarity(pairs: &Vec<PairPt>, threshold: i64, max_iters: usize) -> (r:
    Result<Similarity, FitError>)
    requires
        fit_input_ok(pairs@),
    ensures
        r == Err::<Similarity, FitError>(FitError::InsufficientData) <==> pairs@.len() < 2,
        pairs@.len() >= 2 ==> (r == Err::<Similarity, FitError>(FitError::InvalidParameter)
            <==> threshold <= 0),
        pairs@.len() >= 2 && threshold > 0 ==> r is Ok || r == Err::<Similarity, FitError>(
            FitError::NoModelFound,
        ),
        pairs@.len() >= 2 && threshold > 0 && max_iters == 0 ==> r == Err::<
            Similarity,
            FitError,
        >(FitError::NoModelFound),
        r matches Ok(t) ==> t.wf() && ransac_model(t, pairs@, threshold as int),
{
    let n = pairs.len();
    if n < 2 {
        return Err(FitError::InsufficientData);
    }
    if threshold <= 0 {
        return Err(FitError::InvalidParameter);
    }
    let mut best_inliers: usize = 0;
    let mut best = Similarity::identity();
    for _it in 0..max_iters
        invariant
            n == pairs@.len(),
            n >= 2,
            fit_input_ok(pairs@),
            threshold > 0,
            best.wf(),
            ransac_model(best, pairs@, threshold as int),
            _it == 0 ==> best_inliers == 0,
    {
        let (i, j) = sample_two(n);
        let mut sample: Vec<PairPt> = Vec::new();
        sample.push(pairs[i]);
        sample.push(pairs[j]);
        proof {
            assert(forall|k: int|
                0 <= k < sample@.len() ==> pair_bounded(#[trigger] sample@[k]));
        }
        match fit_similarity_from_pairs(&sample) {
            Ok(cand) => {
                let inliers = collect_inliers(&cand, pairs, threshold);
                if inliers.len() > best_inliers {
                    best_inliers = inliers.len();
                    match fit_similarity_from_pairs(&inliers) {
                        Ok(refit) => {
                            proof {
                                let ghost s = seq![pairs@[i as int], pairs@[j as int]];
                                assert(sample@ =~= s);
                                let ghost inl = inlier_seq(
                                    cand,
                                    pairs@,
                                    threshold as int,
                                );
                                assert(inliers@ == inl);
                                assert(inl.len() >= 2 && fit_nn(inl) > 0 && refit.v()
                                    == fit_result(inl));
                                assert(cand.wf() && fit_nn(s) > 0 && cand.v()
                                    == fit_result(s));
                                assert(ransac_model(refit, pairs@, threshold as int));
                            }
                            best = refit;
                        },
                        Err(_) => {},
                    }
                }
            },
            Err(_) => {},
        }
    }
    if best_inliers == 0 {
        return Err(FitError::NoModelFound);
    }
    Ok(best)
}

} // verus!
