//! The deep-filtering operator.
//!
//! Deep filtering replaces the single-frame mask on the low `nb_df` bins by
//! an order-`df_order` causal complex FIR filter, applied independently per
//! frequency bin: the enhanced low bin `f` is the sum over lags `k` of
//! `coefs[k][f] * history[k][f]`, with fixed-point coefficients, descaled
//! once after the accumulation. All other bins pass through unchanged, and a
//! real, non-negative per-bin gain mask then scales the result; phase is
//! preserved by scaling both components alike.

use vstd::prelude::*;

verus! {

use crate::num::{
    Complex,
    COEF_LIMIT,
    FILTERED_LIMIT,
    GAIN_LIMIT,
    GAIN_ONE,
    ORDER_LIMIT,
    SAMPLE_LIMIT,
    cpx_in,
    descale,
    div_to_zero,
    frame_in,
    lemma_div_to_zero_bound,
    lemma_scaled_attenuates,
    lemma_scaled_one,
    lemma_scaled_zero,
    lemma_sq_ordered,
    mag_sq,
    mag_sq_parts,
    scale_component,
    scaled,
};
use crate::ring::SpectralBuffer;
use vstd::arithmetic::mul::lemma_mul_by_zero_is_zero;

/// Real part of one FIR term `c * z`.
pub open spec fn term_re(c: Complex, z: Complex) -> int {
    c.re * z.re - c.im * z.im
}

/// Imaginary part of one FIR term `c * z`.
pub open spec fn term_im(c: Complex, z: Complex) -> int {
    c.re * z.im + c.im * z.re
}

/// Real part of the FIR accumulation over lags `0 .. k`.
pub open spec fn fir_acc_re(coefs: Seq<Complex>, hist: Seq<Complex>, k: int) -> int
    decreases k,
{
    if k <= 0 {
        0
    } else {
        fir_acc_re(coefs, hist, k - 1) + term_re(coefs[k - 1], hist[k - 1])
    }
}

/// Imaginary part of the FIR accumulation over lags `0 .. k`.
pub open spec fn fir_acc_im(coefs: Seq<Complex>, hist: Seq<Complex>, k: int) -> int
    decreases k,
{
    if k <= 0 {
        0
    } else {
        fir_acc_im(coefs, hist, k - 1) + term_im(coefs[k - 1], hist[k - 1])
    }
}

/// Bin `f` of every row of `m`.
pub open spec fn col(m: Seq<Seq<Complex>>, f: int) -> Seq<Complex> {
    Seq::new(m.len(), |k: int| m[k][f])
}

/// The rows of a coefficient tensor, as sequences.
pub open spec fn rows(m: Seq<Vec<Complex>>) -> Seq<Seq<Complex>> {
    Seq::new(m.len(), |k: int| m[k]@)
}

/// Real part of the deep-filtered bin `f`.
pub open spec fn filtered_re(coefs: Seq<Seq<Complex>>, lags: Seq<Seq<Complex>>, f: int) -> int {
    div_to_zero(fir_acc_re(col(coefs, f), col(lags, f), coefs.len() as int), GAIN_ONE as int)
}

/// Imaginary part of the deep-filtered bin `f`.
pub open spec fn filtered_im(coefs: Seq<Seq<Complex>>, lags: Seq<Seq<Complex>>, f: int) -> int {
    div_to_zero(fir_acc_im(col(coefs, f), col(lags, f), coefs.len() as int), GAIN_ONE as int)
}

/// A well-shaped, bounded coefficient tensor: `order` rows of `nb_df`
/// fixed-point coefficients each.
pub open spec fn coefs_wf(coefs: Seq<Seq<Complex>>, order: int, nb_df: int) -> bool {
    &&& coefs.len() == order
    &&& forall|k: int| 0 <= k < order ==> (#[trigger] coefs[k]).len() == nb_df
    &&& forall|k: int| 0 <= k < order ==> frame_in(#[trigger] coefs[k], COEF_LIMIT as int)
}

/// Check at run time that a coefficient tensor is well shaped and bounded.
pub fn coefs_check(coefs: &Vec<Vec<Complex>>, order: usize, nb_df: usize) -> (r: bool)
    ensures
        r == coefs_wf(rows(coefs@), order as int, nb_df as int),
{
    let n = coefs.len();
    if n != order {
        return false;
    }
    let mut k: usize = 0;
    while k < n
        invariant
            k <= n == coefs@.len() == rows(coefs@).len(),
            n == order,
            forall|j: int| 0 <= j < k ==> (#[trigger] rows(coefs@)[j]).len() == nb_df,
            forall|j: int| 0 <= j < k ==> frame_in(#[trigger] rows(coefs@)[j], COEF_LIMIT as int),
        decreases n - k,
    {
        proof {
            assert(rows(coefs@)[k as int] == coefs@[k as int]@);
        }
        if coefs[k].len() != nb_df {
            return false;
        }
        if !crate::num::frame_within(&coefs[k], COEF_LIMIT) {
            return false;
        }
        k = k + 1;
    }
    true
}

/// Check at run time that every mask gain is non-negative and within the
/// supported range.
pub fn gains_check(mask: &Vec<i64>) -> (r: bool)
    ensures
        r == (forall|f: int| 0 <= f < mask@.len() ==> 0 <= #[trigger] mask@[f] <= GAIN_LIMIT),
{
    let n = mask.len();
    let mut i: usize = 0;
    while i < n
        invariant
            i <= n == mask@.len(),
            forall|j: int| 0 <= j < i ==> 0 <= #[trigger] mask@[j] <= GAIN_LIMIT,
        decreases n - i,
    {
        let g = mask[i];
        if g < 0 || g > GAIN_LIMIT {
            return false;
        }
        i = i + 1;
    }
    true
}

/// Blend the stored history with the frame's predicted coefficients: the
/// per-bin complex FIR over the `df_order` time-lagged low-band frames.
pub fn deep_filter(coefs: &Vec<Vec<Complex>>, buf: &SpectralBuffer) -> (out: Vec<Complex>)
    requires
        buf.wf(),
        coefs_wf(rows(coefs@), buf.order(), buf.nb_df()),
    ensures
        out@.len() == buf.nb_df(),
        forall|f: int|
            0 <= f < out@.len() ==> (#[trigger] out@[f]).re == filtered_re(
                rows(coefs@),
                buf.lags(),
                f,
            ) && out@[f].im == filtered_im(rows(coefs@), buf.lags(), f),
        frame_in(out@, FILTERED_LIMIT as int),
{
    let order = buf.depth();
    let nb_df = buf.bins();
    let ghost cm = rows(coefs@);
    let ghost lm = buf.lags();
    let mut out: Vec<Complex> = Vec::new();
    let mut f: usize = 0;
    while f < nb_df
        invariant
            buf.wf(),
            coefs_wf(cm, buf.order(), buf.nb_df()),
            cm == rows(coefs@),
            lm == buf.lags(),
            order == buf.order(),
            1 <= order <= ORDER_LIMIT,
            nb_df == buf.nb_df(),
            f <= nb_df,
            out@.len() == f,
            forall|j: int|
                0 <= j < f ==> (#[trigger] out@[j]).re == filtered_re(cm, lm, j) && out@[j].im
                    == filtered_im(cm, lm, j),
            frame_in(out@, FILTERED_LIMIT as int),
        decreases nb_df - f,
    {
        let mut acc_re: i64 = 0;
        let mut acc_im: i64 = 0;
        let mut k: usize = 0;
        while k < order
            invariant
                buf.wf(),
                coefs_wf(cm, buf.order(), buf.nb_df()),
                cm == rows(coefs@),
                lm == buf.lags(),
                order == buf.order(),
                1 <= order <= ORDER_LIMIT,
                nb_df == buf.nb_df(),
                f < nb_df,
                k <= order,
                acc_re as int == fir_acc_re(col(cm, f as int), col(lm, f as int), k as int),
                acc_im as int == fir_acc_im(col(cm, f as int), col(lm, f as int), k as int),
                -(k as int) * 2 * (COEF_LIMIT as int) * (SAMPLE_LIMIT as int) <= acc_re as int
                    <= (k as int) * 2 * (COEF_LIMIT as int) * (SAMPLE_LIMIT as int),
                -(k as int) * 2 * (COEF_LIMIT as int) * (SAMPLE_LIMIT as int) <= acc_im as int
                    <= (k as int) * 2 * (COEF_LIMIT as int) * (SAMPLE_LIMIT as int),
            decreases order - k,
        {
            proof {
                assert(cm.len() == coefs@.len());
                assert(cm[k as int] == coefs@[k as int]@);
            }
            let c = coefs[k][f];
            let lag = buf.lag_frame(k);
            let z = lag[f];
            proof {
                assert(cpx_in(c, COEF_LIMIT as int));
                assert(cpx_in(z, SAMPLE_LIMIT as int));
                assert({
                    &&& -0x2_0000_0000_0000 <= c.re * z.re <= 0x2_0000_0000_0000
                    &&& -0x2_0000_0000_0000 <= c.im * z.im <= 0x2_0000_0000_0000
                    &&& -0x2_0000_0000_0000 <= c.re * z.im <= 0x2_0000_0000_0000
                    &&& -0x2_0000_0000_0000 <= c.im * z.re <= 0x2_0000_0000_0000
                }) by (nonlinear_arith)
                    requires
                        -0x2_0000 <= c.re <= 0x2_0000,
                        -0x2_0000 <= c.im <= 0x2_0000,
                        -0x1_0000_0000 <= z.re <= 0x1_0000_0000,
                        -0x1_0000_0000 <= z.im <= 0x1_0000_0000,
                ;
            }
            let t_re = c.re * z.re - c.im * z.im;
            let t_im = c.re * z.im + c.im * z.re;
            acc_re = acc_re + t_re;
            acc_im = acc_im + t_im;
            k = k + 1;
            proof {
                assert(col(cm, f as int)[k - 1] == c);
                assert(col(lm, f as int)[k - 1] == z);
            }
        }
        proof {
            lemma_div_to_zero_bound(acc_re as int, 0x0400_0000_0000_0000);
            lemma_div_to_zero_bound(acc_im as int, 0x0400_0000_0000_0000);
        }
        let z = Complex { re: descale(acc_re), im: descale(acc_im) };
        out.push(z);
        f = f + 1;
    }
    out
}

/// Scale every bin covered by the mask by its non-negative gain, leaving the
/// bins past the mask untouched. Both components scale alike, so phase is
/// preserved.
pub fn apply_mask(spectrum: &mut Vec<Complex>, mask: &Vec<i64>)
    requires
        frame_in(old(spectrum)@, FILTERED_LIMIT as int),
        mask@.len() <= old(spectrum)@.len(),
        forall|f: int| 0 <= f < mask@.len() ==> 0 <= #[trigger] mask@[f] <= GAIN_LIMIT,
    ensures
        final(spectrum)@.len() == old(spectrum)@.len(),
        forall|f: int|
            0 <= f < mask@.len() ==> (#[trigger] final(spectrum)@[f]).re == scaled(
                mask@[f] as int,
                old(spectrum)@[f].re as int,
            ) && final(spectrum)@[f].im == scaled(mask@[f] as int, old(spectrum)@[f].im as int),
        forall|f: int|
            mask@.len() <= f < old(spectrum)@.len() ==> #[trigger] final(spectrum)@[f] == old(
                spectrum,
            )@[f],
{
    let n = mask.len();
    let mut f: usize = 0;
    while f < n
        invariant
            n == mask@.len() <= spectrum@.len() == old(spectrum)@.len(),
            f <= n,
            frame_in(old(spectrum)@, FILTERED_LIMIT as int),
            forall|j: int| 0 <= j < mask@.len() ==> 0 <= #[trigger] mask@[j] <= GAIN_LIMIT,
            forall|j: int|
                0 <= j < f ==> (#[trigger] spectrum@[j]).re == scaled(
                    mask@[j] as int,
                    old(spectrum)@[j].re as int,
                ) && spectrum@[j].im == scaled(mask@[j] as int, old(spectrum)@[j].im as int),
            forall|j: int| f <= j < spectrum@.len() ==> #[trigger] spectrum@[j] == old(spectrum)@[j],
        decreases n - f,
    {
        let g = mask[f];
        let z = spectrum[f];
        spectrum[f] = Complex { re: scale_component(g, z.re), im: scale_component(g, z.im) };
        f = f + 1;
    }
}

/// Mask law on one component pair: a gain in `[0, 1]` (fixed point: in
/// `[0, GAIN_ONE]`) never grows the magnitude.
pub proof fn lemma_scaled_pair_never_amplifies(g: int, re: int, im: int)
    requires
        0 <= g <= GAIN_ONE,
    ensures
        mag_sq_parts(scaled(g, re), scaled(g, im)) <= mag_sq_parts(re, im),
{
    lemma_scaled_attenuates(g, re);
    lemma_scaled_attenuates(g, im);
    if re >= 0 {
        lemma_sq_ordered(scaled(g, re), re);
    } else {
        lemma_sq_ordered(scaled(g, re), -re);
        assert((-re) * (-re) == re * re) by (nonlinear_arith);
    }
    if im >= 0 {
        lemma_sq_ordered(scaled(g, im), im);
    } else {
        lemma_sq_ordered(scaled(g, im), -im);
        assert((-im) * (-im) == im * im) by (nonlinear_arith);
    }
}

/// Mask law, never amplifying: a gain in `[0, 1]` (fixed point: in
/// `[0, GAIN_ONE]`) never grows a bin's magnitude.
pub proof fn lemma_mask_never_amplifies(z: Complex, g: int)
    requires
        0 <= g <= GAIN_ONE,
    ensures
        mag_sq_parts(scaled(g, z.re as int), scaled(g, z.im as int)) <= mag_sq(z),
{
    lemma_scaled_pair_never_amplifies(g, z.re as int, z.im as int);
}

/// Mask law, identity: the all-ones mask reproduces every covered bin
/// exactly.
pub proof fn lemma_unit_mask_reproduces(z: Complex)
    ensures
        scaled(GAIN_ONE as int, z.re as int) == z.re,
        scaled(GAIN_ONE as int, z.im as int) == z.im,
{
    lemma_scaled_one(z.re as int);
    lemma_scaled_one(z.im as int);
}

/// Mask law, silence: the all-zeros mask silences every covered bin.
pub proof fn lemma_zero_mask_silences(z: Complex)
    ensures
        scaled(0, z.re as int) == 0,
        scaled(0, z.im as int) == 0,
{
    lemma_scaled_zero(z.re as int);
    lemma_scaled_zero(z.im as int);
}

/// The FIR accumulation collapses to its first term when every later
/// coefficient is zero.
proof fn lemma_fir_acc_zero_tail(coefs: Seq<Complex>, hist: Seq<Complex>, k: int)
    requires
        1 <= k,
        forall|j: int| 1 <= j < k ==> coefs[j] == Complex::spec_zero(),
    ensures
        fir_acc_re(coefs, hist, k) == term_re(coefs[0], hist[0]),
        fir_acc_im(coefs, hist, k) == term_im(coefs[0], hist[0]),
    decreases k,
{
    if k == 1 {
        assert(fir_acc_re(coefs, hist, 0) == 0);
        assert(fir_acc_im(coefs, hist, 0) == 0);
    } else {
        lemma_fir_acc_zero_tail(coefs, hist, k - 1);
        assert(coefs[k - 1] == Complex::spec_zero());
        lemma_mul_by_zero_is_zero(hist[k - 1].re as int);
        lemma_mul_by_zero_is_zero(hist[k - 1].im as int);
        assert(term_re(coefs[k - 1], hist[k - 1]) == 0);
        assert(term_im(coefs[k - 1], hist[k - 1]) == 0);
    }
}

/// FIR identity law: a coefficient tensor that is the fixed-point 1.0 at lag
/// 0 and zero at every later lag reproduces the newest history frame in bin
/// `f` exactly.
pub proof fn lemma_identity_coefs_reproduce(
    coefs: Seq<Seq<Complex>>,
    lags: Seq<Seq<Complex>>,
    f: int,
)
    requires
        coefs.len() >= 1,
        coefs.len() == lags.len(),
        coefs[0][f] == (Complex { re: GAIN_ONE, im: 0 }),
        forall|k: int| 1 <= k < coefs.len() ==> (#[trigger] coefs[k])[f] == Complex::spec_zero(),
    ensures
        filtered_re(coefs, lags, f) == lags[0][f].re,
        filtered_im(coefs, lags, f) == lags[0][f].im,
{
    let c = col(coefs, f);
    let h = col(lags, f);
    assert(c[0] == coefs[0][f]);
    assert(h[0] == lags[0][f]);
    assert forall|j: int| 1 <= j < c.len() implies c[j] == Complex::spec_zero() by {
        assert(c[j] == coefs[j][f]);
    }
    lemma_fir_acc_zero_tail(c, h, coefs.len() as int);
    lemma_mul_by_zero_is_zero(lags[0][f].re as int);
    lemma_mul_by_zero_is_zero(lags[0][f].im as int);
    assert(term_re(c[0], h[0]) == (GAIN_ONE as int) * (lags[0][f].re as int));
    assert(term_im(c[0], h[0]) == (GAIN_ONE as int) * (lags[0][f].im as int));
    lemma_scaled_one(lags[0][f].re as int);
    lemma_scaled_one(lags[0][f].im as int);
}

} // verus!
