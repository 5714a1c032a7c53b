//! Fixed-point complex samples and gains.
//!
//! Spectral frames carry complex components as plain `i64` values; gains and
//! filter coefficients are fixed-point numbers with `GAIN_ONE` standing for
//! the gain 1.0. The limits below are machine limits: they keep every product
//! and sum of the deep-filtering arithmetic inside `i64`.

use vstd::prelude::*;

verus! {

use vstd::arithmetic::div_mod::{
    lemma_div_is_ordered,
    lemma_div_multiples_vanish,
    lemma_div_nonincreasing,
    lemma_div_of0,
    lemma_div_pos_is_pos,
};
use vstd::arithmetic::mul::{
    lemma_mul_inequality,
    lemma_mul_nonnegative,
    lemma_mul_upper_bound,
};

/// Largest magnitude a spectral component may carry when it enters the
/// pipeline.
pub const SAMPLE_LIMIT: i64 = 0x1_0000_0000;

/// Largest magnitude of a deep-filter coefficient component.
pub const COEF_LIMIT: i64 = 0x2_0000;

/// Largest deep-filter order the arithmetic supports.
pub const ORDER_LIMIT: usize = 0x100;

/// The fixed-point representation of the gain 1.0.
pub const GAIN_ONE: i64 = 0x4000;

/// Largest gain value a mask may carry.
pub const GAIN_LIMIT: i64 = 0x4_0000;

/// Largest magnitude of a component after deep filtering:
/// `ORDER_LIMIT * 2 * COEF_LIMIT * SAMPLE_LIMIT / GAIN_ONE`.
pub const FILTERED_LIMIT: i64 = 0x1000_0000_0000;

/// One complex spectral component.
#[derive(Clone, Copy, PartialEq, Eq, Structural, Debug)]
pub struct Complex {
    pub re: i64,
    pub im: i64,
}

impl Complex {
    /// The zero sample.
    pub open spec fn spec_zero() -> Complex {
        Complex { re: 0, im: 0 }
    }

    pub fn zero() -> (r: Complex)
        ensures
            r == Complex::spec_zero(),
    {
        Complex { re: 0, im: 0 }
    }
}

/// Both components of `z` lie in `[-b, b]`.
pub open spec fn cpx_in(z: Complex, b: int) -> bool {
    &&& -b <= z.re <= b
    &&& -b <= z.im <= b
}

/// Every component of every sample of `f` lies in `[-b, b]`.
pub open spec fn frame_in(f: Seq<Complex>, b: int) -> bool {
    forall|i: int| 0 <= i < f.len() ==> cpx_in(#[trigger] f[i], b)
}

/// Squared magnitude of a sample.
pub open spec fn mag_sq(z: Complex) -> int {
    z.re * z.re + z.im * z.im
}

/// Widen a flat buffer of interleaved real/imaginary components into complex
/// samples. The length must be even: the checked conversion replaces any
/// unchecked reinterpretation of the underlying memory.
pub fn convert_to_complex(buffer: &Vec<i64>) -> (r: Option<Vec<Complex>>)
    ensures
        match r {
            Some(v) => {
                &&& buffer@.len() % 2 == 0
                &&& v@.len() == buffer@.len() / 2
                &&& forall|i: int|
                    0 <= i < v@.len() ==> (#[trigger] v@[i]).re == buffer@[2 * i] && v@[i].im
                        == buffer@[2 * i + 1]
            },
            None => buffer@.len() % 2 != 0,
        },
{
    let n = buffer.len();
    if n % 2 != 0 {
        return None;
    }
    let half = n / 2;
    let mut v: Vec<Complex> = Vec::new();
    let mut i: usize = 0;
    while i < half
        invariant
            n == buffer@.len(),
            n % 2 == 0,
            half == n / 2,
            i <= half,
            v@.len() == i,
            forall|j: int|
                0 <= j < i ==> (#[trigger] v@[j]).re == buffer@[2 * j] && v@[j].im == buffer@[2 * j
                    + 1],
        decreases half - i,
    {
        v.push(Complex { re: buffer[2 * i], im: buffer[2 * i + 1] });
        i = i + 1;
    }
    Some(v)
}

/// Flatten complex samples back into interleaved real/imaginary components:
/// the inverse of [`convert_to_complex`].
pub fn convert_to_real(samples: &Vec<Complex>) -> (r: Vec<i64>)
    ensures
        r@.len() == 2 * samples@.len(),
        forall|i: int|
            0 <= i < samples@.len() ==> r@[2 * i] == (#[trigger] samples@[i]).re && r@[2 * i + 1]
                == samples@[i].im,
{
    let n = samples.len();
    let mut r: Vec<i64> = Vec::new();
    let mut i: usize = 0;
    while i < n
        invariant
            n == samples@.len(),
            i <= n,
            r@.len() == 2 * i,
            forall|j: int|
                0 <= j < i ==> r@[2 * j] == (#[trigger] samples@[j]).re && r@[2 * j + 1]
                    == samples@[j].im,
        decreases n - i,
    {
        let z = samples[i];
        r.push(z.re);
        r.push(z.im);
        i = i + 1;
    }
    r
}

/// Check at run time that every component of every sample lies in `[-b, b]`.
pub fn frame_within(v: &Vec<Complex>, b: i64) -> (r: bool)
    requires
        b >= 0,
    ensures
        r == frame_in(v@, b as int),
{
    let n = v.len();
    let mut i: usize = 0;
    while i < n
        invariant
            b >= 0,
            i <= n == v@.len(),
            forall|j: int| 0 <= j < i ==> cpx_in(#[trigger] v@[j], b as int),
        decreases n - i,
    {
        let z = v[i];
        if z.re < -b || z.re > b || z.im < -b || z.im > b {
            assert(!cpx_in(v@[i as int], b as int));
            return false;
        }
        i = i + 1;
    }
    true
}

/// Quotient of `x` by `d`, rounded toward zero (the rounding executable
/// integer division uses).
pub open spec fn div_to_zero(x: int, d: int) -> int {
    if x >= 0 {
        x / d
    } else {
        -((-x) / d)
    }
}

/// `x` scaled by the fixed-point gain `g`, rounded toward zero.
pub open spec fn scaled(g: int, x: int) -> int {
    div_to_zero(g * x, GAIN_ONE as int)
}

/// Scale one component by a non-negative fixed-point gain.
pub fn scale_component(g: i64, x: i64) -> (r: i64)
    requires
        0 <= g <= GAIN_LIMIT,
        -FILTERED_LIMIT <= x <= FILTERED_LIMIT,
    ensures
        r == scaled(g as int, x as int),
{
    if x >= 0 {
        proof {
            lemma_mul_nonnegative(g as int, x as int);
            lemma_mul_upper_bound(g as int, GAIN_LIMIT as int, x as int, FILTERED_LIMIT as int);
            lemma_div_nonincreasing(g * x, GAIN_ONE as int);
            lemma_div_pos_is_pos(g * x, GAIN_ONE as int);
        }
        (((g as u64) * (x as u64)) / (GAIN_ONE as u64)) as i64
    } else {
        proof {
            lemma_mul_nonnegative(g as int, -x as int);
            lemma_mul_upper_bound(g as int, GAIN_LIMIT as int, -x as int, FILTERED_LIMIT as int);
            lemma_div_nonincreasing(g * (-x as int), GAIN_ONE as int);
            lemma_div_pos_is_pos(g * (-x as int), GAIN_ONE as int);
            assert((g as int) * (-x as int) == -((g as int) * (x as int))) by (nonlinear_arith);
        }
        let m = ((g as u64) * ((-x) as u64)) / (GAIN_ONE as u64);
        -(m as i64)
    }
}

/// The gain `GAIN_ONE` (the fixed-point 1.0) reproduces a component exactly.
pub proof fn lemma_scaled_one(x: int)
    ensures
        scaled(GAIN_ONE as int, x) == x,
{
    if x >= 0 {
        lemma_mul_nonnegative(GAIN_ONE as int, x);
        lemma_div_multiples_vanish(x, GAIN_ONE as int);
    } else {
        lemma_mul_nonnegative(GAIN_ONE as int, -x);
        lemma_div_multiples_vanish(-x, GAIN_ONE as int);
    }
}

/// The gain 0 silences a component exactly.
pub proof fn lemma_scaled_zero(x: int)
    ensures
        scaled(0, x) == 0,
{
    lemma_div_multiples_vanish(0, GAIN_ONE as int);
}

/// A gain at most `GAIN_ONE` never grows a component's magnitude.
pub proof fn lemma_scaled_attenuates(g: int, x: int)
    requires
        0 <= g <= GAIN_ONE,
    ensures
        x >= 0 ==> 0 <= scaled(g, x) <= x,
        x < 0 ==> x <= scaled(g, x) <= 0,
{
    let one = GAIN_ONE as int;
    if x >= 0 {
        lemma_mul_nonnegative(g, x);
        lemma_mul_inequality(g, one, x);
        lemma_div_is_ordered(g * x, one * x, one);
        lemma_div_multiples_vanish(x, one);
        lemma_div_pos_is_pos(g * x, one);
    } else {
        lemma_mul_nonnegative(g, -x);
        lemma_mul_inequality(g, one, -x);
        lemma_div_is_ordered(g * -x, one * -x, one);
        lemma_div_multiples_vanish(-x, one);
        lemma_div_pos_is_pos(g * -x, one);
        assert(g * -x == -(g * x)) by (nonlinear_arith);
        assert(g * x <= 0);
        if g * x == 0 {
            lemma_div_of0(one);
            assert(scaled(g, x) == 0);
        }
    }
}

/// Undo the fixed-point coefficient scale after an accumulation.
pub fn descale(x: i64) -> (r: i64)
    requires
        -0x4000_0000_0000_0000 <= x <= 0x4000_0000_0000_0000,
    ensures
        r == div_to_zero(x as int, GAIN_ONE as int),
{
    proof {
        lemma_div_nonincreasing(if x >= 0 { x as int } else { -x as int }, GAIN_ONE as int);
        lemma_div_pos_is_pos(if x >= 0 { x as int } else { -x as int }, GAIN_ONE as int);
    }
    if x >= 0 {
        ((x as u64) / (GAIN_ONE as u64)) as i64
    } else {
        -((((-x) as u64) / (GAIN_ONE as u64)) as i64)
    }
}

/// Squared magnitude from separate components.
pub open spec fn mag_sq_parts(re: int, im: int) -> int {
    re * re + im * im
}

/// Descaling keeps a value inside `b / GAIN_ONE` when the value stayed
/// inside `b`.
pub proof fn lemma_div_to_zero_bound(x: int, b: int)
    requires
        0 <= b,
        -b <= x <= b,
    ensures
        -(b / (GAIN_ONE as int)) <= div_to_zero(x, GAIN_ONE as int) <= b / (GAIN_ONE as int),
{
    if x >= 0 {
        lemma_div_is_ordered(x, b, GAIN_ONE as int);
        lemma_div_pos_is_pos(x, GAIN_ONE as int);
    } else {
        lemma_div_is_ordered(-x, b, GAIN_ONE as int);
        lemma_div_pos_is_pos(-x, GAIN_ONE as int);
    }
}

/// Squares preserve magnitude ordering.
pub proof fn lemma_sq_ordered(a: int, b: int)
    requires
        -b <= a <= b,
    ensures
        a * a <= b * b,
{
    assert(a * a <= b * b) by (nonlinear_arith)
        requires
            -b <= a <= b,
    ;
}

} // verus!
