//! The two-pole low-pass. Its five coefficients are exact fractions over one
//! denominator, derived once from the cutoff and the resonance; each tick
//! combines the input with the two inputs and the two outputs before it.

use crate::partial_wave::{PartialWave, PartialWaveBuilder};
use crate::wave::{Wave, WaveGenerator, SAMPLE_RATE};
use vstd::prelude::*;

verus! {

/// The numerator of the fraction that stands for pi.
pub const PI_NUM: u64 = 355;

/// The denominator of the fraction that stands for pi.
pub const PI_DEN: u64 = 113;

/// One, in the scale in which a resonance is given.
pub const RESONANCE_ONE: u32 = 1024;

/// The gain by which the filter's output is raised.
pub const OUTPUT_GAIN: i64 = 4;

/// The largest magnitude of a sample that the filter takes or keeps; what
/// lies beyond is clipped to it.
pub const SAMPLE_LIMIT: i64 = 0x100_0000_0000;

/// The denominator of the coefficients stays below this.
pub const DENOMINATOR_LIMIT: u128 = 0x1000_0000_0000_0000;

/// Why a filter was refused at construction.
#[derive(Debug, Clone, Copy, PartialEq, Eq, Structural)]
pub enum FilterError {
    /// The cutoff is zero, so the prototype's `c` is not finite.
    ZeroCutoff,
    /// Cutoff and resonance are so large that the coefficients' denominator
    /// reaches `DENOMINATOR_LIMIT`.
    OutOfRange,
}

/// The coefficients as mathematical values: five numerators over `den`.
pub struct FilterModel {
    pub a1: int,
    pub a2: int,
    pub a3: int,
    pub b1: int,
    pub b2: int,
    pub den: int,
}

/// The prototype's `c = 1 / (pi * f / sample_rate)` is `c_num() / c_den(f)`.
pub open spec fn c_num() -> int {
    SAMPLE_RATE * PI_DEN
}

pub open spec fn c_den(f: int) -> int {
    PI_NUM * f
}

/// The coefficients for a cutoff of `f` Hz and a resonance of
/// `r / RESONANCE_ONE`. With `c = p / q` and the common denominator
/// `1 + r c + c^2`, brought to integers:
/// `a1 = 1 / (1 + r c + c^2)`, `a2 = 2 a1`, `a3 = a1`,
/// `b1 = 2 (1 - c^2) a1`, `b2 = (1 - r c + c^2) a1`.
pub open spec fn coefficients_of(f: int, r: int) -> FilterModel {
    let p = c_num();
    let q = c_den(f);
    FilterModel {
        a1: RESONANCE_ONE * (q * q),
        a2: 2 * (RESONANCE_ONE * (q * q)),
        a3: RESONANCE_ONE * (q * q),
        b1: 2 * (RESONANCE_ONE * (q * q) - RESONANCE_ONE * (p * p)),
        b2: RESONANCE_ONE * (q * q) + RESONANCE_ONE * (p * p) - r * (p * q),
        den: RESONANCE_ONE * (q * q) + RESONANCE_ONE * (p * p) + r * (p * q),
    }
}

impl FilterModel {
    /// The numerators are bounded by the denominator as the formulas bound
    /// them, and the denominator is within its limit.
    pub open spec fn wf(self) -> bool {
        &&& 0 < self.den < DENOMINATOR_LIMIT
        &&& 0 <= self.a1 <= self.den
        &&& self.a2 == 2 * self.a1
        &&& self.a3 == self.a1
        &&& -2 * self.den <= self.b1 <= 2 * self.den
        &&& -self.den <= self.b2 <= self.den
        &&& self.a1 + self.a2 + self.a3 - self.b1 - self.b2 == self.den
    }

    /// The weighted sum of a tick, before the division.
    pub open spec fn weighted(self, in0: int, in1: int, in2: int, out1: int, out2: int) -> int {
        self.a1 * in0 + self.a2 * in1 + self.a3 * in2 - self.b1 * out1 - self.b2 * out2
    }

    /// What the recursion gives for a tick, before the gain: the weighted
    /// sum over the denominator, rounded towards zero and clipped.
    pub open spec fn raw(self, in0: int, in1: int, in2: int, out1: int, out2: int) -> int {
        clipped(toward_zero(self.weighted(in0, in1, in2, out1, out2), self.den))
    }
}

/// `x` clipped to the sample limit.
pub open spec fn clipped(x: int) -> int {
    if x > SAMPLE_LIMIT {
        SAMPLE_LIMIT as int
    } else if x < -SAMPLE_LIMIT {
        -SAMPLE_LIMIT
    } else {
        x
    }
}

/// `x / d` rounded towards zero.
pub open spec fn toward_zero(x: int, d: int) -> int {
    if x >= 0 {
        x / d
    } else {
        -((-x) / d)
    }
}

/// The five coefficients of a low-pass, fixed for its lifetime.
#[derive(Debug, Clone, Copy, PartialEq, Eq, Structural)]
pub struct Coefficients {
    a1: i64,
    a2: i64,
    a3: i64,
    b1: i64,
    b2: i64,
    den: i64,
}

impl View for Coefficients {
    type V = FilterModel;

    closed spec fn view(&self) -> FilterModel {
        FilterModel {
            a1: self.a1 as int,
            a2: self.a2 as int,
            a3: self.a3 as int,
            b1: self.b1 as int,
            b2: self.b2 as int,
            den: self.den as int,
        }
    }
}

/// The coefficients of every cutoff above zero and every resonance meet
/// the bounds of `FilterModel::wf`, but for the denominator's limit; and
/// at frequency zero the filter passes its input unchanged: the numerators
/// of the inputs less those of the outputs add up to the denominator.
pub proof fn lemma_coefficients_bounded(f: int, r: int)
    requires
        0 < f,
        0 <= r,
    ensures
        ({
            let k = coefficients_of(f, r);
            &&& 0 < k.den
            &&& 0 <= k.a1 <= k.den
            &&& -2 * k.den <= k.b1 <= 2 * k.den
            &&& -k.den <= k.b2 <= k.den
            &&& k.a1 + k.a2 + k.a3 - k.b1 - k.b2 == k.den
        }),
{
    let p = c_num();
    let q = c_den(f);
    assert(q * q > 0 && p * p > 0 && p * q > 0 && r * (p * q) >= 0) by (nonlinear_arith)
        requires
            p > 0,
            q > 0,
            r >= 0,
    ;
}

impl Coefficients {
    /// The numerators `a1`, `a2`, `a3`, `b1`, `b2`, in this order.
    pub fn numerators(&self) -> (n: [i64; 5])
        ensures
            n[0] == self@.a1,
            n[1] == self@.a2,
            n[2] == self@.a3,
            n[3] == self@.b1,
            n[4] == self@.b2,
    {
        [self.a1, self.a2, self.a3, self.b1, self.b2]
    }

    /// The denominator that the five numerators share.
    pub fn denominator(&self) -> (d: i64)
        ensures
            d == self@.den,
    {
        self.den
    }

    /// Derives the coefficients for a cutoff of `f` Hz and a resonance of
    /// `resonance / RESONANCE_ONE`, at the fixed sample rate. A cutoff of
    /// zero is refused.
    pub fn new(f: u32, resonance: u32) -> (r: Result<Self, FilterError>)
        ensures
            match r {
                Ok(k) => {
                    &&& f > 0
                    &&& k@ == coefficients_of(f as int, resonance as int)
                    &&& k@.wf()
                },
                Err(FilterError::ZeroCutoff) => f == 0,
                Err(FilterError::OutOfRange) => f > 0 && coefficients_of(
                    f as int,
                    resonance as int,
                ).den >= DENOMINATOR_LIMIT,
            },
    {
        if f == 0 {
            return Err(FilterError::ZeroCutoff);
        }
        let hz: u128 = f as u128;
        let p: u128 = 44100 * 113;
        let q: u128 = 355 * hz;
        let one: u128 = 1024;
        let res: u128 = resonance as u128;
        assert(q * q <= 0x10_0000_0000_0000_0000_0000 && p * q <= 0x1_0000_0000_0000_0000
            && p * p <= 0x1_0000_0000_0000) by (nonlinear_arith)
            requires
                p == 44100 * 113,
                0 < q <= 355 * 0xffff_ffff,
        ;
        let qq: u128 = q * q;
        let pp: u128 = p * p;
        let pq: u128 = p * q;
        assert(res * pq <= 0xffff_ffff * 0x1_0000_0000_0000_0000) by (nonlinear_arith)
            requires
                res <= 0xffff_ffff,
                pq <= 0x1_0000_0000_0000_0000,
        ;
        let damp: u128 = res * pq;
        let den: u128 = one * qq + one * pp + damp;
        proof {
            lemma_coefficients_bounded(f as int, resonance as int);
        }
        if den >= DENOMINATOR_LIMIT {
            return Err(FilterError::OutOfRange);
        }
        let a1: i64 = (one * qq) as i64;
        let b1: i64 = 2 * ((one * qq) as i64 - (one * pp) as i64);
        let b2: i64 = (one * qq + one * pp) as i64 - damp as i64;
        Ok(Self { a1, a2: 2 * a1, a3: a1, b1, b2, den: den as i64 })
    }
}

/// The low-pass over an input source, with the two samples before the
/// current one on either side.
#[derive(Clone)]
pub struct Lowpass<T> {
    coefficients: Coefficients,
    in1: i64,
    in2: i64,
    out1: i64,
    out2: i64,
    input: T,
}

/// The filter's memory as mathematical values.
pub struct FilterState {
    pub k: FilterModel,
    pub in1: int,
    pub in2: int,
    pub out1: int,
    pub out2: int,
}

impl FilterState {
    pub open spec fn wf(self) -> bool {
        &&& self.k.wf()
        &&& -SAMPLE_LIMIT <= self.in1 <= SAMPLE_LIMIT
        &&& -SAMPLE_LIMIT <= self.in2 <= SAMPLE_LIMIT
        &&& -SAMPLE_LIMIT <= self.out1 <= SAMPLE_LIMIT
        &&& -SAMPLE_LIMIT <= self.out2 <= SAMPLE_LIMIT
    }

    /// What the recursion gives for the input `in0`, before the gain.
    pub open spec fn raw(self, in0: int) -> int {
        self.k.raw(clipped(in0), self.in1, self.in2, self.out1, self.out2)
    }

    /// The memory after the input `in0`: the input and the output move in,
    /// the older ones move on, the oldest leave; the coefficients stay.
    pub open spec fn fed(self, in0: int) -> Self {
        FilterState {
            k: self.k,
            in1: clipped(in0),
            in2: self.in1,
            out1: self.raw(in0),
            out2: self.out1,
        }
    }

    /// The sample emitted for the input `in0`.
    pub open spec fn emitted(self, in0: int) -> int {
        OUTPUT_GAIN * self.raw(in0)
    }
}

/// The product of two bounded numbers is bounded by the product of the
/// bounds.
proof fn lemma_product_bounded(x: int, y: int, a: int, b: int)
    requires
        -a <= x <= a,
        -b <= y <= b,
    ensures
        -(a * b) <= x * y <= a * b,
{
    assert(-(a * b) <= x * y <= a * b) by (nonlinear_arith)
        requires
            -a <= x <= a,
            -b <= y <= b,
    ;
}

/// Divides rounding towards zero.
fn div_toward_zero(x: i128, d: i128) -> (r: i128)
    requires
        d > 0,
        x > i128::MIN,
    ensures
        r == toward_zero(x as int, d as int),
{
    if x >= 0 {
        let up: u128 = x as u128;
        let low: u128 = d as u128;
        (up / low) as i128
    } else {
        let up: u128 = (-x) as u128;
        let low: u128 = d as u128;
        -((up / low) as i128)
    }
}

/// Clips a sample to the limit.
pub fn clip(x: i128) -> (r: i64)
    ensures
        r == clipped(x as int),
{
    if x > SAMPLE_LIMIT as i128 {
        SAMPLE_LIMIT
    } else if x < -(SAMPLE_LIMIT as i128) {
        -SAMPLE_LIMIT
    } else {
        x as i64
    }
}

impl<T> View for Lowpass<T> {
    type V = FilterState;

    closed spec fn view(&self) -> FilterState {
        FilterState {
            k: self.coefficients@,
            in1: self.in1 as int,
            in2: self.in2 as int,
            out1: self.out1 as int,
            out2: self.out2 as int,
        }
    }
}

impl<T> Lowpass<T> {
    /// The source that feeds the filter.
    pub closed spec fn feeder(&self) -> T {
        self.input
    }

    /// A low-pass over `input` with a cutoff of `f` Hz and a resonance of
    /// `resonance / RESONANCE_ONE`, its memory empty.
    pub fn new(f: u32, resonance: u32, input: T) -> (r: Result<WaveGenerator<Self>, FilterError>)
        ensures
            match r {
                Ok(g) => {
                    &&& f > 0
                    &&& g.source@ == (FilterState {
                        k: coefficients_of(f as int, resonance as int),
                        in1: 0,
                        in2: 0,
                        out1: 0,
                        out2: 0,
                    })
                    &&& g.source@.wf()
                    &&& g.source.feeder() == input
                },
                Err(FilterError::ZeroCutoff) => f == 0,
                Err(FilterError::OutOfRange) => f > 0 && coefficients_of(
                    f as int,
                    resonance as int,
                ).den >= DENOMINATOR_LIMIT,
            },
    {
        match Coefficients::new(f, resonance) {
            Ok(coefficients) => Ok(Self::with(coefficients, input)),
            Err(e) => Err(e),
        }
    }

    /// A low-pass over `input` with these coefficients, its memory empty.
    pub fn with(coefficients: Coefficients, input: T) -> (g: WaveGenerator<Self>)
        ensures
            g.source@ == (FilterState { k: coefficients@, in1: 0, in2: 0, out1: 0, out2: 0 }),
            g.source.feeder() == input,
    {
        WaveGenerator::new(Self { coefficients, in1: 0, in2: 0, out1: 0, out2: 0, input })
    }

    /// Takes one input sample through the recursion and emits the output
    /// with its gain.
    pub fn feed(&mut self, in0: i64) -> (out: i64)
        requires
            old(self)@.wf(),
        ensures
            final(self)@.wf(),
            final(self)@ == old(self)@.fed(in0 as int),
            out == old(self)@.emitted(in0 as int),
            final(self).feeder() == old(self).feeder(),
    {
        let k = self.coefficients;
        let x0: i64 = clip(in0 as i128);
        proof {
            let lim = SAMPLE_LIMIT as int;
            let d = k@.den;
            lemma_product_bounded(k@.a1, x0 as int, d, lim);
            lemma_product_bounded(k@.a2, self.in1 as int, 2 * d, lim);
            lemma_product_bounded(k@.a3, self.in2 as int, d, lim);
            lemma_product_bounded(k@.b1, self.out1 as int, 2 * d, lim);
            lemma_product_bounded(k@.b2, self.out2 as int, d, lim);
            assert(2 * d * lim <= 2 * 0x1000_0000_0000_0000 * 0x100_0000_0000) by (nonlinear_arith)
                requires
                    0 < d < 0x1000_0000_0000_0000,
                    lim == 0x100_0000_0000,
            ;
            assert(d * lim <= 0x1000_0000_0000_0000 * 0x100_0000_0000) by (nonlinear_arith)
                requires
                    0 < d < 0x1000_0000_0000_0000,
                    lim == 0x100_0000_0000,
            ;
        }
        let t0: i128 = k.a1 as i128 * x0 as i128;
        let t1: i128 = k.a2 as i128 * self.in1 as i128;
        let t2: i128 = k.a3 as i128 * self.in2 as i128;
        let u1: i128 = k.b1 as i128 * self.out1 as i128;
        let u2: i128 = k.b2 as i128 * self.out2 as i128;
        let sum: i128 = t0 + t1 + t2 - u1 - u2;
        let raw: i64 = clip(div_toward_zero(sum, k.den as i128));
        self.in2 = self.in1;
        self.in1 = x0;
        self.out2 = self.out1;
        self.out1 = raw;
        OUTPUT_GAIN * raw
    }
}

impl<T: Wave<i64>> Wave<i64> for Lowpass<T> {
    open spec fn wf(&self) -> bool {
        self@.wf() && self.feeder().wf()
    }

    /// The input ticks once, and its sample goes through the recursion.
    open spec fn yields(&self, out: i64, next: Self) -> bool {
        exists|in0: i64|
            {
                &&& #[trigger] self.feeder().yields(in0, next.feeder())
                &&& next@ == self@.fed(in0 as int)
                &&& out == self@.emitted(in0 as int)
            }
    }

    fn next_sample(&mut self) -> (out: i64) {
        let in0: i64 = self.input.next_sample();
        let out = self.feed(in0);
        proof {
            assert(old(self).feeder().yields(in0, self.feeder()));
        }
        out
    }
}

/// A constant input is passed unchanged by the recursion once the memory
/// holds it: with the value `v` on both sides of the memory, the input `v`
/// leaves the memory as it is, and the sample emitted is `v` times the
/// output gain.
pub proof fn lemma_constant_is_steady(s: FilterState, v: int)
    requires
        s.wf(),
        -SAMPLE_LIMIT <= v <= SAMPLE_LIMIT,
        s.in1 == v && s.in2 == v && s.out1 == v && s.out2 == v,
    ensures
        s.raw(v) == v,
        s.fed(v) == s,
        s.emitted(v) == OUTPUT_GAIN * v,
{
    let k = s.k;
    let sum = k.weighted(v, v, v, v, v);
    assert(sum == k.den * v) by (nonlinear_arith)
        requires
            sum == k.a1 * v + k.a2 * v + k.a3 * v - k.b1 * v - k.b2 * v,
            k.a1 + k.a2 + k.a3 - k.b1 - k.b2 == k.den,
    ;
    if v >= 0 {
        assert((k.den * v) / k.den == v) by (nonlinear_arith)
            requires
                k.den > 0,
        ;
        assert(k.den * v >= 0) by (nonlinear_arith)
            requires
                k.den > 0,
                v >= 0,
        ;
    } else {
        assert(-(k.den * v) == k.den * (-v)) by (nonlinear_arith);
        assert((k.den * (-v)) / k.den == -v) by (nonlinear_arith)
            requires
                k.den > 0,
        ;
        assert(k.den * v < 0) by (nonlinear_arith)
            requires
                k.den > 0,
                v < 0,
        ;
    }
}

/// A low-pass that waits for its input.
#[derive(Debug, Clone, Copy, PartialEq, Eq, Structural)]
pub struct PartialLowpass {
    pub coefficients: Coefficients,
}

impl<W> PartialWave<W> for PartialLowpass {
    type Target = Lowpass<W>;

    /// The low-pass with these coefficients over the input, its memory
    /// empty.
    open spec fn builds(self, src: W, out: Lowpass<W>) -> bool {
        &&& out@ == (FilterState { k: self.coefficients@, in1: 0, in2: 0, out1: 0, out2: 0 })
        &&& out.feeder() == src
    }

    fn build(self, src: W) -> (g: WaveGenerator<Lowpass<W>>) {
        Lowpass::with(self.coefficients, src)
    }
}

/// A waiting low-pass with a cutoff of `f` Hz and a resonance of
/// `resonance / RESONANCE_ONE`.
pub fn lowpass(f: u32, resonance: u32) -> (r: Result<
    PartialWaveBuilder<PartialLowpass>,
    FilterError,
>)
    ensures
        match r {
            Ok(b) => {
                &&& f > 0
                &&& b.partial.coefficients@ == coefficients_of(f as int, resonance as int)
                &&& b.partial.coefficients@.wf()
            },
            Err(FilterError::ZeroCutoff) => f == 0,
            Err(FilterError::OutOfRange) => f > 0 && coefficients_of(
                f as int,
                resonance as int,
            ).den >= DENOMINATOR_LIMIT,
        },
{
    match Coefficients::new(f, resonance) {
        Ok(coefficients) => Ok(PartialWaveBuilder::new(PartialLowpass { coefficients })),
        Err(e) => Err(e),
    }
}

} // verus!
