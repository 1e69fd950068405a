//! Start-up checks on the device sample rate and the rational factors that
//! take it to the demodulator's rate.
use vstd::arithmetic::div_mod::{lemma_fundamental_div_mod, lemma_mod_multiples_basic};
use vstd::prelude::*;

verus! {

/// The demodulator's sample rate: 2 samples per half-microsecond.
pub const DEMOD_SAMPLE_RATE: u64 = 4_000_000;

/// The least device sample rate that the demodulator can work from.
pub const MIN_SAMPLE_RATE: u64 = 2_000_000;

/// Interpolation or decimation factors above this make the polyphase
/// filter large, which is worth a warning.
pub const LARGE_FACTOR: u64 = 100;

/// Why a sample rate was refused.
#[derive(Debug, PartialEq, Eq)]
pub enum SampleRateError {
    /// The text is not a number; holds the text.
    Invalid(String),
    /// Below 2 MHz.
    TooLow,
}

impl SampleRateError {
    /// The message shown to the user.
    pub fn message(&self) -> (r: String)
        ensures
            self is TooLow ==> r@ == "Sample rate must be at least 2 MHz"@,
            self matches SampleRateError::Invalid(t) ==> r@ == "`"@ + t@ + "` is not a valid sample rate"@,
    {
        match self {
            SampleRateError::Invalid(text) => String::from_str("`").concat(text.as_str()).concat(
                "` is not a valid sample rate",
            ),
            SampleRateError::TooLow => String::from_str("Sample rate must be at least 2 MHz"),
        }
    }
}

/// Accepts a device sample rate, in Hz, of at least 2 MHz.
pub fn check_sample_rate(rate_hz: u64) -> (r: Result<u64, SampleRateError>)
    ensures
        rate_hz >= MIN_SAMPLE_RATE ==> r == Ok::<u64, SampleRateError>(rate_hz),
        rate_hz < MIN_SAMPLE_RATE ==> r == Err::<u64, SampleRateError>(SampleRateError::TooLow),
{
    if rate_hz < MIN_SAMPLE_RATE {
        Err(SampleRateError::TooLow)
    } else {
        Ok(rate_hz)
    }
}

/// The greatest common divisor, by Euclid's algorithm.
pub open spec fn gcd(a: nat, b: nat) -> nat
    decreases b,
{
    if b == 0 {
        a
    } else {
        gcd(b, a % b)
    }
}

proof fn lemma_gcd_divides(a: nat, b: nat)
    ensures
        gcd(a, b) > 0 ==> a % gcd(a, b) == 0 && b % gcd(a, b) == 0,
        a > 0 ==> gcd(a, b) > 0,
        b > 0 ==> gcd(a, b) > 0,
    decreases b,
{
    if b > 0 {
        lemma_gcd_divides(b, a % b);
        let g = gcd(b, a % b);
        if g > 0 {
            let q = a / b;
            let r = a % b;
            lemma_fundamental_div_mod(a as int, b as int);
            lemma_fundamental_div_mod(b as int, g as int);
            lemma_fundamental_div_mod(r as int, g as int);
            let k1 = b / g;
            let k2 = r / g;
            assert(a == g * (k1 * q + k2)) by (nonlinear_arith)
                requires
                    a == b * q + r,
                    b == g * k1,
                    r == g * k2,
            ;
            lemma_mod_multiples_basic((k1 * q + k2) as int, g as int);
            assert((k1 * q + k2) * g == g * (k1 * q + k2)) by (nonlinear_arith);
        }
        if a % b == 0 {
            assert(gcd(a % b, 0) == a % b);
        }
    }
}

/// The factors of a rational resampler, in lowest terms.
#[derive(Clone, Copy, Debug, PartialEq, Eq, Structural)]
pub struct ResamplingPlan {
    pub interpolation: u64,
    pub decimation: u64,
    /// Whether either factor is above 100: the start goes on, with a
    /// warning.
    pub large_factors: bool,
}

/// The factors that take `rate_hz` to the demodulator's rate: both divided
/// by their greatest common divisor.
pub fn resampling_plan(rate_hz: u64) -> (r: ResamplingPlan)
    requires
        rate_hz > 0,
    ensures
        r.interpolation == DEMOD_SAMPLE_RATE as nat / gcd(rate_hz as nat, DEMOD_SAMPLE_RATE as nat),
        r.decimation == rate_hz as nat / gcd(rate_hz as nat, DEMOD_SAMPLE_RATE as nat),
        r.interpolation * gcd(rate_hz as nat, DEMOD_SAMPLE_RATE as nat) == DEMOD_SAMPLE_RATE,
        r.decimation * gcd(rate_hz as nat, DEMOD_SAMPLE_RATE as nat) == rate_hz,
        r.large_factors == (r.interpolation > LARGE_FACTOR || r.decimation > LARGE_FACTOR),
{
    let mut a: u64 = rate_hz;
    let mut b: u64 = DEMOD_SAMPLE_RATE;
    while b != 0
        invariant
            gcd(a as nat, b as nat) == gcd(rate_hz as nat, DEMOD_SAMPLE_RATE as nat),
        decreases b,
    {
        let t = a % b;
        a = b;
        b = t;
    }
    let g = a;
    proof {
        lemma_gcd_divides(rate_hz as nat, DEMOD_SAMPLE_RATE as nat);
    }
    let interpolation = DEMOD_SAMPLE_RATE / g;
    let decimation = rate_hz / g;
    proof {
        assert(interpolation * g == DEMOD_SAMPLE_RATE) by (nonlinear_arith)
            requires
                g > 0,
                DEMOD_SAMPLE_RATE % g == 0,
                interpolation == DEMOD_SAMPLE_RATE / g,
        ;
        assert(decimation * g == rate_hz) by (nonlinear_arith)
            requires
                g > 0,
                rate_hz % g == 0,
                decimation == rate_hz / g,
        ;
    }
    ResamplingPlan {
        interpolation,
        decimation,
        large_factors: interpolation > LARGE_FACTOR || decimation > LARGE_FACTOR,
    }
}

} // verus!
