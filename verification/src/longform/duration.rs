//! Integer duration conversion for the executor-window ceiling.
//!
//! The ceiling that both the slicer and the decoder-state envelope consume is the
//! exact ceiling of `max_chunk_seconds * sample_rate_hz`. The duration is a
//! single-precision number given by its IEEE-754 bit pattern, so the product is the
//! exact binary rational `significand * rate * 2^exponent` and no rounding enters.

use vstd::arithmetic::div_mod::*;
use vstd::arithmetic::power2::*;
use vstd::prelude::*;

verus! {

/// A duration that is not a finite positive number of seconds, or whose sample
/// count does not fit the machine.
#[derive(Debug, Clone, Copy, PartialEq, Eq, Structural)]
pub enum ExecutorWindowLimitError {
    /// `seconds_bits` is the bit pattern of the refused duration.
    InvalidDuration { seconds_bits: u32 },
}

/// Biased exponent field of a single-precision bit pattern.
pub open spec fn exponent_field(bits: u32) -> int {
    (bits as int / 0x80_0000) % 0x100
}

/// Fraction field of a single-precision bit pattern.
pub open spec fn fraction_field(bits: u32) -> int {
    bits as int % 0x80_0000
}

/// Whether the pattern denotes a finite number greater than zero.
pub open spec fn is_finite_positive(bits: u32) -> bool {
    &&& bits < 0x8000_0000
    &&& exponent_field(bits) != 0xff
    &&& bits != 0
}

/// Integer significand of a finite pattern: the denoted number is
/// `significand(bits) * 2^exponent_of_two(bits)`.
pub open spec fn significand(bits: u32) -> int {
    if exponent_field(bits) == 0 {
        fraction_field(bits)
    } else {
        0x80_0000 + fraction_field(bits)
    }
}

/// Power of two that scales [`significand`].
pub open spec fn exponent_of_two(bits: u32) -> int {
    if exponent_field(bits) == 0 {
        -149
    } else {
        exponent_field(bits) - 150
    }
}

/// Whether `samples` samples at `rate` last at least as long as the denoted duration.
pub open spec fn covers_duration(bits: u32, rate: int, samples: int) -> bool {
    let scaled = significand(bits) * rate;
    let exponent = exponent_of_two(bits);
    if exponent >= 0 {
        samples >= scaled * pow2(exponent as nat)
    } else {
        samples * pow2((-exponent) as nat) >= scaled
    }
}

/// Smallest sample count that covers the denoted duration.
pub open spec fn window_limit(bits: u32, rate: int) -> int {
    let scaled = significand(bits) * rate;
    let exponent = exponent_of_two(bits);
    if exponent >= 0 {
        scaled * pow2(exponent as nat)
    } else {
        let denominator = pow2((-exponent) as nat) as int;
        (scaled + denominator - 1) / denominator
    }
}

/// Whether a duration has an executor-window limit on this machine.
pub open spec fn has_window_limit(bits: u32, rate: int) -> bool {
    is_finite_positive(bits) && window_limit(bits, rate) <= usize::MAX
}

/// `2^shift`, by doubling.
fn power_of_two(shift: u32) -> (power: u128)
    requires
        shift < 128,
    ensures
        power == pow2(shift as nat),
{
    let mut power: u128 = 1;
    let mut done: u32 = 0;
    proof {
        lemma2_to64();
    }
    while done < shift
        invariant
            done <= shift < 128,
            power == pow2(done as nat),
        decreases shift - done,
    {
        proof {
            lemma_pow2_unfold((done + 1) as nat);
            lemma_pow2_below_u128((done + 1) as nat);
        }
        power = power * 2;
        done = done + 1;
    }
    power
}

proof fn lemma_pow2_below_u128(exponent: nat)
    requires
        exponent < 128,
    ensures
        pow2(exponent) <= u128::MAX,
{
    lemma2_to64();
    lemma_pow2_adds(64, 63);
    assert(pow2(127) <= u128::MAX) by {
        lemma2_to64_rest();
        assert(pow2(64) * pow2(63) == 0x1_0000_0000_0000_0000nat * 0x8000_0000_0000_0000nat);
    }
    if exponent < 127 {
        lemma_pow2_strictly_increases(exponent, 127);
    }
}

/// Smallest sample count that covers the configured finite positive duration.
///
/// The duration comes as its bit pattern. Every other pattern, and a duration whose
/// sample count does not fit the machine, is refused.
pub fn executor_window_limit_samples(
    max_chunk_seconds_bits: u32,
    sample_rate_hz: u32,
) -> (result: Result<usize, ExecutorWindowLimitError>)
    requires
        sample_rate_hz > 0,
    ensures
        match result {
            Ok(limit) => has_window_limit(max_chunk_seconds_bits, sample_rate_hz as int)
                && limit == window_limit(max_chunk_seconds_bits, sample_rate_hz as int),
            Err(error) => !has_window_limit(max_chunk_seconds_bits, sample_rate_hz as int)
                && error == (ExecutorWindowLimitError::InvalidDuration {
                seconds_bits: max_chunk_seconds_bits,
            }),
        },
{
    let bits: u32 = max_chunk_seconds_bits;
    let invalid = ExecutorWindowLimitError::InvalidDuration { seconds_bits: bits };
    let exponent_bits: u32 = (bits / 0x80_0000) % 0x100;
    if bits >= 0x8000_0000 || exponent_bits == 0xff || bits == 0 {
        return Err(invalid);
    }
    let fraction: u32 = bits % 0x80_0000;
    let significand_bits: u32 = if exponent_bits == 0 {
        fraction
    } else {
        0x80_0000 + fraction
    };
    let exponent: i32 = if exponent_bits == 0 {
        -149
    } else {
        exponent_bits as i32 - 150
    };
    proof {
        assert(0 < significand_bits as int * sample_rate_hz as int <= 0xff_ffff * 0xffff_ffff)
            by (nonlinear_arith)
            requires
                0 < significand_bits <= 0xff_ffff,
                0 < sample_rate_hz <= 0xffff_ffff,
        ;
        lemma2_to64();
        lemma2_to64_rest();
    }
    let scaled: u128 = significand_bits as u128 * sample_rate_hz as u128;
    let samples: u128 = if exponent >= 0 {
        if exponent >= 64 {
            proof {
                if exponent > 64 {
                    lemma_pow2_strictly_increases(64, exponent as nat);
                }
                assert(scaled * pow2(exponent as nat) > usize::MAX) by (nonlinear_arith)
                    requires
                        scaled >= 1,
                        pow2(exponent as nat) >= 0x1_0000_0000_0000_0000,
                        usize::MAX < 0x1_0000_0000_0000_0000,
                ;
            }
            return Err(invalid);
        }
        let power: u128 = power_of_two(exponent as u32);
        proof {
            lemma_pow2_strictly_increases(exponent as nat, 64);
            assert(scaled * power <= u128::MAX) by (nonlinear_arith)
                requires
                    scaled <= 0xff_ffff * 0xffff_ffff,
                    power <= 0x1_0000_0000_0000_0000,
            ;
        }
        scaled * power
    } else {
        let shift: u32 = (0 - exponent) as u32;
        if shift >= 128 {
            proof {
                if shift > 128 {
                    lemma_pow2_strictly_increases(128, shift as nat);
                }
                lemma_pow2_adds(64, 64);
                assert(pow2(128) == 0x1_0000_0000_0000_0000nat * 0x1_0000_0000_0000_0000nat);
                lemma_ceiling_of_small(scaled as int, pow2(shift as nat) as int);
            }
            1
        } else {
            let denominator: u128 = power_of_two(shift);
            proof {
                lemma_pow2_below_u128(shift as nat);
                lemma_pow2_pos(shift as nat);
                if shift < 127 {
                    lemma_pow2_strictly_increases(shift as nat, 127);
                }
                lemma_pow2_adds(64, 63);
                assert(pow2(127) == 0x1_0000_0000_0000_0000nat * 0x8000_0000_0000_0000nat);
            }
            (scaled + (denominator - 1)) / denominator
        }
    };
    if samples > usize::MAX as u128 {
        Err(invalid)
    } else {
        Ok(samples as usize)
    }
}

proof fn lemma_ceiling_of_small(value: int, denominator: int)
    requires
        0 < value <= denominator,
    ensures
        (value + denominator - 1) / denominator == 1,
{
    lemma_fundamental_div_mod_converse(value + denominator - 1, denominator, 1, value - 1);
}

/// The limit is the smallest sample count whose duration reaches the configured one,
/// and it is never zero.
pub proof fn law_window_limit_is_the_smallest_cover(bits: u32, rate: int, samples: int)
    requires
        is_finite_positive(bits),
        rate > 0,
    ensures
        window_limit(bits, rate) >= 1,
        covers_duration(bits, rate, samples) <==> samples >= window_limit(bits, rate),
{
    let scaled = significand(bits) * rate;
    assert(scaled >= 1) by (nonlinear_arith)
        requires
            scaled == significand(bits) * rate,
            significand(bits) >= 1,
            rate > 0,
    ;
    let exponent = exponent_of_two(bits);
    if exponent >= 0 {
        lemma_pow2_pos(exponent as nat);
        assert(scaled * pow2(exponent as nat) >= 1) by (nonlinear_arith)
            requires
                scaled >= 1,
                pow2(exponent as nat) >= 1,
        ;
    } else {
        let denominator = pow2((-exponent) as nat) as int;
        lemma_pow2_pos((-exponent) as nat);
        lemma_fundamental_div_mod(scaled + denominator - 1, denominator);
        lemma_mod_bound(scaled + denominator - 1, denominator);
        let limit = (scaled + denominator - 1) / denominator;
        let rest = (scaled + denominator - 1) % denominator;
        assert(limit >= 1) by (nonlinear_arith)
            requires
                scaled + denominator - 1 == denominator * limit + rest,
                0 <= rest < denominator,
                scaled >= 1,
                denominator >= 1,
        ;
        assert(samples * denominator >= scaled <==> samples >= limit) by (nonlinear_arith)
            requires
                scaled + denominator - 1 == denominator * limit + rest,
                0 <= rest < denominator,
                denominator >= 1,
        ;
    }
}

/// The ceiling is read as a single-precision number. A pattern is refused unless its sign is
/// positive, its exponent field is not all ones, and it is not zero. With exponent field `e`
/// and fraction `f` it stands for `(2^23 + f) * 2^(e - 150)` seconds, and for `f * 2^-149`
/// where the field is zero; a number of samples lasts that long exactly where it reaches the
/// limit.
pub proof fn law_ceiling_reads_single_precision(
    bits: u32,
    e: int,
    f: int,
    rate: int,
    samples: int,
)
    requires
        0 <= e <= 0xff,
        0 <= f < 0x80_0000,
        bits == e * 0x80_0000 + f,
        rate > 0,
    ensures
        is_finite_positive(bits) <==> e < 0xff && (e > 0 || f > 0),
        150 <= e < 0xff ==> window_limit(bits, rate) == (0x80_0000 + f) * rate * pow2(
            (e - 150) as nat,
        ),
        1 <= e < 150 ==> (samples >= window_limit(bits, rate) <==> samples * pow2(
            (150 - e) as nat,
        ) >= (0x80_0000 + f) * rate),
        e == 0 && f > 0 ==> (samples >= window_limit(bits, rate) <==> samples * pow2(149) >= f
            * rate),
{
    assert(bits as int / 0x80_0000 == e);
    assert(bits as int % 0x80_0000 == f);
    if is_finite_positive(bits) {
        law_window_limit_is_the_smallest_cover(bits, rate, samples);
    }
}

/// A pattern with the sign bit set is no duration.
pub proof fn law_negative_durations_are_refused(bits: u32, rate: int)
    requires
        bits >= 0x8000_0000,
    ensures
        !has_window_limit(bits, rate),
{
}

} // verus!
