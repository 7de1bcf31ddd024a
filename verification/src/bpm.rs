//! The estimate as a 32-bit IEEE-754 float, computed in integers: OSC
//! carries the beats per minute as a float, and the sampler counts them in
//! thousandths.

use vstd::arithmetic::power2::{lemma2_to64, pow2};
use vstd::prelude::*;

verus! {

/// The slowest pulse that is read, in thousandths of a beat per minute.
pub const MIN_MILLI_BPM: u64 = 30_000;

/// The fastest pulse that is read, in thousandths of a beat per minute.
pub const MAX_MILLI_BPM: u64 = 300_000;

/// Two to the power of 23: the weight of a float's leading significand
/// bit, and the step between two exponent fields.
pub const HIDDEN_BIT: u64 = 0x80_0000;

/// Whether a pulse in thousandths of a beat per minute is in range.
pub open spec fn in_range(milli: nat) -> bool {
    MIN_MILLI_BPM as nat <= milli <= MAX_MILLI_BPM as nat
}

/// The binary exponent `e` of a pulse in range: two to the `e` is the
/// largest power of two that is at most the beats per minute.
pub open spec fn exponent(milli: nat) -> nat {
    if milli < 32_000 {
        4
    } else if milli < 64_000 {
        5
    } else if milli < 128_000 {
        6
    } else if milli < 256_000 {
        7
    } else {
        8
    }
}

/// Two to the power of `23 - e`: how many units of the float's last place
/// make one beat per minute.
pub open spec fn units_per_beat(milli: nat) -> nat {
    if milli < 32_000 {
        524_288
    } else if milli < 64_000 {
        262_144
    } else if milli < 128_000 {
        131_072
    } else if milli < 256_000 {
        65_536
    } else {
        32_768
    }
}

/// The float's 24-bit significand: the pulse in units of the last place,
/// rounded to the nearest whole.
pub open spec fn significand(milli: nat) -> nat {
    (milli * units_per_beat(milli) + 500) / 1000
}

/// The bit pattern of the float: sign zero, the exponent with its bias of
/// 127 in the next eight bits, and the significand without its leading bit
/// in the last 23.
pub open spec fn float_bits_of(milli: nat) -> nat {
    (exponent(milli) + 126) * HIDDEN_BIT as nat + significand(milli)
}

/// Rounding a count of thousandths of a unit to whole units: when the
/// count is a multiple of eight, the nearest whole is less than half a unit
/// away.
proof fn lemma_rounding(count: nat)
    requires
        count % 8 == 0,
    ensures
        -500 < ((count + 500) / 1000) * 1000 - count < 500,
{
    let whole = (count + 500) / 1000;
    assert(whole * 1000 <= count + 500 < whole * 1000 + 1000);
    if whole * 1000 - count == 500 {
        // Then the count would be four more than a multiple of eight.
        assert(count == 8 * (125 * whole - 63) + 4);
        assert(false);
    }
}

/// The bit pattern is that of the float nearest to the pulse: a positive
/// normal number whose exponent field and fraction are as laid out, whose
/// exponent brackets the pulse, and whose significand is less than half a
/// unit of the last place from the exact value. (No pulse in thousandths
/// lies halfway between two floats, so the nearest is the only one.)
pub proof fn lemma_float_bits_is_nearest(milli: nat)
    requires
        in_range(milli),
    ensures
        0x80_0000 <= significand(milli) < 0x100_0000,
        float_bits_of(milli) < 0x8000_0000,
        float_bits_of(milli) / 0x80_0000 == 127 + exponent(milli),
        float_bits_of(milli) % 0x80_0000 == significand(milli) - 0x80_0000,
        units_per_beat(milli) * pow2(exponent(milli)) == 0x80_0000,
        1000 * 0x80_0000 <= milli * units_per_beat(milli) < 2000 * 0x80_0000,
        -500 < significand(milli) * 1000 - milli * units_per_beat(milli) < 500,
{
    lemma2_to64();
    let count: nat = if milli < 32_000 {
        milli * 524_288
    } else if milli < 64_000 {
        milli * 262_144
    } else if milli < 128_000 {
        milli * 131_072
    } else if milli < 256_000 {
        milli * 65_536
    } else {
        milli * 32_768
    };
    assert(count == milli * units_per_beat(milli));
    assert(count % 8 == 0);
    assert(8_388_608_000 <= count <= 16_777_216_000 - 32_768);
    lemma_rounding(count);
    let sig = significand(milli);
    assert(sig == (count + 500) / 1000);
    assert(8_388_608 <= sig < 16_777_216);
    let e = exponent(milli);
    assert(float_bits_of(milli) == (e + 126) * 8_388_608 + sig);
    assert(float_bits_of(milli) == (e + 127) * 8_388_608 + (sig - 8_388_608));
    assert(4 <= e <= 8);
}

/// The bit pattern of the 32-bit float nearest to a pulse given in
/// thousandths of a beat per minute.
pub fn float_bits(milli: u64) -> (bits: u32)
    requires
        in_range(milli as nat),
    ensures
        bits as nat == float_bits_of(milli as nat),
{
    let (exp, units): (u64, u64) = if milli < 32_000 {
        (4, 524_288)
    } else if milli < 64_000 {
        (5, 262_144)
    } else if milli < 128_000 {
        (6, 131_072)
    } else if milli < 256_000 {
        (7, 65_536)
    } else {
        (8, 32_768)
    };
    let sig: u64 = (milli * units + 500) / 1000;
    proof {
        lemma_float_bits_is_nearest(milli as nat);
    }
    let bits: u64 = (exp + 126) * HIDDEN_BIT + sig;
    bits as u32
}

} // verus!
