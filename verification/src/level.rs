//! Loudness-scale helpers in fixed point.
//!
//! A gain of 1.0 (full scale) is `GAIN_UNITS_PER_FULL_SCALE` units, so one
//! unit is 1e-5 of full scale — exactly the floor that the decibel conversion
//! clamps against. The conversion itself, `20 * log10(clamped gain)`, is a
//! floating-point operation and lives with the application; everything the
//! conversion does besides the logarithm — discarding the sign and clamping
//! silence up to the floor — is `clamp_gain` and is verified here. Decibel
//! values are carried as milli-decibels (`-40_000` is -40 dB).

use vstd::prelude::*;

verus! {

/// Number of fixed-point gain units in a full-scale gain of 1.0.
pub const GAIN_UNITS_PER_FULL_SCALE: i64 = 100000;

/// The clamp floor of the decibel conversion: 1e-5 of full scale, one unit.
pub const GAIN_FLOOR_UNITS: u64 = 1;

/// Magnitude of an integer.
pub open spec fn abs_spec(g: int) -> int {
    if g >= 0 {
        g
    } else {
        -g
    }
}

/// The gain value that the decibel conversion takes the logarithm of:
/// the magnitude of the raw gain, clamped up to the floor.
pub open spec fn clamped_gain_spec(g: int) -> int {
    if abs_spec(g) >= GAIN_FLOOR_UNITS as int {
        abs_spec(g)
    } else {
        GAIN_FLOOR_UNITS as int
    }
}

/// Pre-logarithm half of the decibel conversion: discard the sign of the
/// gain and clamp silence up to the floor so the logarithm is defined.
pub fn clamp_gain(gain_units: i64) -> (r: u64)
    ensures
        r as int == clamped_gain_spec(gain_units as int),
{
    let magnitude: u64 = if gain_units >= 0 {
        gain_units as u64
    } else if gain_units == i64::MIN {
        9223372036854775808u64
    } else {
        (-gain_units) as u64
    };
    if magnitude < GAIN_FLOOR_UNITS {
        GAIN_FLOOR_UNITS
    } else {
        magnitude
    }
}

/// The decibel conversion is blind to sign and treats silence as the floor:
/// a gain of zero clamps to the same value as a gain at the floor itself,
/// and opposite gains clamp to the same value.
pub proof fn lemma_clamp_floor_and_symmetry(g: int)
    ensures
        clamped_gain_spec(0) == clamped_gain_spec(GAIN_FLOOR_UNITS as int),
        clamped_gain_spec(-g) == clamped_gain_spec(g),
{
}

/// Height of the volume meter, in thousandths of its full height, for a
/// loudness of `db_millis`: the meter spans -60 dB to 0 dB linearly and
/// stays empty below -60 dB.
pub open spec fn meter_level_spec(db_millis: int) -> int {
    if db_millis <= -60000 {
        0
    } else {
        (db_millis + 60000) / 60
    }
}

/// Computes the meter height for the current loudness.
pub fn meter_level_permille(db_millis: i64) -> (r: u64)
    requires
        db_millis <= i64::MAX - 60000,
    ensures
        r as int == meter_level_spec(db_millis as int),
{
    if db_millis <= -60000 {
        0
    } else {
        ((db_millis + 60000) / 60) as u64
    }
}

} // verus!
