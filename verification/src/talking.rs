//! Talking-state estimator with attack/release hysteresis.
//!
//! Once per UI tick the estimator consumes the current loudness in
//! milli-decibels and the elapsed time since the last tick in microseconds.
//! A loudness above the threshold makes the state `Talking` at once and
//! rewinds the release hold; the state falls back to quiet only after the
//! hold has counted down to zero across ticks at or below the threshold.

use vstd::prelude::*;

verus! {

/// Loudness above this makes the state talking: -40 dB, in milli-decibels.
pub const THRESHOLD_MILLIDB: i64 = -40000;

/// The release hold: 0.25 s, in microseconds.
pub const RELEASE_HOLD_MICROS: u64 = 250000;

/// One estimator step at a loudness at or below the threshold, as a pair of
/// the talking flag and the remaining hold: a talking state outlasts the
/// tick exactly when the hold exceeds the elapsed time, and the hold counts
/// down, stopping at zero; a quiet state is left untouched.
pub open spec fn quiet_step(talking: bool, left: int, dt: u64) -> (bool, int) {
    if talking {
        if left > dt {
            (true, left - dt)
        } else {
            (false, 0)
        }
    } else {
        (talking, left)
    }
}

/// State after one quiet step per entry of `dts`, in order.
pub open spec fn quiet_run(talking: bool, left: int, dts: Seq<u64>) -> (bool, int)
    decreases dts.len(),
{
    if dts.len() == 0 {
        (talking, left)
    } else {
        let stepped = quiet_step(talking, left, dts[0]);
        quiet_run(stepped.0, stepped.1, dts.skip(1))
    }
}

/// Total elapsed time of a run of ticks, in microseconds.
pub open spec fn sum_micros(dts: Seq<u64>) -> int
    decreases dts.len(),
{
    if dts.len() == 0 {
        0
    } else {
        dts[0] + sum_micros(dts.skip(1))
    }
}

/// Elapsed times are not negative, so neither is their total.
pub proof fn lemma_sum_micros_nonneg(dts: Seq<u64>)
    ensures
        sum_micros(dts) >= 0,
    decreases dts.len(),
{
    if dts.len() > 0 {
        lemma_sum_micros_nonneg(dts.skip(1));
    }
}

/// A quiet state stays exactly as it is through any run of quiet ticks.
pub proof fn lemma_quiet_stays_quiet(left: int, dts: Seq<u64>)
    ensures
        quiet_run(false, left, dts) == (false, left),
    decreases dts.len(),
{
    if dts.len() > 0 {
        lemma_quiet_stays_quiet(left, dts.skip(1));
    }
}

/// Release is debounced by the hold and by nothing else: over any run of
/// ticks at or below the threshold, a talking state with `left` of its hold
/// remaining is still talking afterwards exactly when the run's total
/// elapsed time is less than `left` — one microsecond less than the hold
/// keeps it talking, reaching the hold exactly releases it — and the hold
/// it has left is what the run did not consume.
pub proof fn lemma_release_needs_full_hold(left: int, dts: Seq<u64>)
    requires
        left > 0,
    ensures
        quiet_run(true, left, dts).0 == (sum_micros(dts) < left),
        quiet_run(true, left, dts).1 == (if sum_micros(dts) < left {
            left - sum_micros(dts)
        } else {
            0
        }),
    decreases dts.len(),
{
    if dts.len() > 0 {
        let dt = dts[0];
        if left > dt {
            lemma_release_needs_full_hold(left - dt, dts.skip(1));
        } else {
            lemma_quiet_stays_quiet(0, dts.skip(1));
            lemma_sum_micros_nonneg(dts.skip(1));
        }
    }
}

/// Whether the avatar is talking, and how much of the release hold is left.
pub struct TalkingState {
    talking: bool,
    release_left_micros: u64,
}

impl TalkingState {
    /// Whether the state is `Talking` (true) or `Quiet` (false).
    pub closed spec fn talking_spec(&self) -> bool {
        self.talking
    }

    /// Remaining release hold, in microseconds.
    pub closed spec fn release_left_spec(&self) -> int {
        self.release_left_micros as int
    }

    /// The initial state: quiet, with no release hold pending.
    pub fn new() -> (r: TalkingState)
        ensures
            !r.talking_spec(),
            r.release_left_spec() == 0,
    {
        TalkingState { talking: false, release_left_micros: 0 }
    }

    /// Whether the state is `Talking`.
    pub fn is_talking(&self) -> (r: bool)
        ensures
            r == self.talking_spec(),
    {
        self.talking
    }

    /// Remaining release hold, in microseconds.
    pub fn release_left_micros(&self) -> (r: u64)
        ensures
            r as int == self.release_left_spec(),
    {
        self.release_left_micros
    }

    /// One tick: `db_millis` is the current loudness in milli-decibels and
    /// `dt_micros` the elapsed time since the last tick.
    ///
    /// Above the threshold the state becomes talking at once — attack is
    /// instantaneous, even from quiet on the very first loud tick — and the
    /// release hold rewinds to `RELEASE_HOLD_MICROS`. At or below the
    /// threshold a talking state counts the hold down by `dt_micros` and
    /// falls quiet exactly when the hold reaches zero; a quiet state stays
    /// as it is.
    pub fn tick(&mut self, db_millis: i64, dt_micros: u64)
        ensures
            db_millis > THRESHOLD_MILLIDB ==> final(self).talking_spec(),
            db_millis > THRESHOLD_MILLIDB ==> final(self).release_left_spec()
                == RELEASE_HOLD_MICROS as int,
            db_millis <= THRESHOLD_MILLIDB ==> (final(self).talking_spec(), final(self).release_left_spec())
                == quiet_step(old(self).talking_spec(), old(self).release_left_spec(), dt_micros),
    {
        if db_millis > THRESHOLD_MILLIDB {
            self.talking = true;
            self.release_left_micros = RELEASE_HOLD_MICROS;
        } else if self.talking {
            if dt_micros >= self.release_left_micros {
                self.release_left_micros = 0;
                self.talking = false;
            } else {
                self.release_left_micros = self.release_left_micros - dt_micros;
            }
        }
    }
}

} // verus!
