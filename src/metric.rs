//! Beats, bars and the transport clock.
use vstd::prelude::*;
use crate::timeline::{floor_div, floor_mod};

verus! {

/// Tempo and time signature: a beat lasts `samples_per_beat` samples, and a
/// bar holds `beats_per_bar` beats of note value `beat_unit`.
#[derive(Clone, Copy, Debug, PartialEq, Eq, Structural)]
pub struct MetricStructure {
    pub samples_per_beat: u64,
    pub beats_per_bar: u8,
    pub beat_unit: u8,
}

impl MetricStructure {
    pub open spec fn wf(self) -> bool {
        self.samples_per_beat > 0 && self.beats_per_bar > 0
    }

    /// Beat that transport time `time` falls in, counted from time zero
    /// (rounded down, so negative before zero).
    pub fn beat(&self, time: i64) -> (r: i64)
        requires
            self.wf(),
        ensures
            r == (time as int) / (self.samples_per_beat as int),
    {
        proof {
            let b = self.samples_per_beat as int;
            lemma_floor_div_bounds(time as int, b);
        }
        floor_div(time as i128, self.samples_per_beat as i128) as i64
    }

    /// Position of `beat` within its bar, from zero.
    pub fn beat_of_measure(&self, beat: i64) -> (r: u8)
        requires
            self.wf(),
        ensures
            r == (beat as int) % (self.beats_per_bar as int),
    {
        floor_mod(beat as i128, self.beats_per_bar as i128) as u8
    }

    /// Bar that `beat` falls in, counted from zero.
    pub fn measure(&self, beat: i64) -> (r: i64)
        requires
            self.wf(),
        ensures
            r == (beat as int) / (self.beats_per_bar as int),
    {
        proof {
            lemma_floor_div_bounds(beat as int, self.beats_per_bar as int);
        }
        floor_div(beat as i128, self.beats_per_bar as i128) as i64
    }
}

proof fn lemma_floor_div_bounds(n: int, d: int)
    requires
        i64::MIN <= n <= i64::MAX,
        d >= 1,
    ensures
        i64::MIN <= n / d <= i64::MAX,
{
    vstd::arithmetic::div_mod::lemma_fundamental_div_mod(n, d);
    if n >= 0 {
        vstd::arithmetic::div_mod::lemma_div_is_ordered_by_denominator(n, 1, d);
        vstd::arithmetic::div_mod::lemma_div_pos_is_pos(n, d);
    } else {
        assert(n / d >= n) by (nonlinear_arith)
            requires
                n == d * (n / d) + n % d,
                0 <= n % d < d,
                d >= 1,
                n < 0,
        ;
        assert(n / d < 0) by (nonlinear_arith)
            requires
                n == d * (n / d) + n % d,
                0 <= n % d < d,
                d >= 1,
                n < 0,
        ;
    }
}

/// The transport clock: sign, hours, minutes and whole seconds.
#[derive(Clone, Copy, Debug, PartialEq, Eq, Structural)]
pub struct ClockTime {
    pub negative: bool,
    pub hours: u64,
    pub minutes: u64,
    pub seconds: u64,
}

/// Splits `ms` milliseconds into a sign and the whole hours, minutes and
/// seconds of its magnitude.
pub fn clock_time(ms: i64) -> (r: ClockTime)
    ensures
        r.negative == (ms < 0),
        ({
            let total = (if ms < 0 { -ms } else { ms as int }) / 1000;
            &&& r.hours == total / 3600
            &&& r.minutes == (total % 3600) / 60
            &&& r.seconds == total % 60
        }),
{
    let negative: bool = ms < 0;
    let magnitude: u64 = if ms < 0 { (-(ms as i128)) as u64 } else { ms as u64 };
    let total: u64 = magnitude / 1000;
    let hours: u64 = total / 3600;
    let rest: u64 = total - hours * 3600;
    proof {
        vstd::arithmetic::div_mod::lemma_fundamental_div_mod(total as int, 3600);
        assert(rest == total % 3600);
        vstd::arithmetic::div_mod::lemma_mod_mod(total as int, 60, 60);
        assert(total % 60 == (total % 3600) % 60) by {
            vstd::arithmetic::div_mod::lemma_mod_mod(total as int, 60, 60);
        }
    }
    let minutes: u64 = rest / 60;
    let seconds: u64 = rest - minutes * 60;
    ClockTime { negative, hours, minutes, seconds }
}

} // verus!
