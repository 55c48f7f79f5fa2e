//! Eased animations in fixed point, and the beat pulse of the playhead.
//!
//! Progress is an integer in `[0, PROGRESS_ONE]`, where `PROGRESS_ONE`
//! stands for 1. Elapsed time outside `[0, length]` is clamped, so progress
//! never leaves that range.
use vstd::prelude::*;

verus! {

/// Fixed-point unit of progress.
pub const PROGRESS_ONE: u64 = 1_000_000;

/// Length of the beat pulse, in milliseconds.
pub const PULSE_MS: u64 = 500;

#[derive(Clone, Copy, Debug, PartialEq, Eq, Structural)]
pub enum AnimationFunction {
    Linear,
    EaseInQuad,
    EaseOutQuad,
    EaseInCubic,
    EaseOutCubic,
}

/// `f(p)` for `p` in `[0, PROGRESS_ONE]`, rounded down:
/// `p`, `p^2`, `p(2 - p)`, `p^3` and `1 + (p - 1)^3` in units of `PROGRESS_ONE`.
pub open spec fn ease(f: AnimationFunction, p: int) -> int {
    let s = PROGRESS_ONE as int;
    match f {
        AnimationFunction::Linear => p,
        AnimationFunction::EaseInQuad => (p * p) / s,
        AnimationFunction::EaseOutQuad => (p * (2 * s - p)) / s,
        AnimationFunction::EaseInCubic => (p * p * p) / (s * s),
        AnimationFunction::EaseOutCubic => s - ((s - p) * (s - p) * (s - p)) / (s * s),
    }
}

/// Clamped progress after `elapsed` ms of an animation `length` ms long.
pub open spec fn progress_of(elapsed: int, length: int) -> int {
    if elapsed <= 0 {
        0
    } else if elapsed >= length {
        PROGRESS_ONE as int
    } else {
        (elapsed * PROGRESS_ONE) / length
    }
}

impl AnimationFunction {
    pub fn value(&self, p: u64) -> (r: u64)
        requires
            p <= PROGRESS_ONE,
        ensures
            r == ease(*self, p as int),
            r <= PROGRESS_ONE,
    {
        let s: u64 = PROGRESS_ONE;
        proof {
            lemma_ease_range(*self, p as int);
            assert(p * p <= s * s) by (nonlinear_arith)
                requires
                    p <= s,
            ;
            assert(p * p * p <= s * s * s) by (nonlinear_arith)
                requires
                    p <= s,
            ;
            assert(p * (2 * s - p) <= 2 * s * s) by (nonlinear_arith)
                requires
                    p <= s,
            ;
            assert((s - p) * (s - p) * (s - p) <= s * s * s) by (nonlinear_arith)
                requires
                    p <= s,
            ;
            assert((s - p) * (s - p) <= s * s) by (nonlinear_arith)
                requires
                    p <= s,
            ;
        }
        match self {
            AnimationFunction::Linear => p,
            AnimationFunction::EaseInQuad => (p * p) / s,
            AnimationFunction::EaseOutQuad => (p * (2 * s - p)) / s,
            AnimationFunction::EaseInCubic => (p * p * p) / (s * s),
            AnimationFunction::EaseOutCubic => s - ((s - p) * (s - p) * (s - p)) / (s * s),
        }
    }
}

proof fn lemma_ease_range(f: AnimationFunction, p: int)
    requires
        0 <= p <= PROGRESS_ONE,
    ensures
        0 <= ease(f, p) <= PROGRESS_ONE,
{
    let s = PROGRESS_ONE as int;
    assert(0 <= p * p <= s * s) by (nonlinear_arith)
        requires
            0 <= p <= s,
    ;
    assert(0 <= p * (2 * s - p) <= s * s) by (nonlinear_arith)
        requires
            0 <= p <= s,
    ;
    assert(0 <= p * p * p <= s * s * s) by (nonlinear_arith)
        requires
            0 <= p <= s,
    ;
    assert(0 <= (s - p) * (s - p) * (s - p) <= s * s * s) by (nonlinear_arith)
        requires
            0 <= p <= s,
    ;
    vstd::arithmetic::div_mod::lemma_div_is_ordered(p * p, s * s, s);
    vstd::arithmetic::div_mod::lemma_div_is_ordered(p * (2 * s - p), s * s, s);
    vstd::arithmetic::div_mod::lemma_div_is_ordered(p * p * p, s * s * s, s * s);
    vstd::arithmetic::div_mod::lemma_div_is_ordered(
        (s - p) * (s - p) * (s - p),
        s * s * s,
        s * s,
    );
    vstd::arithmetic::div_mod::lemma_div_by_multiple(s, s);
    vstd::arithmetic::div_mod::lemma_div_by_multiple(s, s * s);
    assert(s * s * s == s * (s * s)) by (nonlinear_arith);
    vstd::arithmetic::div_mod::lemma_div_pos_is_pos(p * p, s);
    vstd::arithmetic::div_mod::lemma_div_pos_is_pos(p * (2 * s - p), s);
    vstd::arithmetic::div_mod::lemma_div_pos_is_pos(p * p * p, s * s);
    vstd::arithmetic::div_mod::lemma_div_pos_is_pos((s - p) * (s - p) * (s - p), s * s);
}

/// Every easing function is monotonically non-decreasing on `[0, PROGRESS_ONE]`.
proof fn lemma_ease_monotone(f: AnimationFunction, p1: int, p2: int)
    requires
        0 <= p1 <= p2 <= PROGRESS_ONE,
    ensures
        ease(f, p1) <= ease(f, p2),
{
    let s = PROGRESS_ONE as int;
    assert(p1 * p1 <= p2 * p2) by (nonlinear_arith)
        requires
            0 <= p1 <= p2,
    ;
    assert(p1 * p1 * p1 <= p2 * p2 * p2) by (nonlinear_arith)
        requires
            0 <= p1 <= p2,
    ;
    assert(p1 * (2 * s - p1) <= p2 * (2 * s - p2)) by (nonlinear_arith)
        requires
            0 <= p1 <= p2 <= s,
    ;
    assert((s - p2) * (s - p2) * (s - p2) <= (s - p1) * (s - p1) * (s - p1)) by (nonlinear_arith)
        requires
            0 <= p1 <= p2 <= s,
    ;
    vstd::arithmetic::div_mod::lemma_div_is_ordered(p1 * p1, p2 * p2, s);
    vstd::arithmetic::div_mod::lemma_div_is_ordered(p1 * (2 * s - p1), p2 * (2 * s - p2), s);
    vstd::arithmetic::div_mod::lemma_div_is_ordered(p1 * p1 * p1, p2 * p2 * p2, s * s);
    vstd::arithmetic::div_mod::lemma_div_is_ordered(
        (s - p2) * (s - p2) * (s - p2),
        (s - p1) * (s - p1) * (s - p1),
        s * s,
    );
}

/// Clamped progress grows with elapsed time.
proof fn lemma_progress_monotone(e1: int, e2: int, length: int)
    requires
        e1 <= e2,
        length > 0,
    ensures
        0 <= progress_of(e1, length) <= progress_of(e2, length) <= PROGRESS_ONE,
{
    let s = PROGRESS_ONE as int;
    if 0 < e1 && e1 < length {
        assert(e1 * s <= length * s) by (nonlinear_arith)
            requires
                e1 < length,
                s > 0,
        ;
        vstd::arithmetic::div_mod::lemma_div_is_ordered(e1 * s, length * s, length);
        vstd::arithmetic::div_mod::lemma_div_by_multiple(s, length);
        assert(s * length == length * s) by (nonlinear_arith);
        vstd::arithmetic::div_mod::lemma_div_pos_is_pos(e1 * s, length);
        if e2 < length {
            assert(e1 * s <= e2 * s) by (nonlinear_arith)
                requires
                    e1 <= e2,
                    s > 0,
            ;
            vstd::arithmetic::div_mod::lemma_div_is_ordered(e1 * s, e2 * s, length);
            vstd::arithmetic::div_mod::lemma_div_is_ordered(e2 * s, length * s, length);
        }
    }
    if 0 < e2 && e2 < length {
        assert(e2 * s <= length * s) by (nonlinear_arith)
            requires
                e2 < length,
                s > 0,
        ;
        vstd::arithmetic::div_mod::lemma_div_is_ordered(e2 * s, length * s, length);
        vstd::arithmetic::div_mod::lemma_div_by_multiple(s, length);
        assert(s * length == length * s) by (nonlinear_arith);
        vstd::arithmetic::div_mod::lemma_div_pos_is_pos(e2 * s, length);
    }
}

/// An animation started at `start_ms`, lasting `length_ms`.
#[derive(Clone, Copy, Debug, PartialEq, Eq, Structural)]
pub struct Animation {
    pub start_ms: i64,
    pub length_ms: u64,
    pub function: AnimationFunction,
}

impl Animation {
    pub open spec fn wf(self) -> bool {
        self.length_ms > 0
    }

    /// Eased, clamped progress at time `time_ms`.
    pub open spec fn value_at(self, time_ms: int) -> int {
        ease(self.function, progress_of(time_ms - self.start_ms, self.length_ms as int))
    }

    pub fn new(start_ms: i64, length_ms: u64, function: AnimationFunction) -> (r: Animation)
        requires
            length_ms > 0,
        ensures
            r == (Animation { start_ms, length_ms, function }),
            r.wf(),
    {
        Animation { start_ms, length_ms, function }
    }

    pub fn value(&self, time_ms: i64) -> (r: u64)
        requires
            self.wf(),
        ensures
            r == self.value_at(time_ms as int),
            r <= PROGRESS_ONE,
    {
        let elapsed: i128 = time_ms as i128 - self.start_ms as i128;
        let p: u64 = if elapsed <= 0 {
            0
        } else if elapsed >= self.length_ms as i128 {
            PROGRESS_ONE
        } else {
            let e: u128 = elapsed as u128;
            proof {
                assert(e * PROGRESS_ONE <= self.length_ms * PROGRESS_ONE) by (nonlinear_arith)
                    requires
                        e < self.length_ms,
                ;
                assert(self.length_ms * PROGRESS_ONE <= 0x1_0000_0000_0000_0000 * PROGRESS_ONE)
                    by (nonlinear_arith)
                    requires
                        self.length_ms < 0x1_0000_0000_0000_0000,
                ;
                vstd::arithmetic::div_mod::lemma_div_is_ordered(
                    e * PROGRESS_ONE,
                    self.length_ms * PROGRESS_ONE,
                    self.length_ms as int,
                );
                vstd::arithmetic::div_mod::lemma_div_by_multiple(
                    PROGRESS_ONE as int,
                    self.length_ms as int,
                );
                assert(PROGRESS_ONE * self.length_ms == self.length_ms * PROGRESS_ONE)
                    by (nonlinear_arith);
            }
            ((e * (PROGRESS_ONE as u128)) / (self.length_ms as u128)) as u64
        };
        self.function.value(p)
    }
}

/// Progress of an animation never decreases as time goes on, and stays in
/// `[0, PROGRESS_ONE]` at every time, also after the animation has run its
/// length.
pub proof fn lemma_animation_monotone(a: Animation, t1: int, t2: int)
    requires
        a.wf(),
        t1 <= t2,
    ensures
        0 <= a.value_at(t1) <= a.value_at(t2) <= PROGRESS_ONE,
{
    lemma_progress_monotone(t1 - a.start_ms, t2 - a.start_ms, a.length_ms as int);
    let p1 = progress_of(t1 - a.start_ms, a.length_ms as int);
    let p2 = progress_of(t2 - a.start_ms, a.length_ms as int);
    lemma_ease_monotone(a.function, p1, p2);
    lemma_ease_range(a.function, p1);
    lemma_ease_range(a.function, p2);
}

/// The playhead's beat pulse: alive while the transport sits on the first
/// beat of a bar at a non-negative time.
pub struct BeatPulse {
    pub animation: Option<Animation>,
}

impl BeatPulse {
    pub open spec fn wf(&self) -> bool {
        self.animation matches Some(a) ==> a.wf()
    }

    pub fn new() -> (r: BeatPulse)
        ensures
            r.animation.is_none(),
            r.wf(),
    {
        BeatPulse { animation: None }
    }

    /// One frame at transport time `time_ms` with the transport on beat
    /// `beat_of_measure` of its bar. On the first beat (at a non-negative
    /// time) a 500 ms ease-out-cubic pulse starts unless one runs, and its
    /// progress is returned; elsewhere the pulse is dropped.
    pub fn update(&mut self, beat_of_measure: u64, time_ms: i64) -> (r: Option<u64>)
        requires
            old(self).wf(),
        ensures
            final(self).wf(),
            beat_of_measure == 0 && time_ms >= 0 ==> {
                let a = match old(self).animation {
                    Some(a) => a,
                    None => Animation {
                        start_ms: time_ms,
                        length_ms: PULSE_MS,
                        function: AnimationFunction::EaseOutCubic,
                    },
                };
                &&& final(self).animation == Some(a)
                &&& r == Some(a.value_at(time_ms as int) as u64)
            },
            !(beat_of_measure == 0 && time_ms >= 0) ==> final(self).animation.is_none()
                && r.is_none(),
    {
        if beat_of_measure == 0 && time_ms >= 0 {
            if self.animation.is_none() {
                self.animation = Some(Animation::new(time_ms, PULSE_MS, AnimationFunction::EaseOutCubic));
            }
            match &self.animation {
                Some(a) => Some(a.value(time_ms)),
                None => None,
            }
        } else {
            self.animation = None;
            None
        }
    }
}

/// Playhead stroke width in thousandths of a pixel: 3 px, widened by up to
/// 5 px at the start of a beat pulse and narrowing as it progresses.
pub fn playhead_stroke_width(progress: Option<u64>) -> (r: u64)
    requires
        progress matches Some(p) ==> p <= PROGRESS_ONE,
    ensures
        r == match progress {
            Some(p) => 3000 + ((PROGRESS_ONE - p) * 5000) / PROGRESS_ONE as int,
            None => 3000,
        },
        3000 <= r <= 8000,
{
    match progress {
        Some(p) => {
            proof {
                assert((PROGRESS_ONE - p) * 5000 <= PROGRESS_ONE * 5000) by (nonlinear_arith)
                    requires
                        p <= PROGRESS_ONE,
                ;
                vstd::arithmetic::div_mod::lemma_div_is_ordered(
                    (PROGRESS_ONE - p) * 5000,
                    PROGRESS_ONE * 5000,
                    PROGRESS_ONE as int,
                );
                vstd::arithmetic::div_mod::lemma_div_by_multiple(5000, PROGRESS_ONE as int);
                assert(5000 * PROGRESS_ONE == PROGRESS_ONE * 5000);
            }
            3000 + ((PROGRESS_ONE - p) * 5000) / PROGRESS_ONE
        },
        None => 3000,
    }
}

} // verus!
