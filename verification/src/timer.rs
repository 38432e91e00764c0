//! A drift-compensating periodic scheduler with two compensation
//! strategies.
//!
//! The timer works on millisecond timestamps handed in by the caller, so
//! every delay computation is a pure function of its inputs and the stored
//! state. The adaptive strategy's damping test compares the current drift
//! against twice the population standard deviation of the recent samples;
//! both sides are compared squared, scaled by the sample count squared, so
//! the whole computation stays in integers.

use vstd::prelude::*;

use crate::text::{push_i64, push_u64, spec_digits, spec_int_digits};

verus! {

/// Upper bound on the millisecond timestamps the timer accepts: about 35
/// years, far past any process lifetime, and small enough that every
/// intermediate product below fits its machine type.
pub const MAX_TIMER_TIME_MS: u64 = 0x100_0000_0000;

/// How many recent inter-tick samples are kept.
pub const MAX_SAMPLES: usize = 100;

/// How many of the newest samples the adaptive statistics look at.
pub const RECENT_SAMPLES: usize = 20;

/// How many samples the adaptive damping needs before it trusts them.
pub const MIN_SAMPLES_FOR_ADAPTIVE: usize = 10;

/// How many samples must exist before the stability reset is considered.
pub const MIN_SAMPLES_FOR_RESET: usize = 50;

/// The observed interval between the last mark and now; clocks that went
/// backwards count as no time passed.
pub open spec fn spec_elapsed(last: u64, now: u64) -> u64 {
    if now >= last {
        (now - last) as u64
    } else {
        0
    }
}

/// The sample history after recording one more sample: the new sample is
/// appended and, past the bound, the oldest is dropped.
pub open spec fn spec_record(samples: Seq<u64>, sample: u64) -> Seq<u64> {
    let p = samples.push(sample);
    if p.len() > MAX_SAMPLES {
        p.subrange(1, p.len() as int)
    } else {
        p
    }
}

/// The newest twenty samples, or all of them if fewer exist.
pub open spec fn recent_of(samples: Seq<u64>) -> Seq<u64> {
    if samples.len() <= RECENT_SAMPLES {
        samples
    } else {
        samples.subrange(samples.len() - RECENT_SAMPLES, samples.len() as int)
    }
}

/// The sum of a sample sequence.
pub open spec fn sum_of(s: Seq<u64>) -> int
    decreases s.len(),
{
    if s.len() == 0 {
        0
    } else {
        sum_of(s.drop_last()) + s.last()
    }
}

/// The sum of the squares of a sample sequence.
pub open spec fn sum_sq_of(s: Seq<u64>) -> int
    decreases s.len(),
{
    if s.len() == 0 {
        0
    } else {
        sum_sq_of(s.drop_last()) + s.last() * s.last()
    }
}

/// Multiplication by 0.7 with truncation toward zero, as machine integer
/// arithmetic computes it.
pub open spec fn damp_by_seven_tenths(d: int) -> int {
    if d >= 0 {
        d * 7 / 10
    } else {
        -((-d) * 7 / 10)
    }
}

/// The drift is within twice the population standard deviation of the
/// recent samples: with n samples of sum s and square sum q, the variance
/// is (n*q - s*s) / n^2, so the comparison |drift| < 2*sqrt(variance) is
/// the integer comparison below, squared and scaled by n^2.
pub open spec fn drift_within_noise(samples: Seq<u64>, drift: int) -> bool {
    let recent = recent_of(samples);
    let n = recent.len() as int;
    let s = sum_of(recent);
    let q = sum_sq_of(recent);
    n * n * drift * drift < 4 * (n * q - s * s)
}

/// The adaptive compensation for one observed drift: the full drift when
/// samples are scarce or the excursion is genuinely large, and the damped
/// drift when it lies within the noise of the recent samples.
pub open spec fn spec_adaptive_compensation(samples: Seq<u64>, drift: int) -> int {
    if samples.len() < MIN_SAMPLES_FOR_ADAPTIVE {
        drift
    } else if drift_within_noise(samples, drift) {
        damp_by_seven_tenths(drift)
    } else {
        drift
    }
}

/// The mean of the recent samples lies within the threshold of the target
/// interval, so the accumulated compensation may be dropped. Exact integer
/// form of |mean - interval| < threshold, scaled by the sample count.
pub open spec fn spec_mean_stable(samples: Seq<u64>, interval_ms: u64, threshold: u64) -> bool {
    let recent = recent_of(samples);
    let n = recent.len() as int;
    let s = sum_of(recent);
    let centered = s - n * interval_ms;
    (if centered >= 0 {
        centered
    } else {
        -centered
    }) < n * threshold
}

/// `x` forced into `[lo, hi]`.
pub open spec fn spec_clamp(x: int, lo: int, hi: int) -> int {
    if x < lo {
        lo
    } else if x > hi {
        hi
    } else {
        x
    }
}

/// What the adaptive delay computation does: before any tick, the plain
/// interval and no change; afterwards the observed interval is recorded,
/// the drift is compensated with noise-aware damping, the result is clamped
/// to [interval/4, 2*interval], and a stable recent history resets the
/// stored compensation.
pub open spec fn adaptive_delay_post(
    pre: PrecisionTimer,
    now_ms: u64,
    post: PrecisionTimer,
    r: u64,
) -> bool {
    &&& post.target_frequency == pre.target_frequency
    &&& post.interval_ms == pre.interval_ms
    &&& post.adaptive_threshold == pre.adaptive_threshold
    &&& post.rk3399_mode == pre.rk3399_mode
    &&& post.last_tick_time == pre.last_tick_time
    &&& match pre.last_tick_time {
        None => r == pre.interval_ms && post == pre,
        Some(last) => {
            let interval = pre.interval_ms as int;
            let actual = spec_elapsed(last, now_ms);
            let drift = actual - interval;
            let samples = spec_record(pre.performance_samples@, actual);
            let comp = spec_adaptive_compensation(samples, drift);
            &&& post.performance_samples@ == samples
            &&& r == spec_clamp(interval - comp, interval / 4, interval + interval)
            &&& post.drift_compensation == if samples.len() >= MIN_SAMPLES_FOR_RESET
                && spec_mean_stable(samples, pre.interval_ms, pre.adaptive_threshold) {
                0
            } else {
                comp
            }
        },
    }
}

/// What the standard delay computation does: before any tick, the plain
/// interval and no change; afterwards the drift accumulates into the
/// compensation, the result is clamped to [interval/2, 3*interval/2], and a
/// compensation that outgrows one interval is dropped.
pub open spec fn standard_delay_post(
    pre: PrecisionTimer,
    now_ms: u64,
    post: PrecisionTimer,
    r: u64,
) -> bool {
    &&& post.target_frequency == pre.target_frequency
    &&& post.interval_ms == pre.interval_ms
    &&& post.adaptive_threshold == pre.adaptive_threshold
    &&& post.rk3399_mode == pre.rk3399_mode
    &&& post.last_tick_time == pre.last_tick_time
    &&& post.performance_samples@ == pre.performance_samples@
    &&& match pre.last_tick_time {
        None => r == pre.interval_ms && post == pre,
        Some(last) => {
            let interval = pre.interval_ms as int;
            let actual = spec_elapsed(last, now_ms);
            let drift = actual - interval;
            let accumulated = pre.drift_compensation + drift;
            &&& r == spec_clamp(interval - accumulated, interval / 2, interval * 3 / 2)
            &&& post.drift_compensation == if accumulated > interval || accumulated < -interval {
                0
            } else {
                accumulated
            }
        },
    }
}

/// A periodic scheduler that paces frame emission at a target frequency and
/// compensates for observed drift, either by plain accumulation (standard
/// mode) or by noise-aware damping over a bounded sample history (adaptive
/// mode, the default).
pub struct PrecisionTimer {
    pub target_frequency: u32,
    pub interval_ms: u64,
    pub last_tick_time: Option<u64>,
    pub drift_compensation: i64,
    pub rk3399_mode: bool,
    pub performance_samples: Vec<u64>,
    pub adaptive_threshold: u64,
}

impl PrecisionTimer {
    /// Well-formed: the interval and threshold derive from the frequency,
    /// timestamps and samples are bounded, and the compensation cannot
    /// overflow the next computation.
    pub open spec fn wf(self) -> bool {
        &&& self.target_frequency >= 1
        &&& self.interval_ms == 1000 as int / self.target_frequency as int
        &&& self.adaptive_threshold == self.interval_ms as int / 4
        &&& match self.last_tick_time {
            Some(t) => t < MAX_TIMER_TIME_MS,
            None => true,
        }
        &&& self.performance_samples@.len() <= MAX_SAMPLES
        &&& forall|i: int|
            0 <= i < self.performance_samples@.len() ==> (#[trigger] self.performance_samples@[i])
                < MAX_TIMER_TIME_MS
        &&& -(MAX_TIMER_TIME_MS as int) - 1000 <= self.drift_compensation
            <= MAX_TIMER_TIME_MS + 1000
    }

    /// A fresh timer at the given frequency, in adaptive mode, with no tick
    /// recorded, no compensation and no samples.
    pub fn new(frequency: u32) -> (r: Self)
        requires
            frequency >= 1,
        ensures
            r.wf(),
            r.target_frequency == frequency,
            r.interval_ms == 1000 as int / frequency as int,
            r.last_tick_time is None,
            r.drift_compensation == 0,
            r.rk3399_mode == true,
            r.performance_samples@ == Seq::<u64>::empty(),
            r.adaptive_threshold == r.interval_ms / 4,
    {
        let interval_ms = 1000u64 / (frequency as u64);
        PrecisionTimer {
            target_frequency: frequency,
            interval_ms,
            last_tick_time: None,
            drift_compensation: 0,
            rk3399_mode: true,
            performance_samples: Vec::new(),
            adaptive_threshold: interval_ms / 4,
        }
    }

    /// Records `now_ms` as the instant of the last tick.
    pub fn mark_tick(&mut self, now_ms: u64)
        requires
            old(self).wf(),
            now_ms < MAX_TIMER_TIME_MS,
        ensures
            final(self).wf(),
            *final(self) == (PrecisionTimer { last_tick_time: Some(now_ms), ..*old(self) }),
    {
        self.last_tick_time = Some(now_ms);
    }

    /// Forgets the last tick, the compensation and the sample history.
    pub fn reset(&mut self)
        requires
            old(self).wf(),
        ensures
            final(self).wf(),
            final(self).last_tick_time is None,
            final(self).drift_compensation == 0,
            final(self).performance_samples@ == Seq::<u64>::empty(),
            final(self).target_frequency == old(self).target_frequency,
            final(self).interval_ms == old(self).interval_ms,
            final(self).adaptive_threshold == old(self).adaptive_threshold,
            final(self).rk3399_mode == old(self).rk3399_mode,
    {
        self.last_tick_time = None;
        self.drift_compensation = 0;
        self.performance_samples.clear();
    }

    /// The configured target frequency.
    pub fn get_frequency(&self) -> (r: u32)
        ensures
            r == self.target_frequency,
    {
        self.target_frequency
    }

    /// Switches between the adaptive and the standard strategy.
    pub fn set_rk3399_mode(&mut self, enabled: bool)
        requires
            old(self).wf(),
        ensures
            final(self).wf(),
            *final(self) == (PrecisionTimer { rk3399_mode: enabled, ..*old(self) }),
    {
        self.rk3399_mode = enabled;
    }

    /// Appends one observed interval to the history, dropping the oldest
    /// sample once the bound is reached.
    fn record_performance_sample(&mut self, sample: u64)
        requires
            old(self).wf(),
            sample < MAX_TIMER_TIME_MS,
        ensures
            final(self).wf(),
            final(self).performance_samples@ == spec_record(
                old(self).performance_samples@,
                sample,
            ),
            *final(self) == (PrecisionTimer {
                performance_samples: final(self).performance_samples,
                ..*old(self)
            }),
    {
        self.performance_samples.push(sample);
        if self.performance_samples.len() > MAX_SAMPLES {
            let _ = self.performance_samples.remove(0);
        }
    }

    /// The adaptive compensation for the given drift, from the current
    /// sample history.
    fn calculate_adaptive_compensation(&self, current_drift: i64) -> (r: i64)
        requires
            self.wf(),
            -(MAX_TIMER_TIME_MS as int) - 1000 <= current_drift <= MAX_TIMER_TIME_MS + 1000,
        ensures
            r == spec_adaptive_compensation(self.performance_samples@, current_drift as int),
    {
        if self.performance_samples.len() < MIN_SAMPLES_FOR_ADAPTIVE {
            return current_drift;
        }
        let len = self.performance_samples.len();
        let start = if len > RECENT_SAMPLES {
            len - RECENT_SAMPLES
        } else {
            0
        };
        let (s, q) = sum_and_squares(&self.performance_samples, start);
        proof {
            if len > RECENT_SAMPLES {
                assert(self.performance_samples@.subrange(start as int, len as int) =~= recent_of(
                    self.performance_samples@,
                ));
            } else {
                assert(self.performance_samples@.subrange(start as int, len as int) =~= recent_of(
                    self.performance_samples@,
                ));
            }
        }
        let n = (len - start) as i128;
        let d = current_drift as i128;
        proof {
            lemma_stats_bounds(recent_of(self.performance_samples@));
            assert(0 <= n <= 20);
            assert(-0x200_0000_0000 <= d <= 0x200_0000_0000);
            assert(n * n <= 400 && 0 <= n * n) by (nonlinear_arith)
                requires
                    0 <= n <= 20,
            ;
            assert(d * d <= 0x4_0000_0000_0000_0000_0000 && 0 <= d * d) by (nonlinear_arith)
                requires
                    -0x200_0000_0000 <= d <= 0x200_0000_0000,
            ;
        }
        let nn = n * n;
        let dd = d * d;
        proof {
            assert(nn * dd <= 400 * 0x4_0000_0000_0000_0000_0000 && 0 <= nn * dd)
                by (nonlinear_arith)
                requires
                    0 <= nn <= 400,
                    0 <= dd <= 0x4_0000_0000_0000_0000_0000,
            ;
            assert(s * s <= 0x1400_0000_0000 * 0x1400_0000_0000 && 0 <= s * s)
                by (nonlinear_arith)
                requires
                    0 <= s <= 0x1400_0000_0000,
            ;
            assert(n * q <= 20 * 0x14_0000_0000_0000_0000_0000 && 0 <= n * q)
                by (nonlinear_arith)
                requires
                    0 <= n <= 20,
                    0 <= q <= 0x14_0000_0000_0000_0000_0000,
            ;
        }
        let lhs = nn * dd;
        let ss = s * s;
        let nq = n * q;
        proof {
            assert(lhs == n * n * d * d) by (nonlinear_arith)
                requires
                    lhs == (n * n) * (d * d),
            ;
        }
        if lhs < 4 * (nq - ss) {
            let magnitude = if current_drift >= 0 {
                current_drift
            } else {
                -current_drift
            };
            let damped = magnitude * 7 / 10;
            if current_drift >= 0 {
                damped
            } else {
                -damped
            }
        } else {
            current_drift
        }
    }

    /// Zeroes the compensation when the recent mean sits within the
    /// adaptive threshold of the target interval; needs at least twenty
    /// samples to judge.
    fn reset_compensation_if_needed(&mut self)
        requires
            old(self).wf(),
        ensures
            final(self).wf(),
            final(self).drift_compensation == if old(self).performance_samples@.len()
                >= RECENT_SAMPLES && spec_mean_stable(
                old(self).performance_samples@,
                old(self).interval_ms,
                old(self).adaptive_threshold,
            ) {
                0
            } else {
                old(self).drift_compensation
            },
            *final(self) == (PrecisionTimer {
                drift_compensation: final(self).drift_compensation,
                ..*old(self)
            }),
    {
        let len = self.performance_samples.len();
        if len < RECENT_SAMPLES {
            return;
        }
        let start = len - RECENT_SAMPLES;
        let (s, _q) = sum_and_squares(&self.performance_samples, start);
        proof {
            assert(self.performance_samples@.subrange(start as int, len as int) =~= recent_of(
                self.performance_samples@,
            ));
        }
        proof {
            lemma_stats_bounds(recent_of(self.performance_samples@));
        }
        let n = RECENT_SAMPLES as i128;
        let centered = s - n * (self.interval_ms as i128);
        let magnitude = if centered >= 0 {
            centered
        } else {
            -centered
        };
        if magnitude < n * (self.adaptive_threshold as i128) {
            self.drift_compensation = 0;
        }
    }

    /// The adaptive delay computation: before any tick it is the plain
    /// interval; afterwards the observed interval is recorded, the drift is
    /// compensated with noise-aware damping, the result is clamped to
    /// [interval/4, 2*interval], and a stable recent history resets the
    /// stored compensation.
    pub fn calculate_next_delay_rk3399(&mut self, now_ms: u64) -> (r: u64)
        requires
            old(self).wf(),
            now_ms < MAX_TIMER_TIME_MS,
        ensures
            final(self).wf(),
            adaptive_delay_post(*old(self), now_ms, *final(self), r),
    {
        let last = match self.last_tick_time {
            Some(t) => t,
            None => {
                return self.interval_ms;
            },
        };
        let actual: u64 = if now_ms >= last {
            now_ms - last
        } else {
            0
        };
        self.record_performance_sample(actual);
        let drift: i64 = actual as i64 - self.interval_ms as i64;
        self.drift_compensation = self.calculate_adaptive_compensation(drift);

        let interval = self.interval_ms as i64;
        let compensated: i64 = interval - self.drift_compensation;
        let lo = interval / 4;
        let hi = interval + interval;
        let adjusted: i64 = if compensated < lo {
            lo
        } else if compensated > hi {
            hi
        } else {
            compensated
        };

        if self.performance_samples.len() >= MIN_SAMPLES_FOR_RESET {
            self.reset_compensation_if_needed();
        }
        adjusted as u64
    }

    /// The standard delay computation: the drift accumulates into the
    /// compensation, the result is clamped to [interval/2, 3*interval/2],
    /// and a compensation that outgrows one interval is dropped.
    fn calculate_next_delay_standard(&mut self, now_ms: u64) -> (r: u64)
        requires
            old(self).wf(),
            now_ms < MAX_TIMER_TIME_MS,
        ensures
            final(self).wf(),
            standard_delay_post(*old(self), now_ms, *final(self), r),
    {
        let last = match self.last_tick_time {
            Some(t) => t,
            None => {
                return self.interval_ms;
            },
        };
        let actual: u64 = if now_ms >= last {
            now_ms - last
        } else {
            0
        };
        let drift: i64 = actual as i64 - self.interval_ms as i64;
        self.drift_compensation = self.drift_compensation + drift;

        let interval = self.interval_ms as i64;
        let compensated: i64 = interval - self.drift_compensation;
        let lo = interval / 2;
        let hi = interval * 3 / 2;
        let adjusted: i64 = if compensated < lo {
            lo
        } else if compensated > hi {
            hi
        } else {
            compensated
        };

        if self.drift_compensation > interval || self.drift_compensation < -interval {
            self.drift_compensation = 0;
        }
        adjusted as u64
    }

    /// The next delay under whichever strategy is selected.
    pub fn calculate_next_delay(&mut self, now_ms: u64) -> (r: u64)
        requires
            old(self).wf(),
            now_ms < MAX_TIMER_TIME_MS,
        ensures
            final(self).wf(),
            if old(self).rk3399_mode {
                adaptive_delay_post(*old(self), now_ms, *final(self), r)
            } else {
                standard_delay_post(*old(self), now_ms, *final(self), r)
            },
    {
        if self.rk3399_mode {
            self.calculate_next_delay_rk3399(now_ms)
        } else {
            self.calculate_next_delay_standard(now_ms)
        }
    }

    /// A one-line summary of the recorded samples: their truncated
    /// two-decimal average, minimum, maximum and count, plus the current
    /// compensation; or a fixed note when no sample exists yet.
    pub fn get_rk3399_performance_stats(&self) -> (r: String)
        requires
            self.wf(),
        ensures
            self.performance_samples@.len() == 0 ==> r@ == "No performance data available"@,
            self.performance_samples@.len() > 0 ==> r@ == spec_timer_stats_text(
                self.performance_samples@,
                self.drift_compensation as int,
            ),
    {
        let len = self.performance_samples.len();
        if len == 0 {
            return "No performance data available".to_owned();
        }
        let (s, _q) = sum_and_squares(&self.performance_samples, 0);
        proof {
            assert(self.performance_samples@.subrange(0, len as int)
                =~= self.performance_samples@);
            lemma_sum_bounds(self.performance_samples@, MAX_TIMER_TIME_MS as int);
        }
        let hundredfold: i128 = s * 100 / (len as i128);
        let avg100: u64 = hundredfold as u64;
        let (min, max) = min_and_max(&self.performance_samples);

        let mut out = String::new();
        out.append("RK3399 Timer Stats: avg=");
        push_u64(&mut out, avg100 / 100);
        out.append(".");
        push_u64(&mut out, (avg100 / 10) % 10);
        push_u64(&mut out, avg100 % 10);
        out.append("ms, min=");
        push_u64(&mut out, min);
        out.append("ms, max=");
        push_u64(&mut out, max);
        out.append("ms, samples=");
        push_u64(&mut out, len as u64);
        out.append(", drift=");
        push_i64(&mut out, self.drift_compensation);
        out.append("ms");
        proof {
            assert(out@ =~= spec_timer_stats_text(
                self.performance_samples@,
                self.drift_compensation as int,
            ));
        }
        out
    }
}

/// The text of the sample summary: average with two truncated decimals,
/// minimum, maximum, count and compensation.
pub open spec fn spec_timer_stats_text(samples: Seq<u64>, drift_compensation: int) -> Seq<char> {
    let avg100 = sum_of(samples) * 100 / samples.len() as int;
    "RK3399 Timer Stats: avg="@ + spec_digits(avg100 / 100) + "."@ + spec_digits(
        avg100 / 10 % 10,
    ) + spec_digits(avg100 % 10) + "ms, min="@ + spec_digits(min_of(samples)) + "ms, max="@
        + spec_digits(max_of(samples)) + "ms, samples="@ + spec_digits(samples.len() as int)
        + ", drift="@ + spec_int_digits(drift_compensation) + "ms"@
}

/// The smallest sample.
pub open spec fn min_of(s: Seq<u64>) -> int
    decreases s.len(),
{
    if s.len() <= 1 {
        if s.len() == 0 {
            0
        } else {
            s[0] as int
        }
    } else {
        let m = min_of(s.drop_last());
        if s.last() < m {
            s.last() as int
        } else {
            m
        }
    }
}

/// The largest sample.
pub open spec fn max_of(s: Seq<u64>) -> int
    decreases s.len(),
{
    if s.len() <= 1 {
        if s.len() == 0 {
            0
        } else {
            s[0] as int
        }
    } else {
        let m = max_of(s.drop_last());
        if s.last() > m {
            s.last() as int
        } else {
            m
        }
    }
}

/// Sums are bounded by the length times a bound on the elements.
proof fn lemma_sum_bounds(s: Seq<u64>, bound: int)
    requires
        forall|i: int| 0 <= i < s.len() ==> (#[trigger] s[i]) < bound,
        bound >= 0,
    ensures
        0 <= sum_of(s) <= s.len() * bound,
        0 <= sum_sq_of(s) <= s.len() * (bound * bound),
    decreases s.len(),
{
    if s.len() > 0 {
        let t = s.drop_last();
        assert(forall|i: int| 0 <= i < t.len() ==> (#[trigger] t[i]) < bound);
        lemma_sum_bounds(t, bound);
        assert(s.last() * s.last() <= bound * bound) by (nonlinear_arith)
            requires
                0 <= s.last() < bound,
        ;
        assert(t.len() * bound + bound == s.len() * bound) by (nonlinear_arith)
            requires
                t.len() + 1 == s.len(),
        ;
        assert(t.len() * (bound * bound) + bound * bound == s.len() * (bound * bound))
            by (nonlinear_arith)
            requires
                t.len() + 1 == s.len(),
        ;
    }
}

/// Bounds for the statistics of at most twenty bounded samples.
proof fn lemma_stats_bounds(s: Seq<u64>)
    requires
        s.len() <= 20,
        forall|i: int| 0 <= i < s.len() ==> (#[trigger] s[i]) < MAX_TIMER_TIME_MS,
    ensures
        0 <= sum_of(s) <= 0x1400_0000_0000,
        0 <= sum_sq_of(s) <= 0x14_0000_0000_0000_0000_0000,
{
    lemma_sum_bounds(s, MAX_TIMER_TIME_MS as int);
    assert(s.len() * (MAX_TIMER_TIME_MS as int) <= 20 * 0x100_0000_0000) by (nonlinear_arith)
        requires
            s.len() <= 20,
            MAX_TIMER_TIME_MS == 0x100_0000_0000,
    ;
    assert(s.len() * ((MAX_TIMER_TIME_MS as int) * (MAX_TIMER_TIME_MS as int)) <= 20 * (
    0x100_0000_0000 * 0x100_0000_0000)) by (nonlinear_arith)
        requires
            s.len() <= 20,
            MAX_TIMER_TIME_MS == 0x100_0000_0000,
    ;
}

/// The sum and the sum of squares of `v[start..]`.
fn sum_and_squares(v: &Vec<u64>, start: usize) -> (r: (i128, i128))
    requires
        start <= v@.len(),
        v@.len() <= MAX_SAMPLES,
        forall|i: int| 0 <= i < v@.len() ==> (#[trigger] v@[i]) < MAX_TIMER_TIME_MS,
    ensures
        r.0 == sum_of(v@.subrange(start as int, v@.len() as int)),
        r.1 == sum_sq_of(v@.subrange(start as int, v@.len() as int)),
{
    let mut s: i128 = 0;
    let mut q: i128 = 0;
    let mut i: usize = start;
    while i < v.len()
        invariant
            start <= i <= v@.len(),
            v@.len() <= MAX_SAMPLES,
            forall|k: int| 0 <= k < v@.len() ==> (#[trigger] v@[k]) < MAX_TIMER_TIME_MS,
            s == sum_of(v@.subrange(start as int, i as int)),
            q == sum_sq_of(v@.subrange(start as int, i as int)),
        decreases v@.len() - i,
    {
        proof {
            lemma_sum_bounds(v@.subrange(start as int, i as int), MAX_TIMER_TIME_MS as int);
            assert(v@.subrange(start as int, i + 1).drop_last() =~= v@.subrange(
                start as int,
                i as int,
            ));
            assert((v@[i as int] as int) * (v@[i as int] as int) < (MAX_TIMER_TIME_MS as int) * (
            MAX_TIMER_TIME_MS as int)) by (nonlinear_arith)
                requires
                    0 <= v@[i as int] < MAX_TIMER_TIME_MS,
            ;
        }
        let x = v[i] as i128;
        s = s + x;
        q = q + x * x;
        i = i + 1;
    }
    proof {
        assert(v@.subrange(start as int, v@.len() as int) =~= v@.subrange(
            start as int,
            i as int,
        ));
    }
    (s, q)
}

/// The smallest and largest element of a nonempty sample vector.
fn min_and_max(v: &Vec<u64>) -> (r: (u64, u64))
    requires
        v@.len() > 0,
    ensures
        r.0 == min_of(v@),
        r.1 == max_of(v@),
{
    let mut min = v[0];
    let mut max = v[0];
    let mut i: usize = 1;
    while i < v.len()
        invariant
            1 <= i <= v@.len(),
            min == min_of(v@.subrange(0, i as int)),
            max == max_of(v@.subrange(0, i as int)),
        decreases v@.len() - i,
    {
        proof {
            assert(v@.subrange(0, i + 1).drop_last() =~= v@.subrange(0, i as int));
        }
        if v[i] < min {
            min = v[i];
        }
        if v[i] > max {
            max = v[i];
        }
        i = i + 1;
    }
    proof {
        assert(v@.subrange(0, v@.len() as int) =~= v@);
    }
    (min, max)
}

} // verus!
