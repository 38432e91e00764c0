//! The playback engine: loading, frame-stepped playback, transport
//! controls, seeking and the hold-value fill-forward transform.
//!
//! Real playback is a loop that emits one frame, sleeps, and repeats; the
//! sleeping caller drives it by calling `playback_step` with the current
//! time in milliseconds, so every step is a pure function of engine state
//! and clock reading. `play_frames` runs the same loop synchronously to
//! completion and returns every emission.

use vstd::prelude::*;

use crate::playback_state::PlaybackState;
use crate::sequence_data::{SequenceData, F32_BITS_50, JOINTS_PER_ARM};
use crate::text::{push_bool, push_u64, spec_digits};
use crate::timer::{adaptive_delay_post, PrecisionTimer, MAX_TIMER_TIME_MS};

verus! {

/// Why an engine operation was refused.
#[derive(Clone, Copy, Debug, PartialEq, Eq, Structural)]
pub enum EngineError {
    /// The sequence failed its shape check.
    InvalidSequence,
    /// No sequence is loaded.
    NoSequenceLoaded,
    /// The current state forbids starting playback.
    InvalidState,
    /// The seek target is at or past the frame count.
    InvalidFrameIndex { requested: u32, max: u32 },
}

/// What one playback step produced.
pub enum StepOutcome {
    /// One frame to emit: the two hold-filled joint rows, the frame index,
    /// and how long to wait before the next step.
    Frame { left: Vec<i32>, right: Vec<i32>, frame_index: u32, delay_ms: u64 },
    /// The cursor reached the frame count; playback is complete.
    Completed,
    /// The playing flag was already clear; nothing happened.
    Interrupted,
}

/// A buffer of ten hold sentinels: no joint has seen a valid command.
pub open spec fn all_hold(v: Seq<i32>) -> bool {
    v.len() == JOINTS_PER_ARM && forall|i: int| 0 <= i < v.len() ==> v[i] == -1i32
}

/// The output of the hold-fill transform: a raw -1 is replaced by the
/// buffered value when one exists, any other raw value passes through.
pub open spec fn hold_fill_out(values: Seq<i32>, buf: Seq<i32>) -> Seq<i32> {
    Seq::new(
        values.len(),
        |i: int|
            if values[i] == -1i32 {
                if buf[i] != -1i32 {
                    buf[i]
                } else {
                    -1i32
                }
            } else {
                values[i]
            },
    )
}

/// The hold buffer after the transform: every raw value other than -1 is
/// remembered at its position.
pub open spec fn hold_fill_buf(values: Seq<i32>, buf: Seq<i32>) -> Seq<i32> {
    Seq::new(
        buf.len(),
        |i: int|
            if 0 <= i < values.len() && values[i] != -1i32 {
                values[i]
            } else {
                buf[i]
            },
    )
}

/// The hold buffer after `k` frames of `rows`, starting at `start` from
/// buffer `init`.
pub open spec fn buf_chain(rows: Seq<Seq<i32>>, init: Seq<i32>, start: int, k: int) -> Seq<i32>
    decreases k,
{
    if k <= 0 {
        init
    } else {
        hold_fill_buf(rows[start + k - 1], buf_chain(rows, init, start, k - 1))
    }
}

/// The load-time core heuristic: long or fast sequences prefer the fast
/// cores. The rate comparison is `> 50.0` on the decoded value; for the
/// positive rates the shape check admits, that is exactly this bit-pattern
/// comparison.
pub open spec fn prefers_big_cores(s: SequenceData) -> bool {
    s.total_frames > 1000 || s.sample_rate_bits > F32_BITS_50
}

/// One playback session: at most one loaded sequence, its lifecycle state,
/// the frame cursor, the playing flag, the pacing timer, the two per-arm
/// hold buffers, and the core-affinity preference.
pub struct PlaybackEngine {
    pub sequence: Option<SequenceData>,
    pub state: PlaybackState,
    pub current_frame: u32,
    pub is_playing: bool,
    pub timer: PrecisionTimer,
    pub last_valid_left: Vec<i32>,
    pub last_valid_right: Vec<i32>,
    pub use_big_cores: bool,
}

impl PlaybackEngine {
    /// The loaded frame count; zero when nothing is loaded.
    pub open spec fn spec_total_frames(self) -> int {
        match self.sequence {
            Some(s) => s.total_frames as int,
            None => 0,
        }
    }

    /// Well-formed: a loaded sequence passed its shape check, the cursor
    /// never passes the frame count, the hold buffers hold ten values, and
    /// the timer is consistent.
    pub open spec fn wf(self) -> bool {
        &&& match self.sequence {
            Some(s) => s.shape_ok(),
            None => true,
        }
        &&& self.current_frame <= self.spec_total_frames()
        &&& self.last_valid_left@.len() == JOINTS_PER_ARM
        &&& self.last_valid_right@.len() == JOINTS_PER_ARM
        &&& self.timer.wf()
    }

    /// A fresh engine: idle, nothing loaded, cursor at zero, not playing, a
    /// default 40 Hz timer, hold buffers full of sentinels, fast cores
    /// preferred.
    pub fn new() -> (r: Self)
        ensures
            r.wf(),
            r.sequence is None,
            r.state == PlaybackState::Idle,
            r.current_frame == 0,
            !r.is_playing,
            r.timer.target_frequency == 40,
            all_hold(r.last_valid_left@),
            all_hold(r.last_valid_right@),
            r.use_big_cores,
    {
        PlaybackEngine {
            sequence: None,
            state: PlaybackState::Idle,
            current_frame: 0,
            is_playing: false,
            timer: PrecisionTimer::new(40),
            last_valid_left: hold_row(),
            last_valid_right: hold_row(),
            use_big_cores: true,
        }
    }

    /// Records the core-affinity preference.
    pub fn set_use_big_cores(&mut self, use_big: bool)
        requires
            old(self).wf(),
        ensures
            final(self).wf(),
            *final(self) == (PlaybackEngine { use_big_cores: use_big, ..*old(self) }),
    {
        self.use_big_cores = use_big;
    }

    /// Replaces the current state.
    fn set_state(&mut self, new_state: PlaybackState)
        requires
            old(self).wf(),
        ensures
            final(self).wf(),
            *final(self) == (PlaybackEngine { state: new_state, ..*old(self) }),
    {
        self.state = new_state;
    }

    /// Refills both hold buffers with sentinels.
    fn reset_last_valid_values(&mut self)
        requires
            old(self).wf(),
        ensures
            final(self).wf(),
            all_hold(final(self).last_valid_left@),
            all_hold(final(self).last_valid_right@),
            *final(self) == (PlaybackEngine {
                last_valid_left: final(self).last_valid_left,
                last_valid_right: final(self).last_valid_right,
                ..*old(self)
            }),
    {
        self.last_valid_left = hold_row();
        self.last_valid_right = hold_row();
    }

    /// Accepts a sequence that passes its shape check: the state becomes
    /// `Ready`, the cursor and hold buffers are reset, and the core
    /// heuristic is applied. A failing sequence changes nothing.
    pub fn load_sequence(&mut self, sequence: SequenceData) -> (r: Result<(), EngineError>)
        requires
            old(self).wf(),
        ensures
            final(self).wf(),
            match r {
                Ok(()) => {
                    &&& sequence.shape_ok()
                    &&& loaded_post(*old(self), sequence, *final(self))
                },
                Err(EngineError::InvalidSequence) => {
                    &&& !sequence.shape_ok()
                    &&& *final(self) == *old(self)
                },
                Err(_) => false,
            },
    {
        if !sequence.validate() {
            return Err(EngineError::InvalidSequence);
        }
        self.set_state(PlaybackState::Loading);
        let use_big = sequence.total_frames > 1000 || sequence.sample_rate_bits > F32_BITS_50;
        self.set_use_big_cores(use_big);
        self.sequence = Some(sequence);
        self.current_frame = 0;
        self.reset_last_valid_values();
        self.set_state(PlaybackState::Ready);
        Ok(())
    }

    /// Reads the first few frames once, to warm the data into cache; it has
    /// no observable effect.
    fn preheat_cache(&self, sequence: &SequenceData)
        requires
            sequence.consistent_lengths(),
    {
        if sequence.total_frames > 0 {
            let preheat_frames: usize = if sequence.total_frames < 10 {
                sequence.total_frames as usize
            } else {
                10
            };
            let mut i: usize = 0;
            while i < preheat_frames
                invariant
                    sequence.consistent_lengths(),
                decreases preheat_frames - i,
            {
                let _ = sequence.get_frame_data(i);
                i = i + 1;
            }
        }
    }

    /// Starts a playback run: with a sequence loaded and a state that
    /// permits playing, the state becomes `Playing`, the playing flag is
    /// set, a fresh timer is installed at the requested frequency, and a
    /// high frequency forces the fast-core preference. The cursor is left
    /// where it was, so a paused run continues where it stopped.
    pub fn start_playback(&mut self, frequency: u32) -> (r: Result<(), EngineError>)
        requires
            old(self).wf(),
            frequency >= 1,
        ensures
            final(self).wf(),
            match r {
                Ok(()) => {
                    &&& old(self).sequence is Some
                    &&& old(self).state.spec_can_play()
                    &&& started_post(*old(self), frequency, *final(self))
                },
                Err(EngineError::NoSequenceLoaded) => {
                    &&& old(self).sequence is None
                    &&& *final(self) == *old(self)
                },
                Err(EngineError::InvalidState) => {
                    &&& old(self).sequence is Some
                    &&& !old(self).state.spec_can_play()
                    &&& *final(self) == *old(self)
                },
                Err(_) => false,
            },
    {
        if self.sequence.is_none() {
            return Err(EngineError::NoSequenceLoaded);
        }
        if !self.state.can_play() {
            return Err(EngineError::InvalidState);
        }
        self.set_state(PlaybackState::Playing);
        self.is_playing = true;
        self.timer = PrecisionTimer::new(frequency);
        if frequency > 60 {
            self.set_use_big_cores(true);
        }
        match &self.sequence {
            Some(sequence) => self.preheat_cache(sequence),
            None => (),
        }
        Ok(())
    }

    /// Applies the hold-fill transform to one raw joint row against the
    /// chosen arm's buffer: the output replaces raw sentinels by buffered
    /// values, and the buffer learns every non-sentinel raw value.
    pub fn fill_minus_one_values_optimized(&mut self, values: &Vec<i32>, is_left_arm: bool) -> (r:
        Vec<i32>)
        requires
            old(self).wf(),
            values@.len() <= JOINTS_PER_ARM,
        ensures
            final(self).wf(),
            if is_left_arm {
                &&& r@ == hold_fill_out(values@, old(self).last_valid_left@)
                &&& final(self).last_valid_left@ == hold_fill_buf(
                    values@,
                    old(self).last_valid_left@,
                )
                &&& *final(self) == (PlaybackEngine {
                    last_valid_left: final(self).last_valid_left,
                    ..*old(self)
                })
            } else {
                &&& r@ == hold_fill_out(values@, old(self).last_valid_right@)
                &&& final(self).last_valid_right@ == hold_fill_buf(
                    values@,
                    old(self).last_valid_right@,
                )
                &&& *final(self) == (PlaybackEngine {
                    last_valid_right: final(self).last_valid_right,
                    ..*old(self)
                })
            },
    {
        if is_left_arm {
            fill_row(&mut self.last_valid_left, values)
        } else {
            fill_row(&mut self.last_valid_right, values)
        }
    }

    /// One iteration of the playback loop at clock reading `now_ms`: with
    /// the playing flag clear nothing happens; with the cursor at the frame
    /// count the run completes and the state becomes `Stopped`; otherwise
    /// the current frame is fetched, hold-filled and handed back together
    /// with the delay to the next step, and the cursor advances by one.
    pub fn playback_step(&mut self, now_ms: u64) -> (r: StepOutcome)
        requires
            old(self).wf(),
            now_ms < MAX_TIMER_TIME_MS,
        ensures
            final(self).wf(),
            step_post(*old(self), now_ms, *final(self), r),
    {
        if !self.is_playing {
            return StepOutcome::Interrupted;
        }
        let total = match &self.sequence {
            Some(s) => s.total_frames,
            None => 0,
        };
        let cf = self.current_frame;
        if cf >= total {
            self.is_playing = false;
            self.set_state(PlaybackState::Stopped);
            return StepOutcome::Completed;
        }
        let row = match &self.sequence {
            Some(s) => s.get_frame_data(cf as usize),
            None => None,
        };
        let (raw_left, raw_right) = match row {
            Some(p) => p,
            None => {
                // A loaded sequence has a row for every cursor below the
                // frame count, so this arm cannot be reached.
                proof {
                    assert(false);
                }
                return StepOutcome::Interrupted;
            },
        };
        let left = self.fill_minus_one_values_optimized(&raw_left, true);
        let right = self.fill_minus_one_values_optimized(&raw_right, false);
        self.current_frame = cf + 1;
        self.timer.mark_tick(now_ms);
        let delay_ms = self.timer.calculate_next_delay_rk3399(now_ms);
        StepOutcome::Frame { left, right, frame_index: cf, delay_ms }
    }

    /// Runs a whole playback synchronously and returns every emission in
    /// order: starting from cursor `c` on a sequence of `n` frames, exactly
    /// `n - c` frames come back, carrying indices `c` up to `n - 1`, each
    /// hold-filled against the buffers as they stood at its turn; the run
    /// ends `Stopped` with the flag clear. Refused exactly as a playback
    /// start would be.
    pub fn play_frames(&mut self, frequency: u32) -> (r: Result<
        Vec<(Vec<i32>, Vec<i32>, u32)>,
        EngineError,
    >)
        requires
            old(self).wf(),
            frequency >= 1,
        ensures
            final(self).wf(),
            match r {
                Ok(frames) => {
                    let s = old(self).sequence->Some_0;
                    let start = old(self).current_frame as int;
                    let left0 = old(self).last_valid_left@;
                    let right0 = old(self).last_valid_right@;
                    &&& old(self).sequence is Some
                    &&& old(self).state.spec_can_play()
                    &&& start <= s.total_frames
                    &&& frames@.len() == s.total_frames - start
                    &&& forall|k: int|
                        0 <= k < frames@.len() ==> (#[trigger] frames@[k]).2 == start + k
                    &&& forall|k: int|
                        0 <= k < frames@.len() ==> (#[trigger] frames@[k]).0@ == hold_fill_out(
                            s.left()[start + k],
                            buf_chain(s.left(), left0, start, k),
                        )
                    &&& forall|k: int|
                        0 <= k < frames@.len() ==> (#[trigger] frames@[k]).1@ == hold_fill_out(
                            s.right()[start + k],
                            buf_chain(s.right(), right0, start, k),
                        )
                    &&& final(self).sequence == old(self).sequence
                    &&& final(self).state == PlaybackState::Stopped
                    &&& !final(self).is_playing
                    &&& final(self).current_frame == s.total_frames
                    &&& final(self).last_valid_left@ == buf_chain(
                        s.left(),
                        left0,
                        start,
                        frames@.len() as int,
                    )
                    &&& final(self).last_valid_right@ == buf_chain(
                        s.right(),
                        right0,
                        start,
                        frames@.len() as int,
                    )
                },
                Err(EngineError::NoSequenceLoaded) => {
                    &&& old(self).sequence is None
                    &&& *final(self) == *old(self)
                },
                Err(EngineError::InvalidState) => {
                    &&& old(self).sequence is Some
                    &&& !old(self).state.spec_can_play()
                    &&& *final(self) == *old(self)
                },
                Err(_) => false,
            },
    {
        let result = self.start_playback(frequency);
        if let Err(e) = result {
            return Err(e);
        }
        let ghost s = self.sequence->Some_0;
        let ghost start = self.current_frame as int;
        let ghost left0 = self.last_valid_left@;
        let ghost right0 = self.last_valid_right@;
        let mut frames: Vec<(Vec<i32>, Vec<i32>, u32)> = Vec::new();
        loop
            invariant
                old(self).sequence is Some,
                old(self).state.spec_can_play(),
                s == old(self).sequence->Some_0,
                start == old(self).current_frame as int,
                left0 == old(self).last_valid_left@,
                right0 == old(self).last_valid_right@,
                self.wf(),
                self.sequence == Some(s),
                self.is_playing,
                start <= self.current_frame as int <= s.total_frames,
                frames@.len() == self.current_frame as int - start,
                self.last_valid_left@ == buf_chain(s.left(), left0, start, frames@.len() as int),
                self.last_valid_right@ == buf_chain(
                    s.right(),
                    right0,
                    start,
                    frames@.len() as int,
                ),
                forall|k: int| 0 <= k < frames@.len() ==> (#[trigger] frames@[k]).2 == start + k,
                forall|k: int|
                    0 <= k < frames@.len() ==> (#[trigger] frames@[k]).0@ == hold_fill_out(
                        s.left()[start + k],
                        buf_chain(s.left(), left0, start, k),
                    ),
                forall|k: int|
                    0 <= k < frames@.len() ==> (#[trigger] frames@[k]).1@ == hold_fill_out(
                        s.right()[start + k],
                        buf_chain(s.right(), right0, start, k),
                    ),
            decreases s.total_frames - self.current_frame,
        {
            let step = self.playback_step(0);
            match step {
                StepOutcome::Frame { left, right, frame_index, delay_ms: _ } => {
                    frames.push((left, right, frame_index));
                },
                StepOutcome::Completed => {
                    return Ok(frames);
                },
                StepOutcome::Interrupted => {
                    // The flag stays set until the completion step, so a
                    // synchronous run cannot be interrupted.
                    proof {
                        assert(false);
                    }
                    return Err(EngineError::InvalidState);
                },
            }
        }
    }

    /// Pausing while `Playing` clears the flag and moves to `Paused`,
    /// keeping the cursor; in any other state it does nothing.
    pub fn pause(&mut self)
        requires
            old(self).wf(),
        ensures
            final(self).wf(),
            pause_post(*old(self), *final(self)),
    {
        if self.state.can_pause() {
            self.is_playing = false;
            self.set_state(PlaybackState::Paused);
        }
    }

    /// Resuming while `Paused` moves back to `Ready` only: emission itself
    /// needs a fresh playback start, which continues from the kept cursor.
    /// In any other state it does nothing.
    pub fn resume(&mut self)
        requires
            old(self).wf(),
        ensures
            final(self).wf(),
            resume_post(*old(self), *final(self)),
    {
        if self.state.can_resume() {
            self.set_state(PlaybackState::Ready);
        }
    }

    /// Stops unconditionally: flag cleared, cursor at zero, hold buffers
    /// reset, state `Stopped`, timer cleared.
    pub fn stop(&mut self)
        requires
            old(self).wf(),
        ensures
            final(self).wf(),
            stop_post(*old(self), *final(self)),
    {
        self.is_playing = false;
        self.current_frame = 0;
        self.reset_last_valid_values();
        self.set_state(PlaybackState::Stopped);
        self.timer.reset();
    }

    /// Exactly the effects of `stop`; the caller additionally signals the
    /// emergency to any external observer.
    pub fn emergency_stop(&mut self)
        requires
            old(self).wf(),
        ensures
            final(self).wf(),
            stop_post(*old(self), *final(self)),
    {
        self.stop();
    }

    /// Moves the cursor to a frame that exists; legal in any state and
    /// touching nothing but the cursor. Refused, with the cursor kept, when
    /// nothing is loaded or the index is at or past the frame count.
    pub fn seek(&mut self, frame_index: u32) -> (r: Result<(), EngineError>)
        requires
            old(self).wf(),
        ensures
            final(self).wf(),
            match r {
                Ok(()) => {
                    &&& old(self).sequence is Some
                    &&& frame_index < old(self).spec_total_frames()
                    &&& *final(self) == (PlaybackEngine {
                        current_frame: frame_index,
                        ..*old(self)
                    })
                },
                Err(EngineError::NoSequenceLoaded) => {
                    &&& old(self).sequence is None
                    &&& *final(self) == *old(self)
                },
                Err(EngineError::InvalidFrameIndex { requested, max }) => {
                    &&& old(self).sequence is Some
                    &&& frame_index >= old(self).spec_total_frames()
                    &&& requested == frame_index
                    &&& max == old(self).spec_total_frames() - 1
                    &&& *final(self) == *old(self)
                },
                Err(_) => false,
            },
    {
        let total = match &self.sequence {
            Some(s) => s.total_frames,
            None => {
                return Err(EngineError::NoSequenceLoaded);
            },
        };
        if frame_index >= total {
            return Err(EngineError::InvalidFrameIndex { requested: frame_index, max: total - 1 });
        }
        self.current_frame = frame_index;
        Ok(())
    }

    /// The frame cursor.
    pub fn get_current_frame(&self) -> (r: u32)
        ensures
            r == self.current_frame,
    {
        self.current_frame
    }

    /// The loaded frame count; zero when nothing is loaded.
    pub fn get_total_frames(&self) -> (r: u32)
        ensures
            r == self.spec_total_frames(),
    {
        match &self.sequence {
            Some(s) => s.total_frames,
            None => 0,
        }
    }

    /// The current state.
    pub fn get_state(&self) -> (r: PlaybackState)
        ensures
            r == self.state,
    {
        self.state.clone()
    }

    /// A one-line diagnostic: the core preference, the cursor, and the
    /// frame count.
    pub fn get_rk3399_stats(&self) -> (r: String)
        ensures
            r@ == spec_engine_stats_text(
                self.use_big_cores,
                self.current_frame,
                self.spec_total_frames(),
            ),
    {
        let mut out = String::new();
        out.append("RK3399 Stats: big_cores=");
        push_bool(&mut out, self.use_big_cores);
        out.append(", current_frame=");
        push_u64(&mut out, self.get_current_frame() as u64);
        out.append(", total_frames=");
        push_u64(&mut out, self.get_total_frames() as u64);
        proof {
            assert(out@ =~= spec_engine_stats_text(
                self.use_big_cores,
                self.current_frame,
                self.spec_total_frames(),
            ));
        }
        out
    }
}

/// What a successful load does: the sequence is installed, the state
/// becomes `Ready`, the cursor and hold buffers are reset, and the core
/// heuristic is applied; the playing flag and the timer stay.
pub open spec fn loaded_post(pre: PlaybackEngine, s: SequenceData, post: PlaybackEngine) -> bool {
    &&& post.sequence == Some(s)
    &&& post.state == PlaybackState::Ready
    &&& post.current_frame == 0
    &&& all_hold(post.last_valid_left@)
    &&& all_hold(post.last_valid_right@)
    &&& post.use_big_cores == prefers_big_cores(s)
    &&& post.is_playing == pre.is_playing
    &&& post.timer == pre.timer
}

/// What a successful playback start does: state `Playing`, flag set, a
/// fresh adaptive timer at the requested frequency, the fast-core
/// preference forced above 60 Hz; the sequence, cursor and buffers stay.
pub open spec fn started_post(pre: PlaybackEngine, frequency: u32, post: PlaybackEngine) -> bool {
    &&& post.sequence == pre.sequence
    &&& post.state == PlaybackState::Playing
    &&& post.is_playing
    &&& post.current_frame == pre.current_frame
    &&& post.last_valid_left@ == pre.last_valid_left@
    &&& post.last_valid_right@ == pre.last_valid_right@
    &&& post.use_big_cores == (frequency > 60 || pre.use_big_cores)
    &&& post.timer.target_frequency == frequency
    &&& post.timer.last_tick_time is None
    &&& post.timer.drift_compensation == 0
    &&& post.timer.performance_samples@ == Seq::<u64>::empty()
    &&& post.timer.rk3399_mode
}

/// What pausing does: effective only while the state permits it.
pub open spec fn pause_post(pre: PlaybackEngine, post: PlaybackEngine) -> bool {
    if pre.state.spec_can_pause() {
        post == (PlaybackEngine { state: PlaybackState::Paused, is_playing: false, ..pre })
    } else {
        post == pre
    }
}

/// What resuming does: back to `Ready` only, and only from `Paused`; frame
/// emission needs a fresh playback start.
pub open spec fn resume_post(pre: PlaybackEngine, post: PlaybackEngine) -> bool {
    if pre.state.spec_can_resume() {
        post == (PlaybackEngine { state: PlaybackState::Ready, ..pre })
    } else {
        post == pre
    }
}

/// What one playback step at clock reading `now_ms` does, by outcome.
pub open spec fn step_post(
    pre: PlaybackEngine,
    now_ms: u64,
    post: PlaybackEngine,
    r: StepOutcome,
) -> bool {
    &&& post.sequence == pre.sequence
    &&& match r {
        StepOutcome::Interrupted => {
            &&& !pre.is_playing
            &&& post == pre
        },
        StepOutcome::Completed => {
            &&& pre.is_playing
            &&& pre.current_frame >= pre.spec_total_frames()
            &&& post == (PlaybackEngine {
                state: PlaybackState::Stopped,
                is_playing: false,
                ..pre
            })
        },
        StepOutcome::Frame { left, right, frame_index, delay_ms } => {
            let s = pre.sequence->Some_0;
            let cf = pre.current_frame as int;
            &&& pre.is_playing
            &&& pre.sequence is Some
            &&& cf < s.total_frames
            &&& frame_index == pre.current_frame
            &&& left@ == hold_fill_out(s.left()[cf], pre.last_valid_left@)
            &&& right@ == hold_fill_out(s.right()[cf], pre.last_valid_right@)
            &&& post.last_valid_left@ == hold_fill_buf(s.left()[cf], pre.last_valid_left@)
            &&& post.last_valid_right@ == hold_fill_buf(s.right()[cf], pre.last_valid_right@)
            &&& post.current_frame == pre.current_frame + 1
            &&& post.is_playing == pre.is_playing
            &&& post.state == pre.state
            &&& post.use_big_cores == pre.use_big_cores
            &&& adaptive_delay_post(
                PrecisionTimer { last_tick_time: Some(now_ms), ..pre.timer },
                now_ms,
                post.timer,
                delay_ms,
            )
        },
    }
}

/// What stopping does: flag cleared, cursor zeroed, hold buffers reset,
/// state `Stopped`, timer cleared; the sequence, the core preference and
/// the timer's configuration stay.
pub open spec fn stop_post(pre: PlaybackEngine, post: PlaybackEngine) -> bool {
    &&& post.sequence == pre.sequence
    &&& post.state == PlaybackState::Stopped
    &&& post.current_frame == 0
    &&& !post.is_playing
    &&& all_hold(post.last_valid_left@)
    &&& all_hold(post.last_valid_right@)
    &&& post.use_big_cores == pre.use_big_cores
    &&& post.timer.last_tick_time is None
    &&& post.timer.drift_compensation == 0
    &&& post.timer.performance_samples@ == Seq::<u64>::empty()
    &&& post.timer.target_frequency == pre.timer.target_frequency
    &&& post.timer.interval_ms == pre.timer.interval_ms
    &&& post.timer.adaptive_threshold == pre.timer.adaptive_threshold
    &&& post.timer.rk3399_mode == pre.timer.rk3399_mode
}

/// The text of the engine diagnostic line.
pub open spec fn spec_engine_stats_text(big: bool, current_frame: u32, total_frames: int) -> Seq<
    char,
> {
    "RK3399 Stats: big_cores="@ + (if big {
        "true"@
    } else {
        "false"@
    }) + ", current_frame="@ + spec_digits(current_frame as int) + ", total_frames="@
        + spec_digits(total_frames)
}

/// A fresh ten-sentinel hold buffer.
fn hold_row() -> (r: Vec<i32>)
    ensures
        all_hold(r@),
{
    let mut r: Vec<i32> = Vec::new();
    let mut i: usize = 0;
    while i < JOINTS_PER_ARM
        invariant
            i <= JOINTS_PER_ARM,
            r@.len() == i,
            forall|k: int| 0 <= k < i ==> r@[k] == -1i32,
        decreases JOINTS_PER_ARM - i,
    {
        r.push(-1);
        i = i + 1;
    }
    r
}

/// The hold-fill transform for one arm: reads the raw row against the
/// buffer, updating the buffer in place and returning the output row.
fn fill_row(buf: &mut Vec<i32>, values: &Vec<i32>) -> (r: Vec<i32>)
    requires
        values@.len() <= old(buf)@.len(),
    ensures
        final(buf)@ == hold_fill_buf(values@, old(buf)@),
        r@ == hold_fill_out(values@, old(buf)@),
{
    let mut out: Vec<i32> = Vec::new();
    let mut i: usize = 0;
    while i < values.len()
        invariant
            i <= values@.len() <= buf@.len(),
            buf@.len() == old(buf)@.len(),
            out@.len() == i,
            forall|k: int| 0 <= k < i ==> out@[k] == hold_fill_out(values@, old(buf)@)[k],
            forall|k: int| 0 <= k < i ==> buf@[k] == hold_fill_buf(values@, old(buf)@)[k],
            forall|k: int| i <= k < buf@.len() ==> buf@[k] == old(buf)@[k],
        decreases values@.len() - i,
    {
        let value = values[i];
        if value == -1 {
            if buf[i] != -1 {
                out.push(buf[i]);
            } else {
                out.push(-1);
            }
        } else {
            buf.set(i, value);
            out.push(value);
        }
        i = i + 1;
    }
    proof {
        assert(out@ =~= hold_fill_out(values@, old(buf)@));
        assert(buf@ =~= hold_fill_buf(values@, old(buf)@));
    }
    out
}

} // verus!
