//! The player registry: the bridge's mapping from player identifiers to
//! playback engines, and the operations the host drives by identifier.
//!
//! Every operation resolves the identifier first and treats an unknown one
//! as a benign no-op or sentinel result, never a fatal error.

use vstd::prelude::*;

use crate::cache_manager::CacheManager;
use crate::engine::{
    loaded_post, pause_post, resume_post, started_post, step_post, stop_post, EngineError,
    PlaybackEngine, StepOutcome,
};
use crate::lru::put_result;
use crate::parser::{buffer_ok, parse_ok_result, ParseError, SequenceParser};
use crate::sequence_data::SequenceData;
use crate::timer::MAX_TIMER_TIME_MS;

verus! {

/// How loading a sequence from raw bytes for one player went.
pub enum LoadOutcome {
    /// The identifier resolves to no player; nothing was attempted.
    PlayerNotFound,
    /// The bytes do not parse; the cache and the player are untouched.
    ParseFailed(ParseError),
    /// The parsed sequence was refused by the engine. A parsed sequence
    /// always passes the engine's shape check, so this never happens; the
    /// variant records the engine's answer all the same.
    LoadFailed(EngineError),
    /// The sequence was parsed, cached under its prefixed name, and loaded.
    Loaded,
}

/// The cache key for a sequence name: the fixed prefix, then the name.
pub open spec fn cache_key_view(name: Seq<char>) -> Seq<char> {
    "sequence_"@ + name
}

/// The registry: identifier-engine pairs plus the next identifier to hand
/// out. Identifiers start at 1 and are never reused.
pub struct PlayerRegistry {
    pub players: Vec<(u64, PlaybackEngine)>,
    pub next_id: u64,
}

impl PlayerRegistry {
    /// Some entry carries this identifier.
    pub open spec fn has_player(self, id: u64) -> bool {
        exists|i: int| 0 <= i < self.players@.len() && (#[trigger] self.players@[i]).0 == id
    }

    /// The position of this identifier's entry.
    pub open spec fn index_of(self, id: u64) -> int {
        choose|i: int| 0 <= i < self.players@.len() && (#[trigger] self.players@[i]).0 == id
    }

    /// The engine registered under this identifier.
    pub open spec fn engine_of(self, id: u64) -> PlaybackEngine {
        self.players@[self.index_of(id)].1
    }

    /// Well-formed: identifiers are distinct, at least 1 and below the next
    /// one to hand out, and every engine is well-formed.
    pub open spec fn wf(self) -> bool {
        &&& forall|i: int, j: int|
            0 <= i < j < self.players@.len() ==> (#[trigger] self.players@[i]).0 != (
            #[trigger] self.players@[j]).0
        &&& forall|i: int|
            0 <= i < self.players@.len() ==> 1 <= (#[trigger] self.players@[i]).0
                < self.next_id
        &&& forall|i: int| 0 <= i < self.players@.len() ==> (#[trigger] self.players@[i]).1.wf()
        &&& self.next_id >= 1
    }

    /// The registry and every engine but `id`'s are as before; `id`'s entry
    /// was replaced in place.
    pub open spec fn engine_updated(pre: PlayerRegistry, id: u64, post: PlayerRegistry) -> bool {
        &&& post.next_id == pre.next_id
        &&& post.players@ == pre.players@.update(
            pre.index_of(id),
            (id, post.engine_of(id)),
        )
    }

    /// An empty registry; the first player gets identifier 1.
    pub fn new() -> (r: Self)
        ensures
            r.wf(),
            r.players@ == Seq::<(u64, PlaybackEngine)>::empty(),
            r.next_id == 1,
    {
        let r = PlayerRegistry { players: Vec::new(), next_id: 1 };
        proof {
            assert(r.players@ =~= Seq::<(u64, PlaybackEngine)>::empty());
        }
        r
    }

    /// The position of this identifier's entry, if any.
    fn find(&self, id: u64) -> (r: Option<usize>)
        requires
            self.wf(),
        ensures
            match r {
                Some(i) => i < self.players@.len() && self.players@[i as int].0 == id && i
                    == self.index_of(id),
                None => !self.has_player(id),
            },
    {
        let mut i: usize = 0;
        while i < self.players.len()
            invariant
                self.wf(),
                i <= self.players@.len(),
                forall|k: int| 0 <= k < i ==> (#[trigger] self.players@[k]).0 != id,
            decreases self.players@.len() - i,
        {
            if self.players[i].0 == id {
                proof {
                    assert((#[trigger] self.players@[i as int]).0 == id);
                    assert(self.has_player(id));
                    let j = self.index_of(id);
                    assert(0 <= j < self.players@.len() && self.players@[j].0 == id);
                    if j != i as int {
                        let a = if j < i as int {
                            j
                        } else {
                            i as int
                        };
                        let b = if j < i as int {
                            i as int
                        } else {
                            j
                        };
                        assert(0 <= a < b < self.players@.len());
                        assert((#[trigger] self.players@[a]).0 != (
                        #[trigger] self.players@[b]).0);
                        assert(false);
                    }
                }
                return Some(i);
            }
            i = i + 1;
        }
        None
    }

    /// Creates a player and returns its identifier, at least 1 and never
    /// one handed out before. A 64-bit counter cannot realistically be
    /// exhausted; the precondition records the headroom this needs.
    pub fn create(&mut self) -> (r: u64)
        requires
            old(self).wf(),
            old(self).next_id < u64::MAX,
        ensures
            final(self).wf(),
            r == old(self).next_id,
            final(self).next_id == old(self).next_id + 1,
            final(self).players@ == old(self).players@.push((r, final(self).engine_of(r))),
            final(self).has_player(r),
            final(self).engine_of(r).sequence is None,
            !final(self).engine_of(r).is_playing,
            final(self).engine_of(r).state == crate::playback_state::PlaybackState::Idle,
            final(self).engine_of(r).current_frame == 0,
    {
        let id = self.next_id;
        self.next_id = self.next_id + 1;
        let engine = PlaybackEngine::new();
        self.players.push((id, engine));
        proof {
            let n = self.players@.len() - 1;
            assert((#[trigger] self.players@[n]).0 == id);
            assert(self.has_player(id));
            let j = self.index_of(id);
            if j != n {
                assert((#[trigger] self.players@[j]).0 != (#[trigger] self.players@[n]).0);
                assert(false);
            }
        }
        id
    }

    /// Drops the player with this identifier; unknown identifiers are a
    /// no-op. Its identifier is never handed out again.
    pub fn destroy(&mut self, id: u64)
        requires
            old(self).wf(),
        ensures
            final(self).wf(),
            final(self).next_id == old(self).next_id,
            if old(self).has_player(id) {
                final(self).players@ == old(self).players@.remove(old(self).index_of(id))
            } else {
                *final(self) == *old(self)
            },
    {
        let found = self.find(id);
        if let Some(i) = found {
            let _ = self.players.remove(i);
        }
    }

    /// The identifier the next creation would hand out; callers check it
    /// for headroom before creating.
    pub fn next_player_id(&self) -> (r: u64)
        ensures
            r == self.next_id,
    {
        self.next_id
    }

    /// How many players exist.
    pub fn player_count(&self) -> (r: usize)
        ensures
            r == self.players@.len(),
    {
        self.players.len()
    }

    /// Parses raw bytes, caches the sequence under its prefixed name, and
    /// loads it into the player's engine. An unknown identifier attempts
    /// nothing; a parse failure touches neither the cache nor the player; a
    /// parsed sequence always loads.
    pub fn load_sequence_from_bytes(
        &mut self,
        cache: &mut CacheManager,
        id: u64,
        data: &[u8],
    ) -> (r: LoadOutcome)
        requires
            old(self).wf(),
            old(cache).wf(),
        ensures
            final(self).wf(),
            final(cache).wf(),
            match r {
                LoadOutcome::PlayerNotFound => {
                    &&& !old(self).has_player(id)
                    &&& *final(self) == *old(self)
                    &&& *final(cache) == *old(cache)
                },
                LoadOutcome::ParseFailed(_) => {
                    &&& old(self).has_player(id)
                    &&& !buffer_ok(data@)
                    &&& *final(self) == *old(self)
                    &&& *final(cache) == *old(cache)
                },
                LoadOutcome::LoadFailed(_) => false,
                LoadOutcome::Loaded => {
                    &&& old(self).has_player(id)
                    &&& buffer_ok(data@)
                    &&& exists|s: SequenceData|
                        {
                            &&& #[trigger] parse_ok_result(data@, s)
                            &&& PlayerRegistry::engine_updated(*old(self), id, *final(self))
                            &&& loaded_post(
                                old(self).engine_of(id),
                                s,
                                final(self).engine_of(id),
                            )
                            &&& exists|k: String, v: SequenceData|
                                {
                                    &&& k@ == cache_key_view(s.name@)
                                    &&& v.same_as(s)
                                    &&& #[trigger] put_result(
                                        old(cache).cache,
                                        k,
                                        v,
                                        final(cache).cache,
                                    )
                                    &&& final(cache).stats == (crate::cache_manager::CacheStats {
                                        current_size: final(cache).cache.entries_view().len() as usize,
                                        ..old(cache).stats
                                    })
                                }
                        }
                },
            },
    {
        let found = self.find(id);
        let i = match found {
            Some(i) => i,
            None => {
                return LoadOutcome::PlayerNotFound;
            },
        };
        let sequence = match SequenceParser::parse_from_bytes(data) {
            Ok(s) => s,
            Err(e) => {
                return LoadOutcome::ParseFailed(e);
            },
        };
        let mut cache_key = String::new();
        cache_key.append("sequence_");
        cache_key.append(sequence.name.as_str());
        cache.put(cache_key, sequence.clone());

        let mut entry = self.players.remove(i);
        let load_result = entry.1.load_sequence(sequence);
        self.players.insert(i, entry);
        proof {
            assert(self.players@ =~= old(self).players@.update(
                i as int,
                (id, self.players@[i as int].1),
            ));
        }
        match load_result {
            Ok(()) => LoadOutcome::Loaded,
            Err(e) => LoadOutcome::LoadFailed(e),
        }
    }

    /// Starts playback for this player; the sentinel answer for an unknown
    /// identifier is no answer at all.
    pub fn start_playback(&mut self, id: u64, frequency: u32) -> (r: Option<
        Result<(), EngineError>,
    >)
        requires
            old(self).wf(),
            frequency >= 1,
        ensures
            final(self).wf(),
            match r {
                None => {
                    &&& !old(self).has_player(id)
                    &&& *final(self) == *old(self)
                },
                Some(res) => {
                    &&& old(self).has_player(id)
                    &&& PlayerRegistry::engine_updated(*old(self), id, *final(self))
                    &&& match res {
                        Ok(()) => {
                            &&& old(self).engine_of(id).sequence is Some
                            &&& old(self).engine_of(id).state.spec_can_play()
                            &&& started_post(
                                old(self).engine_of(id),
                                frequency,
                                final(self).engine_of(id),
                            )
                        },
                        Err(EngineError::NoSequenceLoaded) => {
                            &&& old(self).engine_of(id).sequence is None
                            &&& final(self).engine_of(id) == old(self).engine_of(id)
                        },
                        Err(EngineError::InvalidState) => {
                            &&& old(self).engine_of(id).sequence is Some
                            &&& !old(self).engine_of(id).state.spec_can_play()
                            &&& final(self).engine_of(id) == old(self).engine_of(id)
                        },
                        Err(_) => false,
                    }
                },
            },
    {
        let found = self.find(id);
        let i = match found {
            Some(i) => i,
            None => {
                return None;
            },
        };
        let mut entry = self.players.remove(i);
        let result = entry.1.start_playback(frequency);
        self.players.insert(i, entry);
        proof {
            assert(self.players@ =~= old(self).players@.update(
                i as int,
                (id, self.players@[i as int].1),
            ));
        }
        Some(result)
    }

    /// One playback step for this player at clock reading `now_ms`; no
    /// answer for an unknown identifier.
    pub fn step_player(&mut self, id: u64, now_ms: u64) -> (r: Option<StepOutcome>)
        requires
            old(self).wf(),
            now_ms < MAX_TIMER_TIME_MS,
        ensures
            final(self).wf(),
            match r {
                None => {
                    &&& !old(self).has_player(id)
                    &&& *final(self) == *old(self)
                },
                Some(outcome) => {
                    &&& old(self).has_player(id)
                    &&& PlayerRegistry::engine_updated(*old(self), id, *final(self))
                    &&& step_post(
                        old(self).engine_of(id),
                        now_ms,
                        final(self).engine_of(id),
                        outcome,
                    )
                },
            },
    {
        let found = self.find(id);
        let i = match found {
            Some(i) => i,
            None => {
                return None;
            },
        };
        let mut entry = self.players.remove(i);
        let outcome = entry.1.playback_step(now_ms);
        self.players.insert(i, entry);
        proof {
            assert(self.players@ =~= old(self).players@.update(
                i as int,
                (id, self.players@[i as int].1),
            ));
        }
        Some(outcome)
    }

    /// Pauses this player if its state permits; unknown identifiers and
    /// non-playing states are a no-op.
    pub fn pause(&mut self, id: u64)
        requires
            old(self).wf(),
        ensures
            final(self).wf(),
            if old(self).has_player(id) {
                &&& PlayerRegistry::engine_updated(*old(self), id, *final(self))
                &&& pause_post(old(self).engine_of(id), final(self).engine_of(id))
            } else {
                *final(self) == *old(self)
            },
    {
        let found = self.find(id);
        let i = match found {
            Some(i) => i,
            None => {
                return;
            },
        };
        let mut entry = self.players.remove(i);
        entry.1.pause();
        self.players.insert(i, entry);
        proof {
            assert(self.players@ =~= old(self).players@.update(
                i as int,
                (id, self.players@[i as int].1),
            ));
        }
    }

    /// Resumes this player if its state permits; unknown identifiers and
    /// non-paused states are a no-op.
    pub fn resume(&mut self, id: u64)
        requires
            old(self).wf(),
        ensures
            final(self).wf(),
            if old(self).has_player(id) {
                &&& PlayerRegistry::engine_updated(*old(self), id, *final(self))
                &&& resume_post(old(self).engine_of(id), final(self).engine_of(id))
            } else {
                *final(self) == *old(self)
            },
    {
        let found = self.find(id);
        let i = match found {
            Some(i) => i,
            None => {
                return;
            },
        };
        let mut entry = self.players.remove(i);
        entry.1.resume();
        self.players.insert(i, entry);
        proof {
            assert(self.players@ =~= old(self).players@.update(
                i as int,
                (id, self.players@[i as int].1),
            ));
        }
    }

    /// Stops this player unconditionally; unknown identifiers are a no-op.
    pub fn stop(&mut self, id: u64)
        requires
            old(self).wf(),
        ensures
            final(self).wf(),
            if old(self).has_player(id) {
                &&& PlayerRegistry::engine_updated(*old(self), id, *final(self))
                &&& stop_post(old(self).engine_of(id), final(self).engine_of(id))
            } else {
                *final(self) == *old(self)
            },
    {
        let found = self.find(id);
        let i = match found {
            Some(i) => i,
            None => {
                return;
            },
        };
        let mut entry = self.players.remove(i);
        entry.1.stop();
        self.players.insert(i, entry);
        proof {
            assert(self.players@ =~= old(self).players@.update(
                i as int,
                (id, self.players@[i as int].1),
            ));
        }
    }

    /// Stops this player as an emergency; the report says whether a player
    /// was found, so the caller can signal the emergency onward.
    pub fn emergency_stop(&mut self, id: u64) -> (r: bool)
        requires
            old(self).wf(),
        ensures
            final(self).wf(),
            r == old(self).has_player(id),
            if old(self).has_player(id) {
                &&& PlayerRegistry::engine_updated(*old(self), id, *final(self))
                &&& stop_post(old(self).engine_of(id), final(self).engine_of(id))
            } else {
                *final(self) == *old(self)
            },
    {
        let found = self.find(id);
        let i = match found {
            Some(i) => i,
            None => {
                return false;
            },
        };
        let mut entry = self.players.remove(i);
        entry.1.emergency_stop();
        self.players.insert(i, entry);
        proof {
            assert(self.players@ =~= old(self).players@.update(
                i as int,
                (id, self.players@[i as int].1),
            ));
        }
        true
    }

    /// Seeks this player to a frame; no answer for an unknown identifier,
    /// otherwise the engine's own answer.
    pub fn seek(&mut self, id: u64, frame_index: u32) -> (r: Option<Result<(), EngineError>>)
        requires
            old(self).wf(),
        ensures
            final(self).wf(),
            match r {
                None => {
                    &&& !old(self).has_player(id)
                    &&& *final(self) == *old(self)
                },
                Some(res) => {
                    &&& old(self).has_player(id)
                    &&& PlayerRegistry::engine_updated(*old(self), id, *final(self))
                    &&& match res {
                        Ok(()) => {
                            &&& old(self).engine_of(id).sequence is Some
                            &&& frame_index < old(self).engine_of(id).spec_total_frames()
                            &&& final(self).engine_of(id) == (PlaybackEngine {
                                current_frame: frame_index,
                                ..old(self).engine_of(id)
                            })
                        },
                        Err(EngineError::NoSequenceLoaded) => {
                            &&& old(self).engine_of(id).sequence is None
                            &&& final(self).engine_of(id) == old(self).engine_of(id)
                        },
                        Err(EngineError::InvalidFrameIndex { requested, max }) => {
                            &&& old(self).engine_of(id).sequence is Some
                            &&& frame_index >= old(self).engine_of(id).spec_total_frames()
                            &&& requested == frame_index
                            &&& max == old(self).engine_of(id).spec_total_frames() - 1
                            &&& final(self).engine_of(id) == old(self).engine_of(id)
                        },
                        Err(_) => false,
                    }
                },
            },
    {
        let found = self.find(id);
        let i = match found {
            Some(i) => i,
            None => {
                return None;
            },
        };
        let mut entry = self.players.remove(i);
        let result = entry.1.seek(frame_index);
        self.players.insert(i, entry);
        proof {
            assert(self.players@ =~= old(self).players@.update(
                i as int,
                (id, self.players@[i as int].1),
            ));
        }
        Some(result)
    }

    /// This player's frame cursor, or -1 for an unknown identifier.
    pub fn get_current_frame(&self, id: u64) -> (r: i64)
        requires
            self.wf(),
        ensures
            r == if self.has_player(id) {
                self.engine_of(id).current_frame as int
            } else {
                -1
            },
    {
        let found = self.find(id);
        match found {
            Some(i) => self.players[i].1.get_current_frame() as i64,
            None => -1,
        }
    }

    /// This player's loaded frame count, or 0 for an unknown identifier.
    pub fn get_total_frames(&self, id: u64) -> (r: u32)
        requires
            self.wf(),
        ensures
            r == if self.has_player(id) {
                self.engine_of(id).spec_total_frames()
            } else {
                0
            },
    {
        let found = self.find(id);
        match found {
            Some(i) => self.players[i].1.get_total_frames(),
            None => 0,
        }
    }

    /// Records this player's core preference; false for an unknown
    /// identifier.
    pub fn set_use_big_cores(&mut self, id: u64, use_big: bool) -> (r: bool)
        requires
            old(self).wf(),
        ensures
            final(self).wf(),
            r == old(self).has_player(id),
            if old(self).has_player(id) {
                &&& PlayerRegistry::engine_updated(*old(self), id, *final(self))
                &&& final(self).engine_of(id) == (PlaybackEngine {
                    use_big_cores: use_big,
                    ..old(self).engine_of(id)
                })
            } else {
                *final(self) == *old(self)
            },
    {
        let found = self.find(id);
        let i = match found {
            Some(i) => i,
            None => {
                return false;
            },
        };
        let mut entry = self.players.remove(i);
        entry.1.set_use_big_cores(use_big);
        self.players.insert(i, entry);
        proof {
            assert(self.players@ =~= old(self).players@.update(
                i as int,
                (id, self.players@[i as int].1),
            ));
        }
        true
    }

    /// This player's diagnostic line, or nothing for an unknown identifier.
    pub fn get_rk3399_stats(&self, id: u64) -> (r: Option<String>)
        requires
            self.wf(),
        ensures
            match r {
                Some(text) => {
                    &&& self.has_player(id)
                    &&& text@ == crate::engine::spec_engine_stats_text(
                        self.engine_of(id).use_big_cores,
                        self.engine_of(id).current_frame,
                        self.engine_of(id).spec_total_frames(),
                    )
                },
                None => !self.has_player(id),
            },
    {
        let found = self.find(id);
        match found {
            Some(i) => Some(self.players[i].1.get_rk3399_stats()),
            None => None,
        }
    }
}

} // verus!
