//! The legal lifecycle states of a playback session and its transition
//! guards.

use vstd::prelude::*;

verus! {

/// One playback session's lifecycle state. `Error` carries a free-text
/// reason.
#[derive(Debug)]
pub enum PlaybackState {
    Idle,
    Loading,
    Ready,
    Playing,
    Paused,
    Stopped,
    Error(String),
}

impl PlaybackState {
    /// Playback may start from `Ready` or `Paused`.
    pub open spec fn spec_can_play(self) -> bool {
        match self {
            PlaybackState::Ready => true,
            PlaybackState::Paused => true,
            _ => false,
        }
    }

    /// Pausing is allowed only while `Playing`.
    pub open spec fn spec_can_pause(self) -> bool {
        match self {
            PlaybackState::Playing => true,
            _ => false,
        }
    }

    /// Resuming is allowed only while `Paused`.
    pub open spec fn spec_can_resume(self) -> bool {
        match self {
            PlaybackState::Paused => true,
            _ => false,
        }
    }

    /// Stopping is allowed from `Playing` or `Paused`.
    pub open spec fn spec_can_stop(self) -> bool {
        match self {
            PlaybackState::Playing => true,
            PlaybackState::Paused => true,
            _ => false,
        }
    }

    /// Whether playback may start from this state.
    pub fn can_play(&self) -> (r: bool)
        ensures
            r == self.spec_can_play(),
    {
        matches!(self, PlaybackState::Ready | PlaybackState::Paused)
    }

    /// Whether pausing has any effect in this state.
    pub fn can_pause(&self) -> (r: bool)
        ensures
            r == self.spec_can_pause(),
    {
        matches!(self, PlaybackState::Playing)
    }

    /// Whether resuming has any effect in this state.
    pub fn can_resume(&self) -> (r: bool)
        ensures
            r == self.spec_can_resume(),
    {
        matches!(self, PlaybackState::Paused)
    }

    /// Whether stopping is a legal transition from this state.
    pub fn can_stop(&self) -> (r: bool)
        ensures
            r == self.spec_can_stop(),
    {
        matches!(self, PlaybackState::Playing | PlaybackState::Paused)
    }

    /// The state's fixed label, independent of any error payload.
    pub fn get_description(&self) -> (r: &'static str)
        ensures
            match self {
                PlaybackState::Idle => r@ == "Idle"@,
                PlaybackState::Loading => r@ == "Loading"@,
                PlaybackState::Ready => r@ == "Ready"@,
                PlaybackState::Playing => r@ == "Playing"@,
                PlaybackState::Paused => r@ == "Paused"@,
                PlaybackState::Stopped => r@ == "Stopped"@,
                PlaybackState::Error(_) => r@ == "Error"@,
            },
    {
        match self {
            PlaybackState::Idle => "Idle",
            PlaybackState::Loading => "Loading",
            PlaybackState::Ready => "Ready",
            PlaybackState::Playing => "Playing",
            PlaybackState::Paused => "Paused",
            PlaybackState::Stopped => "Stopped",
            PlaybackState::Error(_) => "Error",
        }
    }
}

impl Clone for PlaybackState {
    /// A copy that compares logically equal to the source.
    fn clone(&self) -> (r: Self)
        ensures
            r == *self,
    {
        match self {
            PlaybackState::Idle => PlaybackState::Idle,
            PlaybackState::Loading => PlaybackState::Loading,
            PlaybackState::Ready => PlaybackState::Ready,
            PlaybackState::Playing => PlaybackState::Playing,
            PlaybackState::Paused => PlaybackState::Paused,
            PlaybackState::Stopped => PlaybackState::Stopped,
            PlaybackState::Error(m) => PlaybackState::Error(m.clone()),
        }
    }
}

impl PartialEq for PlaybackState {
    /// Two states are equal when they are the same variant; error states
    /// also need equal message text.
    fn eq(&self, other: &Self) -> (r: bool) {
        match (self, other) {
            (PlaybackState::Idle, PlaybackState::Idle) => true,
            (PlaybackState::Loading, PlaybackState::Loading) => true,
            (PlaybackState::Ready, PlaybackState::Ready) => true,
            (PlaybackState::Playing, PlaybackState::Playing) => true,
            (PlaybackState::Paused, PlaybackState::Paused) => true,
            (PlaybackState::Stopped, PlaybackState::Stopped) => true,
            (PlaybackState::Error(a), PlaybackState::Error(b)) => <String as PartialEq>::eq(a, b),
            _ => false,
        }
    }
}

impl vstd::std_specs::cmp::PartialEqSpecImpl for PlaybackState {
    open spec fn obeys_eq_spec() -> bool {
        true
    }

    open spec fn eq_spec(&self, other: &Self) -> bool {
        match (self, other) {
            (PlaybackState::Idle, PlaybackState::Idle) => true,
            (PlaybackState::Loading, PlaybackState::Loading) => true,
            (PlaybackState::Ready, PlaybackState::Ready) => true,
            (PlaybackState::Playing, PlaybackState::Playing) => true,
            (PlaybackState::Paused, PlaybackState::Paused) => true,
            (PlaybackState::Stopped, PlaybackState::Stopped) => true,
            (PlaybackState::Error(a), PlaybackState::Error(b)) => a@ == b@,
            _ => false,
        }
    }
}

} // verus!
