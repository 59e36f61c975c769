//! Playback states.
use vstd::prelude::*;

verus! {

#[derive(Debug, Clone, Copy, PartialEq, Eq, Structural)]
#[non_exhaustive]
pub enum PlaybackState {
    Stopped,
    Playing,
    Paused,
    Buffering,
    Error,
}

impl PlaybackState {
    /// Playing and buffering count as active.
    pub fn is_active(&self) -> (r: bool)
        ensures
            r == (*self == PlaybackState::Playing || *self == PlaybackState::Buffering),
    {
        match self {
            PlaybackState::Playing | PlaybackState::Buffering => true,
            _ => false,
        }
    }
}

/// The state a client reports: its group's while the group has one, else its
/// connection's, else stopped.
pub fn client_playback_state(group_state: Option<PlaybackState>, connection_state: Option<PlaybackState>) -> (r:
    PlaybackState)
    ensures
        r == match group_state {
            Some(s) => s,
            None => match connection_state {
                Some(s) => s,
                None => PlaybackState::Stopped,
            },
        },
{
    match group_state {
        Some(s) => s,
        None => match connection_state {
            Some(s) => s,
            None => PlaybackState::Stopped,
        },
    }
}

} // verus!
