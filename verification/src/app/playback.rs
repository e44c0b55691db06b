//! Whether the song is playing.
use vstd::prelude::*;

verus! {

/// The editor's view of playback.
#[derive(Debug, Clone, Copy)]
pub struct PlaybackState {
    pub playing: bool,
}

impl PlaybackState {
    /// Stopped.
    pub fn new() -> (r: PlaybackState)
        ensures
            !r.playing,
    {
        PlaybackState { playing: false }
    }
}

} // verus!
