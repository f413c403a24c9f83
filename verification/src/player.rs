//! The client's audio player: its playback mode and what it is playing.
use vstd::prelude::*;
use crate::model::PlaybackMode;
use crate::text::owned;

verus! {

/// The other playback mode.
pub open spec fn flipped(m: PlaybackMode) -> PlaybackMode {
    match m {
        PlaybackMode::Once => PlaybackMode::Loop,
        PlaybackMode::Loop => PlaybackMode::Once,
    }
}

/// A player that sends audio to `output`, remembering its playback mode and
/// the sample it plays.
pub struct AudioPlayer<O> {
    pub output: O,
    pub playback_mode: PlaybackMode,
    pub currently_playing: Option<String>,
}

impl<O> AudioPlayer<O> {
    /// A player on `output` that plays each sample once and plays nothing yet.
    pub fn new(output: O) -> (r: Self)
        ensures
            r.output == output,
            r.playback_mode == PlaybackMode::Once,
            r.currently_playing is None,
    {
        AudioPlayer { output, playback_mode: PlaybackMode::Once, currently_playing: None }
    }

    /// Sets the playback mode.
    pub fn set_playback_mode(&mut self, mode: PlaybackMode)
        ensures
            final(self).playback_mode == mode,
            final(self).output == old(self).output,
            final(self).currently_playing == old(self).currently_playing,
    {
        self.playback_mode = mode;
    }

    /// The playback mode.
    pub fn get_playback_mode(&self) -> (r: PlaybackMode)
        ensures
            r == self.playback_mode,
    {
        self.playback_mode
    }

    /// The name of the sample being played, if any.
    pub fn currently_playing(&self) -> (r: Option<&str>)
        ensures
            r.deep_view() == self.currently_playing.deep_view(),
    {
        match &self.currently_playing {
            Some(s) => Some(s.as_str()),
            None => None,
        }
    }

    /// Switches between playing once and looping.
    pub fn toggle_loop(&mut self)
        ensures
            final(self).playback_mode == flipped(old(self).playback_mode),
            final(self).output == old(self).output,
            final(self).currently_playing == old(self).currently_playing,
    {
        self.playback_mode = match self.playback_mode {
            PlaybackMode::Once => PlaybackMode::Loop,
            PlaybackMode::Loop => PlaybackMode::Once,
        };
    }

    /// Records that playback of the sample named `name` has started.
    pub fn started(&mut self, name: &str)
        ensures
            final(self).currently_playing.deep_view() == Some(name@),
            final(self).playback_mode == old(self).playback_mode,
    {
        self.currently_playing = Some(owned(name));
    }

    /// Records that playback has stopped.
    pub fn stopped(&mut self)
        ensures
            final(self).currently_playing is None,
            final(self).playback_mode == old(self).playback_mode,
    {
        self.currently_playing = None;
    }
}

} // verus!
