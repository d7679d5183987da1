//! The tone generator, reduced to what the machine decides about it:
//! whether the tone sounds.

use vstd::prelude::*;

verus! {

/// The on/off state of the tone. The host keeps its audio device in step
/// with it.
pub struct Speaker {
    playing: bool,
}

impl Speaker {
    /// Whether the tone sounds.
    pub closed spec fn playing(&self) -> bool {
        self.playing
    }

    /// A silent speaker.
    pub fn new() -> (speaker: Speaker)
        ensures
            !speaker.playing(),
    {
        Speaker { playing: false }
    }

    /// Lets the tone sound.
    pub fn start(&mut self)
        ensures
            final(self).playing(),
    {
        self.playing = true;
    }

    /// Silences the tone.
    pub fn stop(&mut self)
        ensures
            !final(self).playing(),
    {
        self.playing = false;
    }

    /// Whether the tone sounds.
    pub fn is_playing(&self) -> (on: bool)
        ensures
            on == self.playing(),
    {
        self.playing
    }
}

} // verus!
