use vstd::prelude::*;

verus! {

/// The format agreed with the audio service for a capture stream.
#[derive(Debug, Clone, Copy, PartialEq, Eq, Structural)]
pub struct AudioInfo {
    rate: u32,
    channels: u32,
}

impl AudioInfo {
    /// The sample rate, as contracts speak of it.
    pub closed spec fn spec_rate(&self) -> u32 {
        self.rate
    }

    /// The channel count, as contracts speak of it.
    pub closed spec fn spec_channels(&self) -> u32 {
        self.channels
    }

    pub fn new(rate: u32, channels: u32) -> (r: AudioInfo)
        ensures
            r.spec_rate() == rate,
            r.spec_channels() == channels,
    {
        AudioInfo { rate, channels }
    }

    /// Samples per second and channel.
    pub fn rate(&self) -> (r: u32)
        ensures
            r == self.spec_rate(),
    {
        self.rate
    }

    /// Number of interleaved channels in each frame.
    pub fn channels(&self) -> (r: u32)
        ensures
            r == self.spec_channels(),
    {
        self.channels
    }
}

} // verus!
