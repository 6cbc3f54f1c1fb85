use vstd::prelude::*;

verus! {

/// Why no audio device configuration could be had.
#[derive(Debug, Clone, Copy, PartialEq, Eq)]
pub enum DACConfigBuildError {
    NooOutputDevicesAvailable,
    DefaultStreamConfigError,
}

/// The audio device's configuration as the audio graph sees it: channels,
/// sample rate and frames per buffer. This one stands in for a device, for
/// tests.
#[derive(Debug, Clone, Copy, PartialEq, Eq)]
pub struct DACConfig {
    pub num_channels: u16,
    pub sample_rate: u32,
    pub num_frames: u32,
}

impl Default for DACConfig {
    /// Two channels at 44100 samples per second, and as many frames as a
    /// `u32` counts.
    fn default() -> (r: Self)
        ensures
            r == (DACConfig { num_channels: 2, sample_rate: 44100, num_frames: u32::MAX }),
    {
        DACConfig { num_channels: 2, sample_rate: 44100, num_frames: 0xffff_ffff }
    }
}

impl DACConfig {
    pub fn from_defaults() -> (r: Result<Self, DACConfigBuildError>)
        ensures
            r == Ok::<Self, DACConfigBuildError>(
                DACConfig { num_channels: 2, sample_rate: 44100, num_frames: u32::MAX },
            ),
    {
        Ok(Self::default())
    }

    pub fn from_data(num_channels: u16, sample_rate: u32, num_frames: u32) -> (r: Result<Self, DACConfigBuildError>)
        ensures
            r == Ok::<Self, DACConfigBuildError>(DACConfig { num_channels, sample_rate, num_frames }),
    {
        Ok(DACConfig { num_channels, sample_rate, num_frames })
    }

    pub fn num_channels(&self) -> (r: u16)
        ensures
            r == self.num_channels,
    {
        self.num_channels
    }

    pub fn sample_rate(&self) -> (r: u32)
        ensures
            r == self.sample_rate,
    {
        self.sample_rate
    }

    pub fn num_frames(&self) -> (r: u32)
        ensures
            r == self.num_frames,
    {
        self.num_frames
    }
}

} // verus!
