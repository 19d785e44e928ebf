//! Audio stream configuration and its builder.

use vstd::prelude::*;

verus! {

/// Simplified audio stream configuration.
#[derive(Debug, Clone)]
pub struct PolyphonicaStreamConfig {
    pub sample_rate: u32,
    pub channels: u16,
    pub buffer_size: Option<u32>,
}

impl Default for PolyphonicaStreamConfig {
    /// 44.1 kHz stereo with the device's default buffer size.
    fn default() -> (r: Self)
        ensures
            r.sample_rate == 44100,
            r.channels == 2,
            r.buffer_size is None,
    {
        Self { sample_rate: 44100, channels: 2, buffer_size: None }
    }
}

/// Audio stream builder for more flexible configuration.
pub struct AudioStreamBuilder {
    config: PolyphonicaStreamConfig,
    device_name: Option<String>,
}

impl AudioStreamBuilder {
    /// The sample rate, channel count and buffer size configured so far.
    pub closed spec fn settings(self) -> (u32, u16, Option<u32>) {
        (self.config.sample_rate, self.config.channels, self.config.buffer_size)
    }

    /// The output device named so far, if any.
    pub closed spec fn device_view(self) -> Option<Seq<char>> {
        match self.device_name {
            Some(name) => Some(name@),
            None => None,
        }
    }

    /// A builder with the default configuration and the default device.
    pub fn new() -> (r: Self)
        ensures
            r.settings() == (44100u32, 2u16, None::<u32>),
            r.device_view() is None,
    {
        Self { config: PolyphonicaStreamConfig::default(), device_name: None }
    }

    /// Set the sample rate.
    pub fn with_sample_rate(self, sample_rate: u32) -> (r: Self)
        ensures
            r.settings() == (sample_rate, self.settings().1, self.settings().2),
            r.device_view() == self.device_view(),
    {
        let mut builder = self;
        builder.config.sample_rate = sample_rate;
        builder
    }

    /// Set the channel count.
    pub fn with_channels(self, channels: u16) -> (r: Self)
        ensures
            r.settings() == (self.settings().0, channels, self.settings().2),
            r.device_view() == self.device_view(),
    {
        let mut builder = self;
        builder.config.channels = channels;
        builder
    }

    /// Set the buffer size in frames.
    pub fn with_buffer_size(self, buffer_size: u32) -> (r: Self)
        ensures
            r.settings() == (self.settings().0, self.settings().1, Some(buffer_size)),
            r.device_view() == self.device_view(),
    {
        let mut builder = self;
        builder.config.buffer_size = Some(buffer_size);
        builder
    }

    /// Choose the output device by name.
    pub fn with_device_name(self, device_name: String) -> (r: Self)
        ensures
            r.settings() == self.settings(),
            r.device_view() == Some(device_name@),
    {
        let mut builder = self;
        builder.device_name = Some(device_name);
        builder
    }

    /// The configuration built so far.
    pub fn config(&self) -> (r: PolyphonicaStreamConfig)
        ensures
            (r.sample_rate, r.channels, r.buffer_size) == self.settings(),
    {
        PolyphonicaStreamConfig {
            sample_rate: self.config.sample_rate,
            channels: self.config.channels,
            buffer_size: self.config.buffer_size,
        }
    }
}

impl Default for AudioStreamBuilder {
    fn default() -> (r: Self)
        ensures
            r.settings() == (44100u32, 2u16, None::<u32>),
            r.device_view() is None,
    {
        Self::new()
    }
}

} // verus!
