//! The client's configuration, set up step by step.
use crate::base::codec::AudioFormat;
use crate::base::stream::{is_buffered, is_realtime_default, StreamConfig, TimingProtocol};
use crate::client::DEFAULT_RENDER_DELAY_MS;
use vstd::prelude::*;

verus! {

pub struct ClientBuilder {
    stream_config: StreamConfig,
    render_delay_ms: u32,
}

impl ClientBuilder {
    pub closed spec fn config(&self) -> StreamConfig {
        self.stream_config
    }

    pub closed spec fn delay(&self) -> u32 {
        self.render_delay_ms
    }

    /// The realtime configuration and the default render delay.
    pub fn new() -> (r: Self)
        ensures
            is_realtime_default(r.config()),
            r.delay() == DEFAULT_RENDER_DELAY_MS,
    {
        Self { stream_config: StreamConfig::default(), render_delay_ms: DEFAULT_RENDER_DELAY_MS }
    }

    pub fn stream_config(self, config: StreamConfig) -> (r: Self)
        ensures
            r.config() == config,
            r.delay() == self.delay(),
    {
        Self { stream_config: config, ..self }
    }

    /// Replaces only the audio format.
    pub fn audio_format(self, format: AudioFormat) -> (r: Self)
        ensures
            r.config() == (StreamConfig { audio_format: format, ..self.config() }),
            r.delay() == self.delay(),
    {
        let mut b = self;
        b.stream_config.audio_format = format;
        b
    }

    /// The buffered (AirPlay 2) configuration over PTP.
    pub fn airplay2_buffered(self) -> (r: Self)
        ensures
            is_buffered(r.config(), TimingProtocol::Ptp),
            r.delay() == self.delay(),
    {
        Self { stream_config: StreamConfig::airplay2_buffered(), ..self }
    }

    /// The realtime (AirPlay 1) configuration.
    pub fn airplay1(self) -> (r: Self)
        ensures
            is_realtime_default(r.config()),
            r.delay() == self.delay(),
    {
        Self { stream_config: StreamConfig::airplay1_realtime(), ..self }
    }

    pub fn render_delay_ms(self, ms: u32) -> (r: Self)
        ensures
            r.config() == self.config(),
            r.delay() == ms,
    {
        Self { render_delay_ms: ms, ..self }
    }

    /// The configuration and the render delay that a client is built with.
    pub fn into_parts(self) -> (r: (StreamConfig, u32))
        ensures
            r == (self.config(), self.delay()),
    {
        (self.stream_config, self.render_delay_ms)
    }
}

impl Default for ClientBuilder {
    fn default() -> (r: Self)
        ensures
            is_realtime_default(r.config()),
            r.delay() == DEFAULT_RENDER_DELAY_MS,
    {
        Self::new()
    }
}

} // verus!
