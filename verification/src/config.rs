//! Settings of a streaming session.
use crate::protocol::VideoCodec;
use vstd::prelude::*;

verus! {

/// What a streaming session runs with.
#[derive(Debug, Clone)]
pub struct SessionConfig {
    pub width: u32,
    pub height: u32,
    pub refresh_rate: u32,
    pub bitrate_kbps: u32,
    pub codec: VideoCodec,
    pub stream_port: u16,
    pub input_port: u16,
    pub enable_hw_accel: bool,
    pub pin: Option<String>,
}

impl Default for SessionConfig {
    /// 1920x1080 at 60 Hz, 8000 kbit/s of H.264 through VA-API, streaming on
    /// port 8554, input on port 8555, hardware acceleration on, no PIN.
    fn default() -> (c: Self)
        ensures
            c.width == 1920,
            c.height == 1080,
            c.refresh_rate == 60,
            c.bitrate_kbps == 8000,
            c.codec == VideoCodec::H264Vaapi,
            c.stream_port == 8554,
            c.input_port == 8555,
            c.enable_hw_accel,
            c.pin is None,
    {
        SessionConfig {
            width: 1920,
            height: 1080,
            refresh_rate: 60,
            bitrate_kbps: 8000,
            codec: VideoCodec::H264Vaapi,
            stream_port: 8554,
            input_port: 8555,
            enable_hw_accel: true,
            pin: None,
        }
    }
}

} // verus!
