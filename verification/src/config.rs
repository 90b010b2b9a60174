//! Settings.

use vstd::prelude::*;

verus! {

/// Which encodings of the VNC protocol are used.
#[derive(Clone, Copy, Debug, PartialEq, Eq, Structural)]
pub enum EncodingMode {
    Auto,
    Raw,
    Zlib,
}

/// Which video encoder is used.
#[derive(Clone, Copy, Debug, PartialEq, Eq, Structural)]
pub enum VideoEncoderMode {
    /// No video is encoded.
    Off,
    Software,
    Vaapi,
}

/// Which video codec is used.
#[derive(Clone, Copy, Debug, PartialEq, Eq, Structural)]
pub enum VideoCodecMode {
    H264,
    Hevc,
    Av1,
}

/// Port of the VNC server where none is set.
pub const DEFAULT_PORT: u16 = 5900;

/// Frames per second where none are set.
pub const DEFAULT_FPS: u32 = 30;

/// The settings of a run.
#[derive(Debug)]
pub struct Config {
    /// Capture device path (e.g. /dev/dri/card0). Auto-detects if not specified.
    pub device: Option<String>,
    /// DRM connector/output name to capture (e.g. DP-1, HDMI-A-1).
    pub output: Option<String>,
    /// VNC listen port.
    pub port: u16,
    /// Maximum frames per second.
    pub fps: u32,
    /// VNC listen address.
    pub listen: String,
    /// VNC password for authentication. No authentication if omitted.
    pub password: Option<String>,
    /// Preferred VNC encoding.
    pub encoding: EncodingMode,
    /// Experimental video encoder pipeline.
    pub video_encoder: VideoEncoderMode,
    /// Preferred codec for the experimental video pipeline.
    pub video_codec: VideoCodecMode,
    /// Experimental video stream listen address.
    pub video_stream_listen: String,
    /// Experimental video stream port. Disabled when set to 0.
    pub video_stream_port: u16,
    /// Experimental video stream FPS limit. Defaults to capture FPS when omitted.
    pub video_fps: Option<u32>,
    /// Experimental video stream output width. Defaults to capture width when omitted.
    pub video_width: Option<u32>,
    /// Experimental video stream output height. Defaults to capture height when omitted.
    pub video_height: Option<u32>,
    /// Capture at the size of the video stream, scaled by the video driver, for software encoding.
    pub video_capture_scale: bool,
}

impl Default for Config {
    /// The settings of a run without arguments.
    fn default() -> (config: Config)
        ensures
            config.device is None,
            config.output is None,
            config.port == 5900,
            config.fps == 30,
            config.listen@ == "0.0.0.0"@,
            config.password is None,
            config.encoding == EncodingMode::Raw,
            config.video_encoder == VideoEncoderMode::Off,
            config.video_codec == VideoCodecMode::H264,
            config.video_stream_listen@ == "0.0.0.0"@,
            config.video_stream_port == 0,
            config.video_fps is None,
            config.video_width is None,
            config.video_height is None,
            !config.video_capture_scale,
    {
        Config {
            device: None,
            output: None,
            port: DEFAULT_PORT,
            fps: DEFAULT_FPS,
            listen: "0.0.0.0".to_owned(),
            password: None,
            encoding: EncodingMode::Raw,
            video_encoder: VideoEncoderMode::Off,
            video_codec: VideoCodecMode::H264,
            video_stream_listen: "0.0.0.0".to_owned(),
            video_stream_port: 0,
            video_fps: None,
            video_width: None,
            video_height: None,
            video_capture_scale: false,
        }
    }
}

} // verus!
