//! Video encoders.

pub mod scale;
pub mod software;
pub mod vaapi;

use crate::video::FrameError;
use crate::video::VideoFrame;
use vstd::prelude::*;

verus! {

/// A video codec.
#[derive(Clone, Copy, Debug, PartialEq, Eq, Structural)]
pub enum VideoCodec {
    H264,
    Hevc,
    Av1,
}

/// A frame as an encoder put it out.
#[derive(Clone, Debug)]
pub struct EncodedPacket {
    pub codec: VideoCodec,
    pub data: Vec<u8>,
    pub keyframe: bool,
    pub pts: u64,
}

/// Why a frame could not be encoded.
#[derive(Clone, Copy, Debug, PartialEq, Eq, Structural)]
pub enum EncodeError {
    /// The encoder does not support its codec.
    UnsupportedCodec(VideoCodec),
    /// The frame is not of the kind that the encoder takes.
    Frame(FrameError),
    /// The encoder library could not be set up.
    InitFailed,
    /// The encoder library could not encode the frame.
    EncodeFailed,
    /// The frame lies in this many shared buffers, which is none or too many.
    ObjectCount(usize),
    /// The frame has this many planes, which is none or too many.
    PlaneCount(usize),
    /// The video driver could not open the frame.
    ProbeFailed,
    /// The video driver opened the frame, and cannot encode it.
    NoH264Entrypoint,
    /// The video driver could encode the frame, and is not used for it yet.
    NotImplemented { pts: u64 },
}

/// An encoder: it prepares the work on each frame, and the work itself is done outside.
pub trait VideoEncoder {
    /// What is to be done to encode a frame.
    type Job;

    /// The codec that the encoder was made for.
    spec fn codec_spec(&self) -> VideoCodec;

    /// Whether the encoder can be given the frame.
    spec fn accepts(&self, frame: &VideoFrame) -> bool;

    /// The codec that the encoder was made for.
    fn codec(&self) -> (codec: VideoCodec)
        ensures
            codec == self.codec_spec(),
    ;

    /// Prepares the encoding of a frame.
    fn encode(&mut self, frame: &VideoFrame, force_keyframe: bool, pts: u64) -> (job: Result<
        Self::Job,
        EncodeError,
    >)
        requires
            old(self).accepts(frame),
        ensures
            final(self).codec_spec() == old(self).codec_spec(),
    ;
}

} // verus!
