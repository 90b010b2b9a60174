//! Encoding on the processor.

use crate::encode::scale::can_scale;
use crate::encode::scale::scale_into;
use crate::encode::EncodeError;
use crate::encode::EncodedPacket;
use crate::encode::VideoCodec;
use crate::encode::VideoEncoder;
use crate::video::VideoFrame;
use vstd::prelude::*;

verus! {

/// An encoder of the encoder library, set up for frames of one size.
#[derive(Clone, Copy, Debug, PartialEq, Eq, Structural)]
pub struct X264Encoder {
    pub width: u32,
    pub height: u32,
    /// Which encoder it is, as numbered by whoever set it up.
    pub context: u64,
}

/// Which encoder of the encoder library to use for a frame.
#[derive(Clone, Copy, Debug, PartialEq, Eq, Structural)]
pub enum EncoderChoice {
    /// The one that is there.
    Reuse(X264Encoder),
    /// A new one for frames of the given size. `stale` is to be closed.
    Create { width: u32, height: u32, stale: Option<X264Encoder> },
}

/// What the encoder library made of a frame.
#[derive(Debug)]
pub struct X264Output {
    pub ok: bool,
    /// The bytes, if there are any.
    pub data: Option<Vec<u8>>,
    pub keyframe: bool,
}

/// What is to be done to encode a frame.
#[derive(Debug)]
pub struct EncodeJob {
    pub encoder: EncoderChoice,
    pub width: u32,
    pub height: u32,
    pub stride: u32,
    /// Whether the bytes to encode are the scaled ones, rather than those of the frame.
    pub scaled: bool,
    pub force_keyframe: bool,
    pub pts: u64,
}

/// Encoder on the processor, which scales frames to a target size first.
#[derive(Debug)]
pub struct SoftwareEncoder {
    pub codec: VideoCodec,
    pub inner: Option<X264Encoder>,
    pub frames_encoded: u64,
    pub target_width: Option<u32>,
    pub target_height: Option<u32>,
    pub scaled_bgra: Vec<u8>,
}

impl SoftwareEncoder {
    /// Creates an encoder. Without a target width or height, that of the frame is kept.
    pub fn new(codec: VideoCodec, target_width: Option<u32>, target_height: Option<u32>) -> (encoder:
        Self)
        ensures
            encoder.codec == codec,
            encoder.inner is None,
            encoder.frames_encoded == 0,
            encoder.target_width == target_width,
            encoder.target_height == target_height,
            encoder.scaled_bgra@.len() == 0,
    {
        SoftwareEncoder {
            codec,
            inner: None,
            frames_encoded: 0,
            target_width,
            target_height,
            scaled_bgra: Vec::new(),
        }
    }

    /// The encoder of the encoder library that fits frames of the given size: the one that is
    /// there, if it was set up for that size, and a new one otherwise.
    pub open spec fn choice(&self, width: u32, height: u32) -> EncoderChoice {
        match self.inner {
            Some(encoder) if encoder.width == width && encoder.height == height =>
                EncoderChoice::Reuse(encoder),
            stale => EncoderChoice::Create { width, height, stale },
        }
    }

    /// Takes the encoder of the encoder library out, and tells whether it fits frames of the given
    /// size or a new one is needed.
    pub fn take_or_create_encoder(&mut self, width: u32, height: u32) -> (choice: EncoderChoice)
        ensures
            choice == old(self).choice(width, height),
            *final(self) == (SoftwareEncoder { inner: None, ..*old(self) }),
    {
        match self.inner.take() {
            Some(encoder) => {
                if encoder.width == width && encoder.height == height {
                    EncoderChoice::Reuse(encoder)
                } else {
                    EncoderChoice::Create { width, height, stale: Some(encoder) }
                }
            },
            None => EncoderChoice::Create { width, height, stale: None },
        }
    }

    /// Width that frames of the given width are encoded with.
    pub open spec fn width_for(&self, src_width: u32) -> u32 {
        match self.target_width {
            Some(width) => width,
            None => src_width,
        }
    }

    /// Height that frames of the given height are encoded with.
    pub open spec fn height_for(&self, src_height: u32) -> u32 {
        match self.target_height {
            Some(height) => height,
            None => src_height,
        }
    }

    /// Whether the frame can be encoded: it has the target size already, or can be scaled to it, or
    /// is refused anyway.
    pub fn can_encode(&self, frame: &VideoFrame) -> (can: bool)
        ensures
            can == self.accepts(frame),
    {
        if self.codec != VideoCodec::H264 {
            return true;
        }
        let (src_width, src_height, src_stride, data) = match frame.as_bgra() {
            Err(_) => return true,
            Ok(parts) => parts,
        };
        let dst_width: u32 = self.target_width.unwrap_or(src_width);
        let dst_height: u32 = self.target_height.unwrap_or(src_height);
        if src_width == dst_width && src_height == dst_height {
            return true;
        }
        can_scale(data.len(), src_width, src_height, src_stride, dst_width, dst_height)
    }

    /// Scales a frame to the given size. A frame that has that size already is left alone, and
    /// what was scaled before is kept. Returns size and row distance of the bytes to encode.
    pub fn prepare_bgra(
        &mut self,
        src: &[u8],
        src_width: u32,
        src_height: u32,
        src_stride: u32,
        dst_width: u32,
        dst_height: u32,
    ) -> (shape: (u32, u32, u32))
        requires
            (src_width != dst_width || src_height != dst_height)
                ==> crate::encode::scale::scalable(
                src@.len() as int,
                src_width as int,
                src_height as int,
                src_stride as int,
                dst_width as int,
                dst_height as int,
            ),
        ensures
            *final(self) == (SoftwareEncoder { scaled_bgra: final(self).scaled_bgra, ..*old(self) }),
            if src_width == dst_width && src_height == dst_height {
                &&& shape == (src_width, src_height, src_stride)
                &&& final(self).scaled_bgra == old(self).scaled_bgra
            } else {
                &&& shape == (dst_width, dst_height, (dst_width * 4) as u32)
                &&& final(self).scaled_bgra@ == crate::encode::scale::scaled_frame(
                    src@,
                    src_width as int,
                    src_height as int,
                    src_stride as int,
                    dst_width as int,
                    dst_height as int,
                )
            },
    {
        if src_width == dst_width && src_height == dst_height {
            return (src_width, src_height, src_stride);
        }
        let dst_stride: u32 = dst_width * 4;
        scale_into(
            &mut self.scaled_bgra,
            src,
            src_width,
            src_height,
            src_stride,
            dst_width,
            dst_height,
        );
        (dst_width, dst_height, dst_stride)
    }

    /// What becomes of the encoder, and what it gives, when it takes in what became of a frame.
    pub open spec fn took_in(
        &self,
        outcome: Option<(X264Encoder, X264Output)>,
        pts: u64,
        after: SoftwareEncoder,
        packet: Result<EncodedPacket, EncodeError>,
    ) -> bool {
        match outcome {
            None => after == *self && packet == Err::<EncodedPacket, EncodeError>(
                EncodeError::InitFailed,
            ),
            Some((encoder, output)) => if !output.ok {
                after == *self && packet == Err::<EncodedPacket, EncodeError>(
                    EncodeError::EncodeFailed,
                )
            } else {
                let bytes = match output.data {
                    Some(data) => data@,
                    None => Seq::<u8>::empty(),
                };
                &&& after == (SoftwareEncoder {
                    inner: Some(encoder),
                    frames_encoded: (self.frames_encoded + 1) as u64,
                    ..*self
                })
                &&& packet matches Ok(p)
                &&& p.codec == VideoCodec::H264
                &&& p.data@ == bytes
                &&& p.keyframe == (bytes.len() > 0 && output.keyframe)
                &&& p.pts == pts
            },
        }
    }

    /// What is to be done to encode a frame, or why it cannot be encoded.
    pub open spec fn job_for(&self, frame: VideoFrame, force_keyframe: bool, pts: u64) -> Result<
        EncodeJob,
        EncodeError,
    > {
        if self.codec != VideoCodec::H264 {
            Err(EncodeError::UnsupportedCodec(self.codec))
        } else {
            match frame {
                VideoFrame::Dmabuf(_) => Err(
                    EncodeError::Frame(crate::video::FrameError::NotCpuBgra),
                ),
                VideoFrame::CpuBgra { width, height, stride, data } => {
                    let dst_width = self.width_for(width);
                    let dst_height = self.height_for(height);
                    let same = width == dst_width && height == dst_height;
                    Ok(
                        EncodeJob {
                            encoder: self.choice(dst_width, dst_height),
                            width: dst_width,
                            height: dst_height,
                            stride: if same {
                                stride
                            } else {
                                (dst_width * 4) as u32
                            },
                            scaled: !same,
                            force_keyframe,
                            pts,
                        },
                    )
                },
            }
        }
    }

    /// Whether `after` is this encoder once it has prepared the encoding of a frame: the encoder of
    /// the encoder library is taken out, and the frame is scaled if it has to be. A frame that it
    /// does not encode leaves it as it was.
    pub open spec fn prepared_for(&self, frame: VideoFrame, after: SoftwareEncoder) -> bool {
        match frame {
            VideoFrame::CpuBgra { width, height, stride, data } if self.codec
                == VideoCodec::H264 => {
                let dst_width = self.width_for(width);
                let dst_height = self.height_for(height);
                &&& after == (SoftwareEncoder {
                    inner: None,
                    scaled_bgra: after.scaled_bgra,
                    ..*self
                })
                &&& after.scaled_bgra@ == (if width == dst_width && height == dst_height {
                    self.scaled_bgra@
                } else {
                    crate::encode::scale::scaled_frame(
                        data@,
                        width as int,
                        height as int,
                        stride as int,
                        dst_width as int,
                        dst_height as int,
                    )
                })
            },
            _ => after == *self,
        }
    }

    /// Takes in what became of a frame: `None` if the encoder library could not be set up for it,
    /// and otherwise the encoder that was used and what it put out. The encoder is kept for the
    /// next frame, unless the encoder library failed.
    pub fn on_encoded(&mut self, outcome: Option<(X264Encoder, X264Output)>, pts: u64) -> (packet:
        Result<EncodedPacket, EncodeError>)
        requires
            outcome matches Some(done) ==> done.1.ok ==> old(self).frames_encoded < u64::MAX,
        ensures
            old(self).took_in(outcome, pts, *final(self), packet),
    {
        let (encoder, output) = match outcome {
            None => return Err(EncodeError::InitFailed),
            Some(done) => done,
        };
        if !output.ok {
            return Err(EncodeError::EncodeFailed);
        }
        let packet: X264Packet = X264Packet::from_output(output);
        self.inner = Some(encoder);
        self.frames_encoded = self.frames_encoded + 1;
        Ok(
            EncodedPacket {
                codec: VideoCodec::H264,
                data: packet.data,
                keyframe: packet.keyframe,
                pts,
            },
        )
    }
}

impl VideoEncoder for SoftwareEncoder {
    type Job = EncodeJob;

    open spec fn codec_spec(&self) -> VideoCodec {
        self.codec
    }

    open spec fn accepts(&self, frame: &VideoFrame) -> bool {
        *frame matches VideoFrame::CpuBgra { width, height, stride, data } ==> (self.codec
            == VideoCodec::H264 && (width != self.width_for(width) || height != self.height_for(
            height,
        ))) ==> crate::encode::scale::scalable(
            data@.len() as int,
            width as int,
            height as int,
            stride as int,
            self.width_for(width) as int,
            self.height_for(height) as int,
        )
    }

    fn codec(&self) -> VideoCodec {
        self.codec
    }

    fn encode(&mut self, frame: &VideoFrame, force_keyframe: bool, pts: u64) -> (job: Result<
        EncodeJob,
        EncodeError,
    >)
        ensures
            job == old(self).job_for(*frame, force_keyframe, pts),
            old(self).prepared_for(*frame, *final(self)),
    {
        if self.codec != VideoCodec::H264 {
            return Err(EncodeError::UnsupportedCodec(self.codec));
        }
        let (src_width, src_height, src_stride, data) = match frame.as_bgra() {
            Err(error) => return Err(EncodeError::Frame(error)),
            Ok(parts) => parts,
        };
        let dst_width: u32 = match self.target_width {
            Some(width) => width,
            None => src_width,
        };
        let dst_height: u32 = match self.target_height {
            Some(height) => height,
            None => src_height,
        };
        let (width, height, stride) = self.prepare_bgra(
            data,
            src_width,
            src_height,
            src_stride,
            dst_width,
            dst_height,
        );
        let encoder: EncoderChoice = self.take_or_create_encoder(width, height);
        let scaled: bool = !(src_width == dst_width && src_height == dst_height);
        Ok(EncodeJob { encoder, width, height, stride, scaled, force_keyframe, pts })
    }
}

/// The bytes of an encoded frame.
struct X264Packet {
    data: Vec<u8>,
    keyframe: bool,
}

impl X264Packet {
    /// Takes the bytes out of what the encoder library made. A frame without bytes is no keyframe.
    fn from_output(output: X264Output) -> (packet: X264Packet)
        ensures
            packet.data@ == (match output.data {
                Some(data) => data@,
                None => Seq::<u8>::empty(),
            }),
            packet.keyframe == (packet.data@.len() > 0 && output.keyframe),
    {
        match output.data {
            None => X264Packet { data: Vec::new(), keyframe: false },
            Some(data) => {
                if data.len() == 0 {
                    X264Packet { data: Vec::new(), keyframe: false }
                } else {
                    X264Packet { data, keyframe: output.keyframe }
                }
            },
        }
    }
}

/// A frame is encoded in the target size: width and height are those that were set, or those of the
/// frame where none were. The bytes that are encoded are the scaled ones exactly if that is another
/// size, and their rows follow each other then. The clock and the keyframe flag are handed on.
pub proof fn law_frames_are_encoded_in_the_target_size(
    encoder: SoftwareEncoder,
    frame: VideoFrame,
    force_keyframe: bool,
    pts: u64,
)
    requires
        encoder.codec == VideoCodec::H264,
        frame is CpuBgra,
        encoder.accepts(&frame),
    ensures
        encoder.job_for(frame, force_keyframe, pts) matches Ok(job) && {
            let width = frame->CpuBgra_width;
            let height = frame->CpuBgra_height;
            &&& encoder.target_width is None ==> job.width == width
            &&& encoder.target_height is None ==> job.height == height
            &&& encoder.target_width matches Some(target) ==> job.width == target
            &&& encoder.target_height matches Some(target) ==> job.height == target
            &&& job.scaled <==> (job.width != width || job.height != height)
            &&& !job.scaled ==> job.stride == frame->CpuBgra_stride
            &&& job.scaled ==> job.stride == job.width * 4
            &&& job.force_keyframe == force_keyframe
            &&& job.pts == pts
            &&& job.encoder matches EncoderChoice::Create { width: w, height: h, stale } ==> w
                == job.width && h == job.height && stale == encoder.inner
            &&& job.encoder matches EncoderChoice::Reuse(inner) ==> encoder.inner == Some(inner)
                && inner.width == job.width && inner.height == job.height
            &&& encoder.inner matches Some(inner) ==> (inner.width == job.width && inner.height
                == job.height ==> job.encoder is Reuse)
        },
{
}

/// Scaling shows the same picture: where a frame has to be scaled, each pixel of the scaled bytes is
/// the pixel of the frame that covers the same part of the picture.
pub proof fn law_scaled_bytes_show_the_picture(
    encoder: SoftwareEncoder,
    after: SoftwareEncoder,
    width: u32,
    height: u32,
    stride: u32,
    data: Vec<u8>,
    x: int,
    y: int,
    column: int,
    row: int,
    byte: int,
)
    requires
        encoder.codec == VideoCodec::H264,
        encoder.prepared_for(VideoFrame::CpuBgra { width, height, stride, data }, after),
        encoder.width_for(width) != width || encoder.height_for(height) != height,
        0 <= x < encoder.width_for(width),
        0 <= y < encoder.height_for(height),
        0 <= byte < 4,
        column * encoder.width_for(width) <= x * width < (column + 1) * encoder.width_for(width),
        row * encoder.height_for(height) <= y * height < (row + 1) * encoder.height_for(height),
    ensures
        after.scaled_bgra@[4 * (y * encoder.width_for(width) + x) + byte] == data@[row * stride
            + column * 4 + byte],
{
    crate::encode::scale::law_scaling_takes_the_covering_pixel(
        data@,
        width as int,
        height as int,
        stride as int,
        encoder.width_for(width) as int,
        encoder.height_for(height) as int,
        x,
        y,
        column,
        row,
        byte,
    );
}

/// An encoder of the encoder library is kept and used again: after it has encoded a frame, it is used
/// for the next frame of its size, and is to be closed when a frame has another size. One that
/// failed, or could not be set up, is not kept.
pub proof fn law_encoders_are_used_again(
    encoder: SoftwareEncoder,
    outcome: Option<(X264Encoder, X264Output)>,
    pts: u64,
    after: SoftwareEncoder,
    packet: Result<EncodedPacket, EncodeError>,
    width: u32,
    height: u32,
)
    requires
        encoder.inner is None,
        encoder.took_in(outcome, pts, after, packet),
    ensures
        packet is Ok <==> (outcome is Some && (outcome->0).1.ok),
        packet is Ok ==> {
            let used = (outcome->0).0;
            after.choice(width, height) == (if used.width == width && used.height == height {
                EncoderChoice::Reuse(used)
            } else {
                EncoderChoice::Create { width, height, stale: Some(used) }
            })
        },
        packet is Err ==> after.choice(width, height) == (EncoderChoice::Create {
            width,
            height,
            stale: None,
        }),
{
}

/// A packet is what the encoder library put out: its bytes, under the clock that was given. It is a
/// keyframe only if it has bytes and the encoder library says so.
pub proof fn law_packets_hold_what_was_put_out(
    encoder: SoftwareEncoder,
    used: X264Encoder,
    output: X264Output,
    pts: u64,
    after: SoftwareEncoder,
    packet: EncodedPacket,
)
    requires
        encoder.took_in(Some((used, output)), pts, after, Ok(packet)),
    ensures
        output.ok,
        packet.pts == pts,
        packet.codec == VideoCodec::H264,
        output.data matches Some(data) ==> packet.data@ == data@,
        output.data is None ==> packet.data@.len() == 0,
        packet.keyframe <==> (output.keyframe && packet.data@.len() > 0),
        encoder.frames_encoded < u64::MAX ==> after.frames_encoded == encoder.frames_encoded + 1,
        after.target_width == encoder.target_width && after.target_height == encoder.target_height,
{
}

} // verus!
