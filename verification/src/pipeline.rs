//! The experimental video pipeline: frames to packets to a sink.

use crate::config::Config;
use crate::config::VideoCodecMode;
use crate::config::VideoEncoderMode;
use crate::encode::software::SoftwareEncoder;
use crate::encode::vaapi::VaapiEncoder;
use crate::encode::VideoCodec;
use crate::transport::null::NullSink;
use crate::transport::tcp::TcpAnnexBSink;
use vstd::prelude::*;

verus! {

/// What captures the screen.
#[derive(Debug)]
pub enum CaptureBackend {
    Drm { device_path: String, output_name: String },
    Fbdev,
}

/// An encoder of the pipeline.
#[derive(Debug)]
pub enum PipelineEncoder {
    Software(SoftwareEncoder),
    Vaapi(VaapiEncoder),
}

/// A sink of the pipeline.
#[derive(Debug)]
pub enum PipelineSink {
    Null(NullSink),
    /// A stream that clients find at the given address and port.
    Tcp { sink: TcpAnnexBSink, address: (String, u16) },
}

/// Where the pipeline takes its frames from.
#[derive(Debug)]
pub enum PipelineSource {
    /// From the captured frames.
    Captured,
    /// From the captured frames, although shared buffers were wanted: the screen is not captured
    /// in a way that has them.
    CapturedForWantOfDrm,
    /// From the shared buffers of an output.
    Dmabuf { device_path: String, output_name: String },
    /// From the video driver, which scales an output to the size of the stream.
    ScaledCapture { device_path: String, output_name: String },
}

/// Limits the rate of the frames that are streamed. Times are in nanoseconds since some fixed
/// moment.
#[derive(Clone, Copy, Debug, PartialEq, Eq, Structural)]
pub struct FrameLimiter {
    /// The shortest time between two streamed frames. Zero is no limit.
    pub interval: u64,
    /// When the last streamed frame was captured.
    pub last: Option<u64>,
    /// When the frame was captured that is being encoded, if there is one.
    pub pending: Option<u64>,
}

/// Nanoseconds in a second.
pub const SECOND_NS: u64 = 1_000_000_000;

/// The shortest time between frames that come at most `fps` times a second, in nanoseconds. Zero is
/// taken as one. Without a limit of its own the stream has the rate of the capture, and every
/// captured frame is streamed.
pub open spec fn frame_interval(fps: Option<u32>) -> int {
    match fps {
        None => 0,
        Some(fps) => {
            let rate = if fps == 0 {
                1
            } else {
                fps as int
            };
            (SECOND_NS + rate - 1) / rate
        },
    }
}

impl FrameLimiter {
    /// Creates a limiter to `fps` frames a second.
    pub fn new(fps: Option<u32>) -> (limiter: Self)
        ensures
            limiter.interval == frame_interval(fps),
            limiter.last is None,
            limiter.pending is None,
    {
        let interval: u64 = match fps {
            None => 0,
            Some(fps) => {
                let rate: u64 = if fps == 0 {
                    1
                } else {
                    fps as u64
                };
                proof {
                    let total = SECOND_NS + rate - 1;
                    vstd::arithmetic::div_mod::lemma_div_is_ordered_by_denominator(
                        total,
                        1,
                        rate as int,
                    );
                    vstd::arithmetic::div_mod::lemma_div_basics(total);
                }
                (SECOND_NS + rate - 1) / rate
            },
        };
        FrameLimiter { interval, last: None, pending: None }
    }

    /// Whether a frame that was captured at `now` may be streamed: it is the first, or the last
    /// streamed frame is far enough back.
    pub open spec fn passes(&self, now: u64) -> bool {
        match self.last {
            None => true,
            Some(last) => crate::capture_loop::since(now, last) >= self.interval,
        }
    }

    /// The limiter after a frame that was captured at `now` is offered.
    pub open spec fn after_offer(&self, now: u64) -> FrameLimiter {
        if self.passes(now) {
            FrameLimiter { pending: Some(now), ..*self }
        } else {
            *self
        }
    }

    /// The limiter after the offered frame was or was not encoded. Only a frame that was encoded
    /// counts.
    pub open spec fn after_encoding(&self, encoded: bool) -> FrameLimiter {
        FrameLimiter {
            last: if encoded && self.pending is Some {
                self.pending
            } else {
                self.last
            },
            pending: None,
            ..*self
        }
    }

    /// Offers a frame that was captured at `now`. Tells whether it may be streamed.
    pub fn offer(&mut self, now: u64) -> (through: bool)
        ensures
            through == old(self).passes(now),
            *final(self) == old(self).after_offer(now),
    {
        let due: bool = match self.last {
            None => true,
            Some(last) => {
                let passed: u64 = if now >= last {
                    now - last
                } else {
                    0
                };
                passed >= self.interval
            },
        };
        if due {
            self.pending = Some(now);
        }
        due
    }

    /// Takes in whether the offered frame was encoded.
    pub fn on_encoded(&mut self, encoded: bool)
        ensures
            *final(self) == old(self).after_encoding(encoded),
    {
        if encoded && self.pending.is_some() {
            self.last = self.pending;
        }
        self.pending = None;
    }
}

/// A frame that is offered to a limiter: when it was captured, and whether it can be encoded.
pub struct Offer {
    pub now: u64,
    pub encodes: bool,
}

/// When the streamed ones of the offered frames were captured.
pub open spec fn streamed_times(limiter: FrameLimiter, offers: Seq<Offer>) -> Seq<u64>
    decreases offers.len(),
{
    if offers.len() == 0 {
        Seq::empty()
    } else {
        let first = offers[0];
        let offered = limiter.after_offer(first.now);
        if limiter.passes(first.now) {
            let rest = streamed_times(
                offered.after_encoding(first.encodes),
                offers.drop_first(),
            );
            if first.encodes {
                seq![first.now] + rest
            } else {
                rest
            }
        } else {
            streamed_times(offered, offers.drop_first())
        }
    }
}

proof fn lemma_streamed_times(limiter: FrameLimiter, offers: Seq<Offer>, i: int, j: int)
    requires
        limiter.interval > 0,
        0 <= i <= j < streamed_times(limiter, offers).len(),
    ensures
        ({
            let times = streamed_times(limiter, offers);
            &&& times[j] - times[i] >= (j - i) * limiter.interval
            &&& limiter.last matches Some(last) ==> times[i] - last >= limiter.interval
        }),
    decreases offers.len(),
{
    let interval = limiter.interval as int;
    let first = offers[0];
    let offered = limiter.after_offer(first.now);
    if limiter.passes(first.now) {
        let next = offered.after_encoding(first.encodes);
        let rest = streamed_times(next, offers.drop_first());
        if first.encodes {
            if i > 0 {
                lemma_streamed_times(next, offers.drop_first(), i - 1, j - 1);
            } else if j > 0 {
                lemma_streamed_times(next, offers.drop_first(), 0, j - 1);
                assert(rest[0] - first.now >= interval);
                assert(j * interval == (j - 1) * interval + interval) by (nonlinear_arith);
            } else {
                assert((j - i) * interval == 0) by (nonlinear_arith)
                    requires
                        i == j,
                ;
            }
        } else {
            lemma_streamed_times(next, offers.drop_first(), i, j);
        }
    } else {
        lemma_streamed_times(offered, offers.drop_first(), i, j);
    }
}

/// The stream keeps to its limit: whatever frames are offered, and whichever of them can be
/// encoded, `fps` frames after a streamed frame at least a second has passed.
pub proof fn law_stream_keeps_to_its_fps(
    limiter: FrameLimiter,
    fps: u32,
    offers: Seq<Offer>,
    i: int,
)
    requires
        fps > 0,
        limiter.interval == frame_interval(Some(fps)),
        0 <= i,
        i + fps < streamed_times(limiter, offers).len(),
    ensures
        streamed_times(limiter, offers)[i + fps] - streamed_times(limiter, offers)[i] >= SECOND_NS,
{
    let rate = fps as int;
    let total = SECOND_NS + rate - 1;
    vstd::arithmetic::div_mod::lemma_fundamental_div_mod(total, rate);
    let interval = limiter.interval as int;
    assert(interval > 0) by (nonlinear_arith)
        requires
            total == rate * interval + total % rate,
            0 <= total % rate < rate,
            total >= rate,
    ;
    lemma_streamed_times(limiter, offers, i, i + rate);
    assert(rate * interval >= SECOND_NS);
}

/// Without a limit every frame that can be encoded is streamed.
pub proof fn law_stream_without_limit_keeps_every_frame(limiter: FrameLimiter, offers: Seq<Offer>)
    requires
        limiter.interval == frame_interval(None),
    ensures
        streamed_times(limiter, offers) == offers.filter(|o: Offer| o.encodes).map_values(
            |o: Offer| o.now,
        ),
    decreases offers.len(),
{
    let kept = |o: Offer| o.encodes;
    let time = |o: Offer| o.now;
    reveal(Seq::filter);
    if offers.len() == 0 {
        assert(offers.filter(kept).map_values(time) =~= Seq::<u64>::empty());
    } else {
        let first = offers[0];
        let rest = offers.drop_first();
        let next = limiter.after_offer(first.now).after_encoding(first.encodes);
        law_stream_without_limit_keeps_every_frame(next, rest);
        assert(offers =~= seq![first] + rest);
        Seq::filter_distributes_over_add(seq![first], rest, kept);
        assert(seq![first].drop_last() =~= Seq::<Offer>::empty());
        assert(Seq::<Offer>::empty().filter(kept) =~= Seq::<Offer>::empty());
        assert(seq![first].filter(kept) =~= (if first.encodes {
            seq![first]
        } else {
            Seq::<Offer>::empty()
        }));
        assert(offers.filter(kept).map_values(time) =~= streamed_times(limiter, offers));
    }
}

/// A frame that could not be encoded costs nothing: the next frame may be streamed if that one
/// could have been.
pub proof fn law_failed_frames_cost_nothing(limiter: FrameLimiter, now: u64, next: u64)
    requires
        limiter.passes(now),
        now <= next,
    ensures
        limiter.after_offer(now).after_encoding(false).passes(next),
{
}

/// The experimental video pipeline.
#[derive(Debug)]
pub struct ExperimentalPipeline {
    pub encoder: PipelineEncoder,
    pub sink: PipelineSink,
    pub pts: u64,
    pub source: PipelineSource,
    pub limiter: FrameLimiter,
    /// Whether the frame that is being encoded has to be one that can be decoded without earlier
    /// ones.
    pub force_keyframe: bool,
}

/// The codec that a setting stands for.
pub open spec fn codec_of(mode: VideoCodecMode) -> VideoCodec {
    match mode {
        VideoCodecMode::H264 => VideoCodec::H264,
        VideoCodecMode::Hevc => VideoCodec::Hevc,
        VideoCodecMode::Av1 => VideoCodec::Av1,
    }
}

/// The codec that a setting stands for.
pub fn select_video_codec(mode: &VideoCodecMode) -> (codec: VideoCodec)
    ensures
        codec == codec_of(*mode),
{
    match mode {
        VideoCodecMode::H264 => VideoCodec::H264,
        VideoCodecMode::Hevc => VideoCodec::Hevc,
        VideoCodecMode::Av1 => VideoCodec::Av1,
    }
}

/// Whether this is a new encoder of the kind, codec and size that the settings ask for.
pub open spec fn encoder_matches(encoder: PipelineEncoder, config: &Config) -> bool {
    match encoder {
        PipelineEncoder::Software(software) => {
            &&& config.video_encoder == VideoEncoderMode::Software
            &&& software.codec == codec_of(config.video_codec)
            &&& software.target_width == config.video_width
            &&& software.target_height == config.video_height
            &&& software.inner is None
            &&& software.frames_encoded == 0
            &&& software.scaled_bgra@.len() == 0
        },
        PipelineEncoder::Vaapi(vaapi) => {
            &&& config.video_encoder == VideoEncoderMode::Vaapi
            &&& vaapi.codec == codec_of(config.video_codec)
            &&& vaapi.probe is None
        },
    }
}

/// Creates the encoder that the settings ask for, if they ask for one.
pub fn setup_encoder(config: &Config) -> (encoder: Option<PipelineEncoder>)
    ensures
        encoder is None <==> config.video_encoder == VideoEncoderMode::Off,
        encoder matches Some(encoder) ==> encoder_matches(encoder, config),
{
    let codec: VideoCodec = select_video_codec(&config.video_codec);
    match config.video_encoder {
        VideoEncoderMode::Off => None,
        VideoEncoderMode::Software => Some(
            PipelineEncoder::Software(
                SoftwareEncoder::new(codec, config.video_width, config.video_height),
            ),
        ),
        VideoEncoderMode::Vaapi => Some(PipelineEncoder::Vaapi(VaapiEncoder::new(codec))),
    }
}

/// The address and the port that the settings name for the stream.
pub open spec fn stream_address_of(config: &Config) -> (String, u16) {
    (config.video_stream_listen, config.video_stream_port)
}

/// The address and the port at which clients find the stream. There is none if the port is zero.
pub fn stream_address(config: &Config) -> (address: Option<(String, u16)>)
    ensures
        address == (if config.video_stream_port == 0 {
            None
        } else {
            Some(stream_address_of(config))
        }),
{
    if config.video_stream_port == 0 {
        None
    } else {
        Some((config.video_stream_listen.clone(), config.video_stream_port))
    }
}

/// Creates the pipeline that the settings ask for, if they ask for an encoder. Its packets are
/// streamed if a stream port is set, and counted otherwise.
pub fn setup_pipeline(config: &Config) -> (pipeline: Option<ExperimentalPipeline>)
    ensures
        pipeline is None <==> config.video_encoder == VideoEncoderMode::Off,
        pipeline matches Some(pipeline) ==> {
            &&& encoder_matches(pipeline.encoder, config)
            &&& pipeline.pts == 0
            &&& pipeline.source is Captured
            &&& pipeline.limiter.interval == frame_interval(config.video_fps)
            &&& pipeline.limiter.last is None
            &&& pipeline.limiter.pending is None
            &&& !pipeline.force_keyframe
            &&& if config.video_stream_port == 0 {
                pipeline.sink matches PipelineSink::Null(sink) && sink.packets == 0 && sink.bytes
                    == 0
            } else {
                pipeline.sink matches PipelineSink::Tcp { sink, address } && sink.wf()
                    && !sink.client && sink.packets == 0 && sink.bytes == 0 && address
                    == stream_address_of(config)
            }
        },
{
    match setup_encoder(config) {
        None => None,
        Some(encoder) => {
            let sink: PipelineSink = match stream_address(config) {
                None => PipelineSink::Null(NullSink::new()),
                Some(address) => PipelineSink::Tcp { sink: TcpAnnexBSink::new(), address },
            };
            Some(
                ExperimentalPipeline {
                    encoder,
                    sink,
                    pts: 0,
                    source: PipelineSource::Captured,
                    limiter: FrameLimiter::new(config.video_fps),
                    force_keyframe: false,
                },
            )
        },
    }
}

/// Decides where the pipeline takes its frames from. The video driver encodes shared buffers, which
/// only a DRM backend has. An encoder on the processor takes captured frames, unless the settings
/// ask for a scaled capture, which needs a DRM backend too.
pub fn setup_pipeline_frame_source(config: &Config, backend: &CaptureBackend) -> (source:
    PipelineSource)
    ensures
        match config.video_encoder {
            VideoEncoderMode::Off => source is Captured,
            VideoEncoderMode::Vaapi => match *backend {
                CaptureBackend::Drm { device_path, output_name } => source matches
                    PipelineSource::Dmabuf { device_path: path, output_name: name } && path
                    == device_path && name == output_name,
                CaptureBackend::Fbdev => source is CapturedForWantOfDrm,
            },
            VideoEncoderMode::Software => if !config.video_capture_scale {
                source is Captured
            } else {
                match *backend {
                    CaptureBackend::Drm { device_path, output_name } => source matches
                        PipelineSource::ScaledCapture { device_path: path, output_name: name }
                        && path == device_path && name == output_name,
                    CaptureBackend::Fbdev => source is CapturedForWantOfDrm,
                }
            },
        },
{
    let scaled: bool = match config.video_encoder {
        VideoEncoderMode::Off => return PipelineSource::Captured,
        VideoEncoderMode::Software => {
            if !config.video_capture_scale {
                return PipelineSource::Captured;
            }
            true
        },
        VideoEncoderMode::Vaapi => false,
    };
    match backend {
        CaptureBackend::Fbdev => PipelineSource::CapturedForWantOfDrm,
        CaptureBackend::Drm { device_path, output_name } => {
            let device_path: String = device_path.clone();
            let output_name: String = output_name.clone();
            if scaled {
                PipelineSource::ScaledCapture { device_path, output_name }
            } else {
                PipelineSource::Dmabuf { device_path, output_name }
            }
        },
    }
}

/// The limit of a stream is no stricter than it has to be: a frame may be streamed once so much time
/// has passed since the last streamed one that `fps` such times make up a second.
pub proof fn law_limit_is_no_stricter_than_its_fps(
    limiter: FrameLimiter,
    fps: u32,
    last: u64,
    now: u64,
)
    requires
        fps > 0,
        limiter.interval == frame_interval(Some(fps)),
        limiter.last == Some(last),
        last <= now,
    ensures
        limiter.passes(now) <==> fps * (now - last) >= 1_000_000_000,
{
    let rate = fps as int;
    let total = SECOND_NS + rate - 1;
    let interval = limiter.interval as int;
    let passed = now - last;
    vstd::arithmetic::div_mod::lemma_fundamental_div_mod(total, rate);
    if passed >= interval {
        assert(rate * passed >= rate * interval) by (nonlinear_arith)
            requires
                passed >= interval,
                rate > 0,
        ;
    } else {
        assert(rate * passed <= rate * interval - rate) by (nonlinear_arith)
            requires
                passed <= interval - 1,
                rate > 0,
        ;
    }
}

/// A setting for a codec stands for the codec of its name.
pub proof fn law_codecs_keep_their_names(mode: VideoCodecMode)
    ensures
        mode is H264 <==> codec_of(mode) is H264,
        mode is Hevc <==> codec_of(mode) is Hevc,
        mode is Av1 <==> codec_of(mode) is Av1,
{
}

} // verus!
