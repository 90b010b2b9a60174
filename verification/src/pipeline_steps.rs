//! The steps of the video pipeline: what each captured frame leads to, up to the sink.
//!
//! Encoding and sending are done outside. The decisions are made here: each method takes the answer
//! to one [`PipelineStep`] and gives the next.

use crate::encode::software::EncodeJob;
use crate::encode::software::X264Encoder;
use crate::encode::software::X264Output;
use crate::encode::vaapi::ProbeAnswer;
use crate::encode::vaapi::VaapiProbe;
use crate::encode::EncodeError;
use crate::encode::EncodedPacket;
use crate::encode::VideoEncoder;
use crate::pipeline::ExperimentalPipeline;
use crate::pipeline::PipelineEncoder;
use crate::pipeline::PipelineSink;
use crate::pipeline::PipelineSource;
use crate::transport::tcp::TcpAnnexBSink;
use crate::transport::PacketSink;
use crate::transport::SinkError;
use crate::video::clone_video_frame;
use crate::video::FrameError;
use crate::video::VideoFrame;
use vstd::prelude::*;

verus! {

/// Why the pipeline could not do its work on a frame.
#[derive(Clone, Copy, Debug, PartialEq, Eq, Structural)]
pub enum PipelineError {
    /// The captured frame could not be copied.
    Frame(FrameError),
    /// The pipeline's own source gave no frame.
    SourceFailed,
    /// The frame could not be encoded.
    Encode(EncodeError),
    /// The packet could not be delivered.
    Sink(SinkError),
}

/// What is to be done next for a captured frame.
#[derive(Debug)]
pub enum PipelineStep {
    /// Take a frame from the pipeline's own source.
    CaptureSource,
    /// Start to encode this frame.
    Encode { frame: VideoFrame },
    /// Let the encoder library encode the frame.
    RunSoftware { job: EncodeJob },
    /// Ask the video driver whether it can encode the frame.
    RunProbe { probe: VaapiProbe },
    /// Hand the packet to the sink.
    Deliver { packet: EncodedPacket },
    /// Look for a client that the packet can be sent to.
    AcceptClient { packet: EncodedPacket },
    /// Send the packet to the client.
    WritePacket { packet: EncodedPacket },
    /// The work on the captured frame is over.
    Finished { result: Result<(), PipelineError> },
}

/// The step that ends the work on a frame because it could not be encoded.
pub open spec fn not_encoded(error: EncodeError) -> PipelineStep {
    PipelineStep::Finished { result: Err(PipelineError::Encode(error)) }
}

/// The step that ends the work on a frame well.
pub open spec fn well_done() -> PipelineStep {
    PipelineStep::Finished { result: Ok(()) }
}

impl ExperimentalPipeline {
    /// Only a connected client of the stream can be waiting.
    pub open spec fn wf(&self) -> bool {
        self.sink matches PipelineSink::Tcp { sink, .. } ==> sink.wf()
    }

    /// Whether the pipeline has a source of frames of its own.
    pub open spec fn has_own_source(&self) -> bool {
        self.source is Dmabuf || self.source is ScaledCapture
    }

    /// The pipeline after a frame of which nothing was encoded. It does not count.
    pub open spec fn after_failure(&self) -> ExperimentalPipeline {
        ExperimentalPipeline { limiter: self.limiter.after_encoding(false), ..*self }
    }

    /// What a frame that was captured at `now` leads to: nothing, if that is too soon after the
    /// frame before; a frame of the pipeline's own source, if it has one; and a copy of the
    /// captured frame otherwise.
    pub open spec fn processes(
        &self,
        frame: VideoFrame,
        force_keyframe: bool,
        now: u64,
        after: ExperimentalPipeline,
        step: PipelineStep,
    ) -> bool {
        let offered = ExperimentalPipeline {
            limiter: self.limiter.after_offer(now),
            force_keyframe,
            ..*self
        };
        if !self.limiter.passes(now) {
            after == *self && step == well_done()
        } else if self.has_own_source() {
            after == offered && step == PipelineStep::CaptureSource
        } else {
            match frame {
                VideoFrame::CpuBgra { width, height, stride, data } => {
                    &&& after == offered
                    &&& step matches PipelineStep::Encode {
                        frame: VideoFrame::CpuBgra { width: w, height: h, stride: s, data: d },
                    }
                    &&& w == width && h == height && s == stride && d@ == data@
                },
                VideoFrame::Dmabuf(_) => {
                    &&& after == offered.after_failure()
                    &&& step == (PipelineStep::Finished {
                        result: Err(PipelineError::Frame(FrameError::CannotClone)),
                    })
                },
            }
        }
    }

    /// Starts the work on a frame that was captured at `now`. `force_keyframe` asks for a packet
    /// that can be decoded without earlier ones.
    pub fn process(&mut self, frame: &VideoFrame, force_keyframe: bool, now: u64) -> (step:
        PipelineStep)
        requires
            old(self).wf(),
        ensures
            old(self).processes(*frame, force_keyframe, now, *final(self), step),
            final(self).wf(),
    {
        if !self.limiter.offer(now) {
            return PipelineStep::Finished { result: Ok(()) };
        }
        self.force_keyframe = force_keyframe;
        let own: bool = match self.source {
            PipelineSource::Dmabuf { .. } => true,
            PipelineSource::ScaledCapture { .. } => true,
            _ => false,
        };
        if own {
            return PipelineStep::CaptureSource;
        }
        match clone_video_frame(frame) {
            Ok(copy) => PipelineStep::Encode { frame: copy },
            Err(error) => {
                self.limiter.on_encoded(false);
                PipelineStep::Finished { result: Err(PipelineError::Frame(error)) }
            },
        }
    }

    /// What the pipeline's own source leads to.
    pub open spec fn sourced(
        &self,
        frame: Option<VideoFrame>,
        after: ExperimentalPipeline,
        step: PipelineStep,
    ) -> bool {
        match frame {
            Some(frame) => after == *self && step == (PipelineStep::Encode { frame }),
            None => after == self.after_failure() && step == (PipelineStep::Finished {
                result: Err(PipelineError::SourceFailed),
            }),
        }
    }

    /// Answer to [`PipelineStep::CaptureSource`]: the frame, if there was one.
    pub fn on_source(&mut self, frame: Option<VideoFrame>) -> (step: PipelineStep)
        requires
            old(self).wf(),
        ensures
            old(self).sourced(frame, *final(self), step),
            final(self).wf(),
    {
        match frame {
            Some(frame) => PipelineStep::Encode { frame },
            None => {
                self.limiter.on_encoded(false);
                PipelineStep::Finished { result: Err(PipelineError::SourceFailed) }
            },
        }
    }

    /// Whether the encoder can be given the frame.
    pub open spec fn accepts_frame(&self, frame: &VideoFrame) -> bool {
        match self.encoder {
            PipelineEncoder::Software(encoder) => encoder.accepts(frame),
            PipelineEncoder::Vaapi(encoder) => encoder.accepts(frame),
        }
    }

    /// Whether the encoder can be given the frame.
    pub fn can_encode(&self, frame: &VideoFrame) -> (can: bool)
        ensures
            can == self.accepts_frame(frame),
    {
        match &self.encoder {
            PipelineEncoder::Software(encoder) => encoder.can_encode(frame),
            PipelineEncoder::Vaapi(_) => true,
        }
    }

    /// What the start of encoding a frame leads to. The encoder is handed the frame, the
    /// pipeline's keyframe flag and the value of its clock, once.
    pub open spec fn starts(
        &self,
        frame: VideoFrame,
        after: ExperimentalPipeline,
        step: PipelineStep,
    ) -> bool {
        match self.encoder {
            PipelineEncoder::Software(encoder) => {
                &&& after.encoder matches PipelineEncoder::Software(prepared)
                &&& encoder.prepared_for(frame, prepared)
                &&& match encoder.job_for(frame, self.force_keyframe, self.pts) {
                    Ok(job) => {
                        &&& after == (ExperimentalPipeline { encoder: after.encoder, ..*self })
                        &&& step == (PipelineStep::RunSoftware { job })
                    },
                    Err(error) => {
                        &&& after == (ExperimentalPipeline {
                            encoder: after.encoder,
                            ..self.after_failure()
                        })
                        &&& step == not_encoded(error)
                    },
                }
            },
            PipelineEncoder::Vaapi(encoder) => match step {
                PipelineStep::RunProbe { probe } => {
                    &&& after == *self
                    &&& encoder.prepares(frame, self.pts, Ok(probe))
                },
                PipelineStep::Finished { result: Err(PipelineError::Encode(error)) } => {
                    &&& after == self.after_failure()
                    &&& encoder.prepares(frame, self.pts, Err(error))
                },
                _ => false,
            },
        }
    }

    /// Answer to [`PipelineStep::Encode`]: hands the frame to the encoder, with the keyframe flag
    /// that the work on the frame was started with and the value of the stream's clock.
    pub fn start_encoding(&mut self, frame: &VideoFrame) -> (step: PipelineStep)
        requires
            old(self).wf(),
            old(self).accepts_frame(frame),
        ensures
            old(self).starts(*frame, *final(self), step),
            step matches PipelineStep::RunSoftware { job } ==> job.pts == old(self).pts
                && job.force_keyframe == old(self).force_keyframe,
            final(self).wf(),
    {
        let pts: u64 = self.pts;
        let force_keyframe: bool = self.force_keyframe;
        let error: EncodeError = match &mut self.encoder {
            PipelineEncoder::Software(encoder) => match encoder.encode(
                frame,
                force_keyframe,
                pts,
            ) {
                Ok(job) => return PipelineStep::RunSoftware { job },
                Err(error) => error,
            },
            PipelineEncoder::Vaapi(encoder) => match encoder.encode(frame, force_keyframe, pts) {
                Ok(probe) => return PipelineStep::RunProbe { probe },
                Err(error) => error,
            },
        };
        self.limiter.on_encoded(false);
        PipelineStep::Finished { result: Err(PipelineError::Encode(error)) }
    }

    /// What the encoder library's work leads to: a packet moves the clock of the stream on by one,
    /// counts against the limit of its rate, and goes to the sink; a frame that could not be
    /// encoded does none of these.
    pub open spec fn encodes(
        &self,
        outcome: Option<(X264Encoder, X264Output)>,
        after: ExperimentalPipeline,
        step: PipelineStep,
    ) -> bool {
        &&& self.encoder matches PipelineEncoder::Software(encoder)
        &&& after.encoder matches PipelineEncoder::Software(used)
        &&& match step {
            PipelineStep::Deliver { packet } => {
                &&& encoder.took_in(outcome, self.pts, used, Ok(packet))
                &&& after == (ExperimentalPipeline {
                    encoder: after.encoder,
                    pts: self.pts.wrapping_add(1),
                    limiter: self.limiter.after_encoding(true),
                    ..*self
                })
            },
            PipelineStep::Finished { result: Err(PipelineError::Encode(error)) } => {
                &&& encoder.took_in(outcome, self.pts, used, Err(error))
                &&& after == (ExperimentalPipeline {
                    encoder: after.encoder,
                    ..self.after_failure()
                })
            },
            _ => false,
        }
    }

    /// Whether the count of encoded frames can go on.
    pub open spec fn can_count(&self, outcome: Option<(X264Encoder, X264Output)>) -> bool {
        self.encoder matches PipelineEncoder::Software(encoder) && (outcome matches Some(done)
            ==> done.1.ok ==> encoder.frames_encoded < u64::MAX)
    }

    /// Answer to [`PipelineStep::RunSoftware`]: `None` if the encoder library could not be set up,
    /// and otherwise the encoder that was used and what it put out.
    pub fn on_encoded(&mut self, outcome: Option<(X264Encoder, X264Output)>) -> (step:
        PipelineStep)
        requires
            old(self).wf(),
            old(self).can_count(outcome),
        ensures
            old(self).encodes(outcome, *final(self), step),
            step matches PipelineStep::Deliver { packet } ==> packet.pts == old(self).pts,
            final(self).wf(),
    {
        let pts: u64 = self.pts;
        let result: Result<EncodedPacket, EncodeError> = match &mut self.encoder {
            PipelineEncoder::Software(encoder) => encoder.on_encoded(outcome, pts),
            PipelineEncoder::Vaapi(_) => vstd::pervasive::unreached(),
        };
        match result {
            Ok(packet) => {
                self.pts = pts.wrapping_add(1);
                self.limiter.on_encoded(true);
                PipelineStep::Deliver { packet }
            },
            Err(error) => {
                self.limiter.on_encoded(false);
                PipelineStep::Finished { result: Err(PipelineError::Encode(error)) }
            },
        }
    }

    /// What the video driver's answer leads to. The frame is not encoded either way.
    pub open spec fn probed(
        &self,
        answer: Option<ProbeAnswer>,
        after: ExperimentalPipeline,
        step: PipelineStep,
    ) -> bool {
        &&& self.encoder matches PipelineEncoder::Vaapi(encoder)
        &&& after == (ExperimentalPipeline {
            encoder: PipelineEncoder::Vaapi(encoder.after_probe(answer)),
            ..self.after_failure()
        })
        &&& step == not_encoded(
            crate::encode::vaapi::VaapiEncoder::probe_error(answer, self.pts),
        )
    }

    /// Answer to [`PipelineStep::RunProbe`]: what the video driver told, if it could open the
    /// frame.
    pub fn on_probed(&mut self, answer: Option<ProbeAnswer>) -> (step: PipelineStep)
        requires
            old(self).wf(),
            old(self).encoder is Vaapi,
        ensures
            old(self).probed(answer, *final(self), step),
            final(self).wf(),
    {
        let pts: u64 = self.pts;
        let error: EncodeError = match &mut self.encoder {
            PipelineEncoder::Vaapi(encoder) => encoder.ensure_probe(answer, pts),
            PipelineEncoder::Software(_) => vstd::pervasive::unreached(),
        };
        self.limiter.on_encoded(false);
        PipelineStep::Finished { result: Err(PipelineError::Encode(error)) }
    }

    /// What handing a packet to the sink leads to: a sink that counts has counted it; a stream
    /// without a client looks for one, and one with a client decides on the packet.
    pub open spec fn delivers(
        &self,
        packet: EncodedPacket,
        after: ExperimentalPipeline,
        step: PipelineStep,
    ) -> bool {
        match self.sink {
            PipelineSink::Null(sink) => {
                &&& after.sink matches PipelineSink::Null(counted)
                &&& counted.packets == sink.packets + 1
                &&& counted.bytes == sink.bytes + packet.data@.len()
                &&& after == (ExperimentalPipeline { sink: after.sink, ..*self })
                &&& step == well_done()
            },
            PipelineSink::Tcp { sink, address } => if sink.client {
                self.decides(sink, packet, after, step)
            } else {
                after == *self && step == (PipelineStep::AcceptClient { packet })
            },
        }
    }

    /// What a stream in the state `sink` does with a packet: it is sent, if there is a client that
    /// can decode it.
    pub open spec fn decides(
        &self,
        sink: TcpAnnexBSink,
        packet: EncodedPacket,
        after: ExperimentalPipeline,
        step: PipelineStep,
    ) -> bool {
        &&& self.sink matches PipelineSink::Tcp { sink: _, address }
        &&& after == (ExperimentalPipeline {
            sink: PipelineSink::Tcp { sink: sink.after_submit(&packet), address },
            ..*self
        })
        &&& step == (if sink.sends(&packet) {
            PipelineStep::WritePacket { packet }
        } else {
            well_done()
        })
    }

    /// Whether the sink can take the packet.
    pub open spec fn accepts_packet(&self, packet: &EncodedPacket) -> bool {
        self.sink matches PipelineSink::Null(sink) ==> sink.accepts(packet)
    }

    /// Answer to [`PipelineStep::Deliver`]: hands the packet to the sink.
    pub fn deliver(&mut self, packet: EncodedPacket) -> (step: PipelineStep)
        requires
            old(self).wf(),
            old(self).accepts_packet(&packet),
        ensures
            old(self).delivers(packet, *final(self), step),
            final(self).wf(),
    {
        let sent: Result<bool, SinkError> = match &mut self.sink {
            PipelineSink::Null(sink) => {
                return match sink.submit(packet) {
                    Ok(()) => PipelineStep::Finished { result: Ok(()) },
                    Err(error) => PipelineStep::Finished {
                        result: Err(PipelineError::Sink(error)),
                    },
                };
            },
            PipelineSink::Tcp { sink, address: _ } => {
                if sink.wants_client() {
                    return PipelineStep::AcceptClient { packet };
                }
                sink.submit(&packet)
            },
        };
        Self::step_of(sent, packet)
    }

    /// The step after a stream has decided on a packet.
    fn step_of(sent: Result<bool, SinkError>, packet: EncodedPacket) -> (step: PipelineStep)
        ensures
            step == (match sent {
                Ok(true) => PipelineStep::WritePacket { packet },
                Ok(false) => well_done(),
                Err(error) => PipelineStep::Finished { result: Err(PipelineError::Sink(error)) },
            }),
    {
        match sent {
            Ok(true) => PipelineStep::WritePacket { packet },
            Ok(false) => PipelineStep::Finished { result: Ok(()) },
            Err(error) => PipelineStep::Finished { result: Err(PipelineError::Sink(error)) },
        }
    }

    /// What looking for a client leads to.
    pub open spec fn accepted_client(
        &self,
        packet: EncodedPacket,
        accepted: bool,
        after: ExperimentalPipeline,
        step: PipelineStep,
    ) -> bool {
        &&& self.sink matches PipelineSink::Tcp { sink, address: _ }
        &&& self.decides(sink.after_accept(accepted), packet, after, step)
    }

    /// Answer to [`PipelineStep::AcceptClient`]: whether there was a client.
    pub fn on_accepted(&mut self, packet: EncodedPacket, accepted: bool) -> (step: PipelineStep)
        requires
            old(self).wf(),
            old(self).sink is Tcp,
        ensures
            old(self).accepted_client(packet, accepted, *final(self), step),
            final(self).wf(),
    {
        let sent: Result<bool, SinkError> = match &mut self.sink {
            PipelineSink::Tcp { sink, address: _ } => {
                sink.accept_client_if_needed(accepted);
                sink.submit(&packet)
            },
            PipelineSink::Null(_) => vstd::pervasive::unreached(),
        };
        Self::step_of(sent, packet)
    }

    /// What sending a packet leads to. A client that it could not be sent to is gone, which is no
    /// error.
    pub open spec fn wrote(
        &self,
        packet: EncodedPacket,
        written: bool,
        after: ExperimentalPipeline,
        step: PipelineStep,
    ) -> bool {
        &&& self.sink matches PipelineSink::Tcp { sink, address }
        &&& after == (ExperimentalPipeline {
            sink: PipelineSink::Tcp {
                sink: sink.after_written(packet.data@.len() as usize, written),
                address,
            },
            ..*self
        })
        &&& step == well_done()
    }

    /// Whether the stream's counts can go on.
    pub open spec fn can_count_sent(&self, packet: &EncodedPacket) -> bool {
        self.sink matches PipelineSink::Tcp { sink, .. } && sink.packets < u64::MAX && sink.bytes
            + packet.data@.len() <= u64::MAX
    }

    /// Answer to [`PipelineStep::WritePacket`]: whether the packet could be sent.
    pub fn on_written(&mut self, packet: &EncodedPacket, written: bool) -> (step: PipelineStep)
        requires
            old(self).wf(),
            old(self).sink is Tcp,
            written ==> old(self).can_count_sent(packet),
        ensures
            old(self).wrote(*packet, written, *final(self), step),
            final(self).wf(),
    {
        let result: Result<(), SinkError> = match &mut self.sink {
            PipelineSink::Tcp { sink, address: _ } => sink.on_written(packet.data.len(), written),
            PipelineSink::Null(_) => vstd::pervasive::unreached(),
        };
        match result {
            Ok(()) => PipelineStep::Finished { result: Ok(()) },
            Err(error) => PipelineStep::Finished { result: Err(PipelineError::Sink(error)) },
        }
    }
}

impl ExperimentalPipeline {
    /// Whether some answer to `step` leads this pipeline to `after` and `next`.
    pub open spec fn leads_to(
        &self,
        step: PipelineStep,
        after: ExperimentalPipeline,
        next: PipelineStep,
    ) -> bool {
        match step {
            PipelineStep::CaptureSource => exists|frame: Option<VideoFrame>| #[trigger]
                self.sourced(frame, after, next),
            PipelineStep::Encode { frame } => self.starts(frame, after, next),
            PipelineStep::RunSoftware { job } => exists|
                outcome: Option<(X264Encoder, X264Output)>,
            | #[trigger]
                self.encodes(outcome, after, next),
            PipelineStep::RunProbe { probe } => exists|answer: Option<ProbeAnswer>| #[trigger]
                self.probed(answer, after, next),
            PipelineStep::Deliver { packet } => self.delivers(packet, after, next),
            PipelineStep::AcceptClient { packet } => exists|accepted: bool| #[trigger]
                self.accepted_client(packet, accepted, after, next),
            PipelineStep::WritePacket { packet } => exists|written: bool| #[trigger]
                self.wrote(packet, written, after, next),
            PipelineStep::Finished { result } => false,
        }
    }

    /// Whether some captured frame leads this pipeline to `after` and `next`.
    pub open spec fn takes_up(&self, after: ExperimentalPipeline, next: PipelineStep) -> bool {
        exists|frame: VideoFrame, force_keyframe: bool, now: u64| #[trigger]
            self.processes(frame, force_keyframe, now, after, next)
    }
}

/// A moment of the pipeline's work: the pipeline, and the step that is to be done.
pub struct PipelineMoment {
    pub pipeline: ExperimentalPipeline,
    pub step: PipelineStep,
}

/// Whether `next` can follow `moment`: some answer to its step leads there, or some captured frame
/// if the work on the frame before is over.
pub open spec fn follows(moment: PipelineMoment, next: PipelineMoment) -> bool {
    if moment.step is Finished {
        moment.pipeline.takes_up(next.pipeline, next.step)
    } else {
        moment.pipeline.leads_to(moment.step, next.pipeline, next.step)
    }
}

/// Whether the moments follow each other.
pub open spec fn in_turn(moments: Seq<PipelineMoment>) -> bool
    decreases moments.len(),
{
    moments.len() <= 1 || (in_turn(moments.drop_last()) && follows(
        moments.drop_last().last(),
        moments.last(),
    ))
}

/// The packets that are handed to the sink, in order.
pub open spec fn packets_of(moments: Seq<PipelineMoment>) -> Seq<EncodedPacket>
    decreases moments.len(),
{
    if moments.len() == 0 {
        Seq::empty()
    } else {
        let earlier = packets_of(moments.drop_last());
        match moments.last().step {
            PipelineStep::Deliver { packet } => earlier.push(packet),
            _ => earlier,
        }
    }
}

/// The value of a clock that was at `start` after `n` more frames.
pub open spec fn clock_after(start: u64, n: int) -> int {
    (start + n) % 0x1_0000_0000_0000_0000
}

proof fn lemma_clock_goes_on(start: u64, n: int, value: u64)
    requires
        n >= 0,
        value == clock_after(start, n),
    ensures
        value.wrapping_add(1) == clock_after(start, n + 1),
{
    vstd::arithmetic::div_mod::lemma_add_mod_noop(start + n, 1, 0x1_0000_0000_0000_0000);
    vstd::arithmetic::div_mod::lemma_small_mod(1, 0x1_0000_0000_0000_0000);
}

/// What a step of the work on one frame goes with: `pts` and `force_keyframe` are the clock and the
/// flag with which the work on the frame was started, `packets` were handed to the sink for it.
pub open spec fn goes_with(
    moment: PipelineMoment,
    pts: u64,
    force_keyframe: bool,
    packets: Seq<EncodedPacket>,
) -> bool {
    let pipeline = moment.pipeline;
    match moment.step {
        PipelineStep::CaptureSource => {
            &&& packets.len() == 0 && pipeline.pts == pts
            &&& pipeline.force_keyframe == force_keyframe
        },
        PipelineStep::Encode { frame } => {
            &&& packets.len() == 0 && pipeline.pts == pts
            &&& pipeline.force_keyframe == force_keyframe
        },
        PipelineStep::RunSoftware { job } => {
            &&& packets.len() == 0 && pipeline.pts == pts
            &&& job.pts == pts && job.force_keyframe == force_keyframe
        },
        PipelineStep::RunProbe { probe } => packets.len() == 0 && pipeline.pts == pts,
        PipelineStep::Deliver { packet } => {
            &&& packets == seq![packet] && packet.pts == pts
            &&& pipeline.pts == pts.wrapping_add(1)
        },
        PipelineStep::AcceptClient { packet } => {
            &&& packets == seq![packet] && packet.pts == pts
            &&& pipeline.pts == pts.wrapping_add(1)
        },
        PipelineStep::WritePacket { packet } => {
            &&& packets == seq![packet] && packet.pts == pts
            &&& pipeline.pts == pts.wrapping_add(1)
        },
        PipelineStep::Finished { result } => {
            ||| packets.len() == 0 && pipeline.pts == pts
            ||| {
                &&& packets.len() == 1 && packets[0].pts == pts
                &&& pipeline.pts == pts.wrapping_add(1)
                &&& result is Ok
            }
        },
    }
}

/// Packets that a sink that counts has counted since it was `sink`.
pub open spec fn counted_since(sink: PipelineSink, moment: PipelineMoment) -> int {
    match (sink, moment.pipeline.sink) {
        (PipelineSink::Null(before), PipelineSink::Null(after)) => after.packets - before.packets,
        _ => 0,
    }
}

/// Every captured frame makes at most one packet, under the clock and with the flag with which the
/// work on it was started. Whatever the encoder, the source and the sink answer:
/// - the encoder library is given the value of the clock and the flag;
/// - a frame that could not be encoded hands nothing to the sink and leaves the clock as it was;
/// - a frame that could be encoded hands one packet to the sink, with that value of the clock, and
///   moves the clock on by one; the work on it ends well;
/// - a sink that counts has counted every packet that was handed to it once the work is over.
pub proof fn law_every_frame_makes_at_most_one_packet(
    pipeline: ExperimentalPipeline,
    frame: VideoFrame,
    force_keyframe: bool,
    now: u64,
    moments: Seq<PipelineMoment>,
)
    requires
        moments.len() > 0,
        pipeline.processes(
            frame,
            force_keyframe,
            now,
            moments[0].pipeline,
            moments[0].step,
        ),
        in_turn(moments),
        forall|k: int| 0 <= k < moments.len() - 1 ==> !((#[trigger] moments[k]).step is Finished),
    ensures
        goes_with(moments.last(), pipeline.pts, force_keyframe, packets_of(moments)),
        pipeline.sink is Null ==> {
            &&& moments.last().pipeline.sink is Null
            &&& counted_since(pipeline.sink, moments.last()) == (if moments.last().step is Finished {
                packets_of(moments).len() as int
            } else {
                0
            })
        },
    decreases moments.len(),
{
    let earlier = moments.drop_last();
    assert(packets_of(Seq::<PipelineMoment>::empty()).len() == 0);
    if moments.len() == 1 {
        assert(earlier =~= Seq::<PipelineMoment>::empty());
    } else {
        assert(earlier[0] == moments[0]);
        assert(!(moments[moments.len() - 2].step is Finished));
        assert(earlier.last() == moments[moments.len() - 2]);
        assert forall|k: int| 0 <= k < earlier.len() - 1 implies !((
        #[trigger] earlier[k]).step is Finished) by {
            assert(earlier[k] == moments[k]);
        }
        law_every_frame_makes_at_most_one_packet(pipeline, frame, force_keyframe, now, earlier);
        if let PipelineStep::Deliver { packet } = moments.last().step {
            assert(packets_of(moments) =~= seq![packet]);
        }
    }
}

/// How far a step is from the end of the work on a frame.
pub open spec fn rank(step: PipelineStep) -> int {
    match step {
        PipelineStep::CaptureSource => 6,
        PipelineStep::Encode { frame } => 5,
        PipelineStep::RunSoftware { job } => 4,
        PipelineStep::RunProbe { probe } => 4,
        PipelineStep::Deliver { packet } => 3,
        PipelineStep::AcceptClient { packet } => 2,
        PipelineStep::WritePacket { packet } => 1,
        PipelineStep::Finished { result } => 0,
    }
}

/// The work on a frame ends: every answer brings it closer to its end, so that it takes at most six
/// steps.
pub proof fn law_work_on_a_frame_ends(moments: Seq<PipelineMoment>)
    requires
        moments.len() > 0,
        in_turn(moments),
        forall|k: int| 0 <= k < moments.len() - 1 ==> !((#[trigger] moments[k]).step is Finished),
    ensures
        moments.len() - 1 + rank(moments.last().step) <= 6,
    decreases moments.len(),
{
    if moments.len() > 1 {
        let earlier = moments.drop_last();
        assert(earlier.last() == moments[moments.len() - 2]);
        assert forall|k: int| 0 <= k < earlier.len() - 1 implies !((
        #[trigger] earlier[k]).step is Finished) by {
            assert(earlier[k] == moments[k]);
        }
        law_work_on_a_frame_ends(earlier);
    }
}

/// The packets of a stream count its clock: over any number of captured frames, and whatever the
/// encoder, the source and the sink answer, the packet after `k` others carries the value of the
/// clock `k` after the start, and the clock has moved on by one for every packet.
pub proof fn law_packets_count_the_clock(moments: Seq<PipelineMoment>)
    requires
        moments.len() > 0,
        moments[0].step is Finished,
        in_turn(moments),
    ensures
        moments.last().pipeline.pts == clock_after(
            moments[0].pipeline.pts,
            packets_of(moments).len() as int,
        ),
        forall|k: int|
            0 <= k < packets_of(moments).len() ==> (#[trigger] packets_of(moments)[k]).pts
                == clock_after(moments[0].pipeline.pts, k),
    decreases moments.len(),
{
    let start = moments[0].pipeline.pts;
    let earlier = moments.drop_last();
    if moments.len() == 1 {
        assert(earlier =~= Seq::<PipelineMoment>::empty());
        vstd::arithmetic::div_mod::lemma_small_mod(start as nat, 0x1_0000_0000_0000_0000);
    } else {
        assert(earlier[0] == moments[0]);
        law_packets_count_the_clock(earlier);
        lemma_clock_goes_on(start, packets_of(earlier).len() as int, earlier.last().pipeline.pts);
    }
}

/// The pipeline works on the picture that was captured: the frame that it starts to encode is the
/// captured one, pixel for pixel, unless it has a source of its own, from which it then takes every
/// frame. A frame that comes too soon is left out, and changes nothing.
pub proof fn law_captured_picture_is_encoded(
    pipeline: ExperimentalPipeline,
    frame: VideoFrame,
    force_keyframe: bool,
    now: u64,
    after: ExperimentalPipeline,
    step: PipelineStep,
)
    requires
        pipeline.processes(frame, force_keyframe, now, after, step),
    ensures
        step matches PipelineStep::Encode { frame: encoded } ==> {
            &&& encoded is CpuBgra && frame is CpuBgra
            &&& encoded->CpuBgra_width == frame->CpuBgra_width
            &&& encoded->CpuBgra_height == frame->CpuBgra_height
            &&& encoded->CpuBgra_stride == frame->CpuBgra_stride
            &&& encoded->CpuBgra_data@ == frame->CpuBgra_data@
            &&& !(pipeline.source is Dmabuf) && !(pipeline.source is ScaledCapture)
        },
        step is CaptureSource ==> pipeline.source is Dmabuf || pipeline.source is ScaledCapture,
        pipeline.limiter.last is None && frame is CpuBgra ==> step is Encode || step
            is CaptureSource,
        pipeline.limiter.interval == 0 && frame is CpuBgra ==> step is Encode || step
            is CaptureSource,
        !(pipeline.limiter.passes(now)) ==> after == pipeline && step == well_done(),
        after.pts == pipeline.pts && after.encoder == pipeline.encoder && after.sink
            == pipeline.sink && after.source == pipeline.source,
{
}

/// The pipeline's own source is encoded as it comes.
pub proof fn law_source_frames_are_encoded(
    pipeline: ExperimentalPipeline,
    frame: VideoFrame,
    after: ExperimentalPipeline,
    step: PipelineStep,
)
    requires
        pipeline.sourced(Some(frame), after, step),
    ensures
        step == (PipelineStep::Encode { frame }),
        after == pipeline,
{
}

/// A packet arrives as it was made: the packet that a client is looked for, and that is written, is
/// the one that was handed to the sink. It is written only to a client that can decode it, and only
/// the sink changes.
pub proof fn law_packets_arrive_as_they_were_made(
    pipeline: ExperimentalPipeline,
    step: PipelineStep,
    after: ExperimentalPipeline,
    next: PipelineStep,
)
    requires
        pipeline.leads_to(step, after, next),
        step is Deliver || step is AcceptClient || step is WritePacket,
    ensures
        ({
            let packet = match step {
                PipelineStep::Deliver { packet } => packet,
                PipelineStep::AcceptClient { packet } => packet,
                PipelineStep::WritePacket { packet } => packet,
                _ => arbitrary(),
            };
            &&& next matches PipelineStep::AcceptClient { packet: p } ==> p == packet
            &&& next matches PipelineStep::WritePacket { packet: p } ==> p == packet
                && packet.data@.len() > 0
            &&& next is AcceptClient || next is WritePacket || next == well_done()
            &&& after.pts == pipeline.pts && after.encoder == pipeline.encoder
            &&& after.limiter == pipeline.limiter && after.source == pipeline.source
            &&& pipeline.sink is Null <==> after.sink is Null
            &&& next is WritePacket ==> (after.sink matches PipelineSink::Tcp { sink, address }
                && sink.client && !sink.waiting_for_keyframe)
        }),
{
    if let PipelineStep::AcceptClient { packet } = step {
        let accepted = choose|accepted: bool| #[trigger]
            pipeline.accepted_client(packet, accepted, after, next);
        assert(pipeline.accepted_client(packet, accepted, after, next));
    }
}

} // verus!
