use kmsvnc::config::{Config, EncodingMode, VideoCodecMode, VideoEncoderMode};
use kmsvnc::encode::{EncodeError, EncodedPacket, VideoCodec};
use kmsvnc::encode::software::{X264Encoder, X264Output};
use kmsvnc::encode::vaapi::ProbeAnswer;
use kmsvnc::kms::dmabuf::{DmabufFrame, DmabufObject, DmabufPlane};
use kmsvnc::pipeline_steps::{PipelineError, PipelineStep};
use kmsvnc::pipeline::{
    select_video_codec, setup_encoder, setup_pipeline, setup_pipeline_frame_source, stream_address,
    CaptureBackend, ExperimentalPipeline, FrameLimiter, PipelineEncoder, PipelineSink,
    PipelineSource,
};
use kmsvnc::transport::null::NullSink;
use kmsvnc::transport::tcp::TcpAnnexBSink;
use kmsvnc::transport::{progress_due, PacketSink};
use kmsvnc::video::{FrameError, VideoFrame};

fn packet(len: usize, keyframe: bool) -> EncodedPacket {
    EncodedPacket { codec: VideoCodec::H264, data: vec![1; len], keyframe, pts: 0 }
}

fn drm() -> CaptureBackend {
    CaptureBackend::Drm {
        device_path: "/dev/dri/card1".to_string(),
        output_name: "DP-1".to_string(),
    }
}

#[test]
fn null_sink_counts_packets_and_bytes() {
    let mut sink = NullSink::new();
    assert_eq!(sink.submit(packet(10, true)), Ok(()));
    assert_eq!(sink.submit(packet(5, false)), Ok(()));
    assert_eq!((sink.packets, sink.bytes), (2, 15));
}

#[test]
fn progress_is_due_first_and_then_every_120() {
    let due: Vec<u64> = (1..=240).filter(|n| progress_due(*n)).collect();
    assert_eq!(due, vec![1, 120, 240]);
}

#[test]
fn stream_starts_with_a_keyframe() {
    let mut sink = TcpAnnexBSink::new();
    assert!(sink.wants_client());
    assert_eq!(sink.submit(&packet(10, true)), Ok(false));
    sink.accept_client_if_needed(false);
    assert!(sink.wants_client());
    sink.accept_client_if_needed(true);
    assert!(!sink.wants_client());
    assert_eq!(sink.submit(&packet(10, false)), Ok(false));
    assert_eq!(sink.submit(&packet(0, true)), Ok(false));
    assert_eq!(sink.submit(&packet(10, true)), Ok(true));
    assert_eq!(sink.on_written(10, true), Ok(()));
    assert_eq!(sink.submit(&packet(10, false)), Ok(true));
    assert_eq!(sink.on_written(10, true), Ok(()));
    assert_eq!(sink.submit(&packet(0, false)), Ok(false));
    assert_eq!((sink.packets, sink.bytes), (2, 20));
}

#[test]
fn next_client_waits_for_a_keyframe_again() {
    let mut sink = TcpAnnexBSink::new();
    sink.accept_client_if_needed(true);
    assert_eq!(sink.submit(&packet(1, true)), Ok(true));
    assert_eq!(sink.on_written(1, false), Ok(()));
    assert!(sink.wants_client());
    assert_eq!(sink.packets, 0);
    sink.accept_client_if_needed(true);
    assert_eq!(sink.submit(&packet(1, false)), Ok(false));
    assert_eq!(sink.submit(&packet(1, true)), Ok(true));
}

#[test]
fn second_client_is_not_accepted() {
    let mut sink = TcpAnnexBSink::new();
    sink.accept_client_if_needed(true);
    assert_eq!(sink.submit(&packet(1, true)), Ok(true));
    sink.accept_client_if_needed(true);
    assert!(!sink.waiting_for_keyframe);
}

#[test]
fn default_settings() {
    let config = Config::default();
    assert_eq!((config.port, config.fps), (5900, 30));
    assert_eq!(config.listen, "0.0.0.0");
    assert_eq!(config.encoding, EncodingMode::Raw);
    assert_eq!(config.video_encoder, VideoEncoderMode::Off);
    assert_eq!(config.video_codec, VideoCodecMode::H264);
    assert_eq!(config.video_stream_listen, "0.0.0.0");
    assert_eq!(config.video_stream_port, 0);
    assert!(config.device.is_none() && config.output.is_none() && config.password.is_none());
    assert!(!config.video_capture_scale);
}

#[test]
fn codecs_of_settings() {
    assert_eq!(select_video_codec(&VideoCodecMode::H264), VideoCodec::H264);
    assert_eq!(select_video_codec(&VideoCodecMode::Hevc), VideoCodec::Hevc);
    assert_eq!(select_video_codec(&VideoCodecMode::Av1), VideoCodec::Av1);
}

#[test]
fn encoder_of_settings() {
    let mut config = Config::default();
    assert!(setup_encoder(&config).is_none());
    assert!(setup_pipeline(&config).is_none());
    config.video_encoder = VideoEncoderMode::Software;
    config.video_width = Some(1280);
    config.video_height = Some(720);
    match setup_encoder(&config) {
        Some(PipelineEncoder::Software(encoder)) => {
            assert_eq!(encoder.target_width, Some(1280));
            assert_eq!(encoder.target_height, Some(720));
        }
        other => panic!("{other:?}"),
    }
    config.video_encoder = VideoEncoderMode::Vaapi;
    config.video_codec = VideoCodecMode::Av1;
    match setup_encoder(&config) {
        Some(PipelineEncoder::Vaapi(encoder)) => assert_eq!(encoder.codec, VideoCodec::Av1),
        other => panic!("{other:?}"),
    }
}

#[test]
fn stream_port_decides_on_the_sink() {
    let mut config = Config::default();
    config.video_encoder = VideoEncoderMode::Software;
    assert!(matches!(setup_pipeline(&config).unwrap().sink, PipelineSink::Null(_)));
    assert_eq!(stream_address(&config), None);
    config.video_stream_listen = "127.0.0.1".to_string();
    config.video_stream_port = 6000;
    assert_eq!(stream_address(&config), Some(("127.0.0.1".to_string(), 6000)));
    match setup_pipeline(&config).unwrap().sink {
        PipelineSink::Tcp { address, sink } => {
            assert_eq!(address, ("127.0.0.1".to_string(), 6000));
            assert!(sink.wants_client());
        }
        other => panic!("{other:?}"),
    }
}

/// Does the work on a frame with an encoder library that puts out one byte, or fails.
fn stream_frame(pipeline: &mut ExperimentalPipeline, now: u64, works: bool) -> (bool, PipelineStep) {
    let frame = VideoFrame::new_cpu_bgra(1, 1, vec![1, 2, 3, 4]);
    let frame = match pipeline.process(&frame, false, now) {
        PipelineStep::Encode { frame } => frame,
        other => return (false, other),
    };
    assert!(pipeline.can_encode(&frame));
    match pipeline.start_encoding(&frame) {
        PipelineStep::RunSoftware { job } => assert_eq!(job.pts, pipeline.pts),
        other => panic!("{other:?}"),
    }
    let encoder = X264Encoder { width: 1, height: 1, context: 1 };
    let output = X264Output { ok: works, data: Some(vec![9]), keyframe: true };
    match pipeline.on_encoded(Some((encoder, output))) {
        PipelineStep::Deliver { packet } => (true, pipeline.deliver(packet)),
        other => (true, other),
    }
}

fn software() -> Config {
    let mut config = Config::default();
    config.video_encoder = VideoEncoderMode::Software;
    config
}

#[test]
fn stream_without_limit_keeps_the_capture_rate() {
    let mut pipeline = setup_pipeline(&software()).unwrap();
    for ms in [0u64, 33, 66, 99] {
        let (taken, step) = stream_frame(&mut pipeline, ms * 1_000_000, true);
        assert!(taken);
        assert!(matches!(step, PipelineStep::Finished { result: Ok(()) }));
    }
    let mut config = software();
    config.video_fps = Some(10);
    assert_eq!(setup_pipeline(&config).unwrap().limiter.interval, 100_000_000);
}

#[test]
fn frame_that_was_not_encoded_does_not_count() {
    let mut config = software();
    config.video_fps = Some(1);
    let mut pipeline = setup_pipeline(&config).unwrap();
    let (taken, step) = stream_frame(&mut pipeline, 5, false);
    assert!(taken);
    assert!(matches!(
        step,
        PipelineStep::Finished { result: Err(PipelineError::Encode(EncodeError::EncodeFailed)) }
    ));
    assert!(stream_frame(&mut pipeline, 6, true).0);
    assert_eq!(pipeline.limiter.last, Some(6));
    let (taken, step) = stream_frame(&mut pipeline, 7, true);
    assert!(!taken);
    assert!(matches!(step, PipelineStep::Finished { result: Ok(()) }));
    assert!(stream_frame(&mut pipeline, 1_000_000_006, true).0);
}

#[test]
fn encoder_is_given_the_clock_and_the_flag() {
    let mut pipeline = setup_pipeline(&software()).unwrap();
    pipeline.pts = 41;
    let frame = VideoFrame::new_cpu_bgra(1, 1, vec![1, 2, 3, 4]);
    for force in [true, false] {
        let copy = match pipeline.process(&frame, force, 0) {
            PipelineStep::Encode { frame } => frame,
            other => panic!("{other:?}"),
        };
        match pipeline.start_encoding(&copy) {
            PipelineStep::RunSoftware { job } => {
                assert_eq!((job.pts, job.force_keyframe), (41, force));
            }
            other => panic!("{other:?}"),
        }
    }
}

#[test]
fn packets_count_the_clock() {
    let mut pipeline = setup_pipeline(&software()).unwrap();
    pipeline.pts = u64::MAX - 1;
    let frame = VideoFrame::new_cpu_bgra(1, 1, vec![1, 2, 3, 4]);
    let encoder = X264Encoder { width: 1, height: 1, context: 1 };
    let mut clocks = Vec::new();
    for works in [true, false, true, true] {
        let copy = match pipeline.process(&frame, false, 0) {
            PipelineStep::Encode { frame } => frame,
            other => panic!("{other:?}"),
        };
        pipeline.start_encoding(&copy);
        let output = X264Output { ok: works, data: Some(vec![9, 9]), keyframe: true };
        if let PipelineStep::Deliver { packet } = pipeline.on_encoded(Some((encoder, output))) {
            clocks.push(packet.pts);
            pipeline.deliver(packet);
        }
    }
    assert_eq!(clocks, vec![u64::MAX - 1, u64::MAX, 0]);
    assert_eq!(pipeline.pts, 1);
    match pipeline.sink {
        PipelineSink::Null(sink) => assert_eq!((sink.packets, sink.bytes), (3, 6)),
        other => panic!("{other:?}"),
    }
}

#[test]
fn encoder_that_cannot_be_set_up_ends_the_work() {
    let mut pipeline = setup_pipeline(&software()).unwrap();
    assert!(matches!(
        pipeline.on_encoded(None),
        PipelineStep::Finished { result: Err(PipelineError::Encode(EncodeError::InitFailed)) }
    ));
    assert_eq!(pipeline.pts, 0);
    let mut config = software();
    config.video_codec = VideoCodecMode::Av1;
    let mut pipeline = setup_pipeline(&config).unwrap();
    let frame = VideoFrame::new_cpu_bgra(1, 1, vec![1, 2, 3, 4]);
    match pipeline.start_encoding(&frame) {
        PipelineStep::Finished { result } => assert_eq!(
            result,
            Err(PipelineError::Encode(EncodeError::UnsupportedCodec(VideoCodec::Av1)))
        ),
        other => panic!("{other:?}"),
    }
}

#[test]
fn probed_frame_is_not_encoded() {
    let mut config = Config::default();
    config.video_encoder = VideoEncoderMode::Vaapi;
    let mut pipeline = setup_pipeline(&config).unwrap();
    pipeline.source = setup_pipeline_frame_source(&config, &drm());
    pipeline.pts = 7;
    let captured = VideoFrame::new_cpu_bgra(1, 1, vec![1, 2, 3, 4]);
    assert!(matches!(pipeline.process(&captured, true, 0), PipelineStep::CaptureSource));
    let shared = VideoFrame::Dmabuf(DmabufFrame {
        width: 1,
        height: 1,
        drm_format: 0,
        src_x: 0,
        src_y: 0,
        fb_width: 1,
        fb_height: 1,
        drm_device_fd: 3,
        objects: vec![DmabufObject { fd: 4, size: None, modifier: 0 }],
        planes: vec![DmabufPlane { object_index: 0, offset: 0, pitch: 4 }],
    });
    let frame = match pipeline.on_source(Some(shared)) {
        PipelineStep::Encode { frame } => frame,
        other => panic!("{other:?}"),
    };
    match pipeline.start_encoding(&frame) {
        PipelineStep::RunProbe { probe } => assert_eq!(probe.object_fds, [4, 0, 0, 0]),
        other => panic!("{other:?}"),
    }
    let answer = ProbeAnswer { context: 3, supports_h264: true };
    match pipeline.on_probed(Some(answer)) {
        PipelineStep::Finished { result } => assert_eq!(
            result,
            Err(PipelineError::Encode(EncodeError::NotImplemented { pts: 7 }))
        ),
        other => panic!("{other:?}"),
    }
    assert_eq!((pipeline.pts, pipeline.limiter.pending), (7, None));
}

#[test]
fn failed_source_ends_the_work() {
    let mut pipeline = setup_pipeline(&software()).unwrap();
    match pipeline.on_source(None) {
        PipelineStep::Finished { result } => assert_eq!(result, Err(PipelineError::SourceFailed)),
        other => panic!("{other:?}"),
    }
}

#[test]
fn packet_is_sent_to_a_new_client() {
    let mut config = software();
    config.video_stream_port = 6000;
    let mut pipeline = setup_pipeline(&config).unwrap();
    let sent = match pipeline.deliver(packet(4, true)) {
        PipelineStep::AcceptClient { packet } => packet,
        other => panic!("{other:?}"),
    };
    assert!(matches!(
        pipeline.on_accepted(sent, false),
        PipelineStep::Finished { result: Ok(()) }
    ));
    let sent = match pipeline.deliver(packet(4, true)) {
        PipelineStep::AcceptClient { packet } => packet,
        other => panic!("{other:?}"),
    };
    let sent = match pipeline.on_accepted(sent, true) {
        PipelineStep::WritePacket { packet } => packet,
        other => panic!("{other:?}"),
    };
    assert!(matches!(
        pipeline.on_written(&sent, true),
        PipelineStep::Finished { result: Ok(()) }
    ));
    // The client stays, and is sent what follows.
    let sent = match pipeline.deliver(packet(2, false)) {
        PipelineStep::WritePacket { packet } => packet,
        other => panic!("{other:?}"),
    };
    assert!(matches!(
        pipeline.on_written(&sent, false),
        PipelineStep::Finished { result: Ok(()) }
    ));
    match pipeline.sink {
        PipelineSink::Tcp { sink, .. } => {
            assert_eq!((sink.client, sink.packets, sink.bytes), (false, 1, 4));
        }
        other => panic!("{other:?}"),
    }
}

#[test]
fn limiter_keeps_frames_apart() {
    let mut limiter = FrameLimiter::new(Some(10));
    assert!(limiter.offer(5));
    limiter.on_encoded(true);
    assert!(!limiter.offer(100_000_004));
    assert!(limiter.offer(100_000_005));
    limiter.on_encoded(true);
    assert!(!limiter.offer(100_000_006));
    assert_eq!(FrameLimiter::new(Some(0)).interval, 1_000_000_000);
    assert_eq!(FrameLimiter::new(Some(3)).interval, 333_333_334);
    assert_eq!(FrameLimiter::new(None).interval, 0);
}

#[test]
fn client_receives_the_stream_from_its_keyframe() {
    let mut sink = TcpAnnexBSink::new();
    sink.accept_client_if_needed(true);
    let mut received = Vec::new();
    for (bytes, keyframe) in [
        (vec![1], false),
        (vec![], true),
        (vec![2], true),
        (vec![], false),
        (vec![3, 4], false),
        (vec![5], true),
    ] {
        let packet = EncodedPacket { codec: VideoCodec::H264, data: bytes, keyframe, pts: 0 };
        if sink.submit(&packet).unwrap() {
            received.extend_from_slice(&packet.data);
            assert_eq!(sink.on_written(packet.data.len(), true), Ok(()));
        }
    }
    assert_eq!(received, vec![2, 3, 4, 5]);
    assert_eq!((sink.packets, sink.bytes), (3, 4));
}

#[test]
fn frame_source_follows_encoder_and_backend() {
    let mut config = Config::default();
    assert!(matches!(setup_pipeline_frame_source(&config, &drm()), PipelineSource::Captured));
    config.video_encoder = VideoEncoderMode::Software;
    assert!(matches!(setup_pipeline_frame_source(&config, &drm()), PipelineSource::Captured));
    config.video_capture_scale = true;
    assert!(matches!(
        setup_pipeline_frame_source(&config, &drm()),
        PipelineSource::ScaledCapture { .. }
    ));
    config.video_encoder = VideoEncoderMode::Vaapi;
    match setup_pipeline_frame_source(&config, &drm()) {
        PipelineSource::Dmabuf { device_path, output_name } => {
            assert_eq!(device_path, "/dev/dri/card1");
            assert_eq!(output_name, "DP-1");
        }
        other => panic!("{other:?}"),
    }
    assert!(matches!(
        setup_pipeline_frame_source(&config, &CaptureBackend::Fbdev),
        PipelineSource::CapturedForWantOfDrm
    ));
}

#[test]
fn pipeline_copies_captured_frames_unless_it_has_a_source() {
    let mut pipeline = setup_pipeline(&software()).unwrap();
    let frame = VideoFrame::new_cpu_bgra(1, 1, vec![1, 2, 3, 4]);
    match pipeline.process(&frame, false, 0) {
        PipelineStep::Encode { frame } => assert_eq!(frame.as_bgra().unwrap().3, &[1, 2, 3, 4]),
        other => panic!("{other:?}"),
    }
    pipeline.source = PipelineSource::Dmabuf {
        device_path: String::new(),
        output_name: String::new(),
    };
    assert!(matches!(pipeline.process(&frame, false, 1), PipelineStep::CaptureSource));
}

#[test]
fn pipeline_does_not_copy_shared_frames() {
    let mut pipeline = setup_pipeline(&software()).unwrap();
    let frame = VideoFrame::Dmabuf(DmabufFrame {
        width: 1,
        height: 1,
        drm_format: 0,
        src_x: 0,
        src_y: 0,
        fb_width: 1,
        fb_height: 1,
        drm_device_fd: 3,
        objects: Vec::new(),
        planes: Vec::new(),
    });
    match pipeline.process(&frame, false, 0) {
        PipelineStep::Finished { result } => {
            assert_eq!(result, Err(PipelineError::Frame(FrameError::CannotClone)));
        }
        other => panic!("{other:?}"),
    }
    assert_eq!(pipeline.limiter.pending, None);
}

#[test]
fn stream_keeps_to_its_rate() {
    let mut limiter = FrameLimiter::new(Some(24));
    let mut through = Vec::new();
    for ms in 0..3000u64 {
        let now = ms * 1_000_000;
        if limiter.offer(now) {
            // Every seventh frame cannot be encoded.
            let encoded = ms % 7 != 0;
            limiter.on_encoded(encoded);
            if encoded {
                through.push(now);
            }
        }
    }
    assert!(through.len() > 24);
    for window in through.windows(25) {
        assert!(window[24] - window[0] >= 1_000_000_000);
    }
}
