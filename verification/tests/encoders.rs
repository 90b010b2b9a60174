use kmsvnc::encode::scale::can_scale;
use kmsvnc::encode::software::{EncoderChoice, SoftwareEncoder, X264Encoder, X264Output};
use kmsvnc::encode::vaapi::{ProbeAnswer, VaapiEncoder, VaapiProbe};
use kmsvnc::encode::{EncodeError, VideoCodec, VideoEncoder};
use kmsvnc::kms::cpu_capture::{ActiveOutput, PlanarFramebuffer};
use kmsvnc::kms::dmabuf::{DmabufCapturer, DmabufFrame, DmabufObject, DmabufPlane};
use kmsvnc::video::{FrameError, VideoFrame};

fn shared(objects: usize, planes: usize) -> DmabufFrame {
    DmabufFrame {
        width: 8,
        height: 4,
        drm_format: 77,
        src_x: 0,
        src_y: 0,
        fb_width: 8,
        fb_height: 4,
        drm_device_fd: 3,
        objects: (0..objects)
            .map(|i| DmabufObject {
                fd: 10 + i as i32,
                size: if i == 0 { Some(4096) } else { None },
                modifier: 5 + i as u64,
            })
            .collect(),
        planes: (0..planes)
            .map(|i| DmabufPlane { object_index: i / 2, offset: i as u32, pitch: 32 })
            .collect(),
    }
}

fn context(width: u32, height: u32) -> X264Encoder {
    X264Encoder { width, height, context: 9 }
}

#[test]
fn scaling_down_takes_every_second_pixel() {
    let mut encoder = SoftwareEncoder::new(VideoCodec::H264, None, None);
    let src: Vec<u8> = (0..64).collect();
    let shape = encoder.prepare_bgra(&src, 4, 4, 16, 2, 2);
    assert_eq!(shape, (2, 2, 8));
    assert_eq!(
        encoder.scaled_bgra,
        vec![0, 1, 2, 3, 8, 9, 10, 11, 32, 33, 34, 35, 40, 41, 42, 43]
    );
}

#[test]
fn scaling_up_repeats_pixels_and_skips_row_padding() {
    let mut encoder = SoftwareEncoder::new(VideoCodec::H264, None, None);
    let src = [1, 1, 1, 1, 9, 9, 2, 2, 2, 2, 9, 9];
    assert_eq!(encoder.prepare_bgra(&src, 1, 2, 6, 2, 3), (2, 3, 8));
    let row = |v: u8| vec![v; 8];
    assert_eq!(encoder.scaled_bgra, [row(1), row(1), row(2)].concat());
}

#[test]
fn frame_of_target_size_is_left_alone() {
    let mut encoder = SoftwareEncoder::new(VideoCodec::H264, None, None);
    assert_eq!(encoder.prepare_bgra(&[], 4, 4, 99, 4, 4), (4, 4, 99));
    assert!(encoder.scaled_bgra.is_empty());
}

#[test]
fn scalability_is_checked() {
    assert!(can_scale(64, 4, 4, 16, 2, 2));
    // The last pixel needed is at (2, 2).
    assert!(can_scale(44, 4, 4, 16, 2, 2));
    assert!(!can_scale(43, 4, 4, 16, 2, 2));
    assert!(!can_scale(64, 4, 4, 16, 65536, 65536));
    assert!(!can_scale(64, 4, 4, 16, u32::MAX, 1));
    assert!(can_scale(0, 4, 4, 16, 2, 0));
    assert!(!can_scale(0, 0, 0, 0, 2, 2));
}

#[test]
fn software_encoder_job_and_packet() {
    let mut encoder = SoftwareEncoder::new(VideoCodec::H264, Some(1), Some(1));
    assert_eq!(encoder.codec(), VideoCodec::H264);
    let frame = VideoFrame::new_cpu_bgra(2, 1, vec![1, 2, 3, 4, 5, 6, 7, 8]);
    assert!(encoder.can_encode(&frame));
    assert!(!encoder.can_encode(&VideoFrame::new_cpu_bgra(2, 1, vec![1, 2, 3])));
    assert!(encoder.can_encode(&VideoFrame::Dmabuf(shared(1, 1))));
    let job = encoder.encode(&frame, true, 40).unwrap();
    assert_eq!(job.encoder, EncoderChoice::Create { width: 1, height: 1, stale: None });
    assert_eq!((job.width, job.height, job.stride, job.scaled), (1, 1, 4, true));
    assert_eq!((job.force_keyframe, job.pts), (true, 40));
    assert_eq!(encoder.scaled_bgra, vec![1, 2, 3, 4]);
    let output = X264Output { ok: true, data: Some(vec![7, 7]), keyframe: true };
    let packet = encoder.on_encoded(Some((context(1, 1), output)), 40).unwrap();
    assert_eq!((packet.codec, packet.keyframe, packet.pts), (VideoCodec::H264, true, 40));
    assert_eq!(packet.data, vec![7, 7]);
    assert_eq!(encoder.frames_encoded, 1);
    // The same size again: the encoder is used again.
    let job = encoder.encode(&frame, false, 41).unwrap();
    assert_eq!(job.encoder, EncoderChoice::Reuse(context(1, 1)));
}

#[test]
fn frame_without_target_size_is_encoded_as_it_is() {
    let mut encoder = SoftwareEncoder::new(VideoCodec::H264, None, None);
    let frame = VideoFrame::CpuBgra { width: 1, height: 1, stride: 12, data: vec![0; 12] };
    let job = encoder.encode(&frame, false, 0).unwrap();
    assert_eq!((job.width, job.height, job.stride, job.scaled), (1, 1, 12, false));
}

#[test]
fn encoder_of_another_size_is_replaced() {
    let mut encoder = SoftwareEncoder::new(VideoCodec::H264, None, None);
    encoder.inner = Some(context(4, 4));
    assert_eq!(
        encoder.take_or_create_encoder(4, 2),
        EncoderChoice::Create { width: 4, height: 2, stale: Some(context(4, 4)) }
    );
    assert_eq!(encoder.inner, None);
}

#[test]
fn packet_without_bytes_is_no_keyframe() {
    let mut encoder = SoftwareEncoder::new(VideoCodec::H264, None, None);
    for data in [None, Some(Vec::new())] {
        let output = X264Output { ok: true, data, keyframe: true };
        let packet = encoder.on_encoded(Some((context(1, 1), output)), 0).unwrap();
        assert!(packet.data.is_empty());
        assert!(!packet.keyframe);
    }
}

#[test]
fn failed_encoding_drops_the_encoder() {
    let mut encoder = SoftwareEncoder::new(VideoCodec::H264, None, None);
    let output = X264Output { ok: false, data: Some(vec![1]), keyframe: true };
    let result = encoder.on_encoded(Some((context(1, 1), output)), 0);
    assert!(matches!(result, Err(EncodeError::EncodeFailed)));
    assert!(matches!(encoder.on_encoded(None, 0), Err(EncodeError::InitFailed)));
    assert_eq!(encoder.inner, None);
    assert_eq!(encoder.frames_encoded, 0);
}

#[test]
fn encoders_refuse_other_codecs_and_frames() {
    let memory = VideoFrame::new_cpu_bgra(1, 1, vec![0; 4]);
    let buffers = VideoFrame::Dmabuf(shared(1, 1));
    let mut software = SoftwareEncoder::new(VideoCodec::Av1, None, None);
    assert_eq!(
        software.encode(&memory, false, 0).unwrap_err(),
        EncodeError::UnsupportedCodec(VideoCodec::Av1)
    );
    let mut software = SoftwareEncoder::new(VideoCodec::H264, None, None);
    assert_eq!(
        software.encode(&buffers, false, 0).unwrap_err(),
        EncodeError::Frame(FrameError::NotCpuBgra)
    );
    let mut vaapi = VaapiEncoder::new(VideoCodec::Hevc);
    assert_eq!(vaapi.codec(), VideoCodec::Hevc);
    assert_eq!(
        vaapi.encode(&buffers, false, 0).unwrap_err(),
        EncodeError::UnsupportedCodec(VideoCodec::Hevc)
    );
    let mut vaapi = VaapiEncoder::new(VideoCodec::H264);
    assert_eq!(
        vaapi.encode(&memory, false, 0).unwrap_err(),
        EncodeError::Frame(FrameError::NotDmabuf)
    );
}

#[test]
fn probe_lists_buffers_and_planes() {
    let probe = VaapiProbe::new(&shared(2, 3)).unwrap();
    assert_eq!(probe.object_fds, [10, 11, 0, 0]);
    assert_eq!(probe.object_sizes, [4096, 0, 0, 0]);
    assert_eq!(probe.num_objects, 2);
    assert_eq!(probe.object_indices, [0, 0, 1, 0]);
    assert_eq!(probe.offsets, [0, 1, 2, 0]);
    assert_eq!(probe.pitches, [32, 32, 32, 0]);
    assert_eq!(probe.num_planes, 3);
    assert_eq!(probe.modifier, 5);
    assert_eq!((probe.width, probe.height, probe.drm_format, probe.drm_device_fd), (8, 4, 77, 3));
}

#[test]
fn probe_refuses_bad_counts() {
    assert_eq!(VaapiProbe::new(&shared(0, 1)).unwrap_err(), EncodeError::ObjectCount(0));
    assert_eq!(VaapiProbe::new(&shared(5, 1)).unwrap_err(), EncodeError::ObjectCount(5));
    assert_eq!(VaapiProbe::new(&shared(1, 0)).unwrap_err(), EncodeError::PlaneCount(0));
    assert_eq!(VaapiProbe::new(&shared(1, 5)).unwrap_err(), EncodeError::PlaneCount(5));
}

#[test]
fn driver_is_probed_until_it_can_encode() {
    let frame = VideoFrame::Dmabuf(shared(1, 1));
    let mut encoder = VaapiEncoder::new(VideoCodec::H264);
    assert!(encoder.encode(&frame, false, 1).is_ok());
    assert_eq!(encoder.ensure_probe(None, 1), EncodeError::ProbeFailed);
    let unable = ProbeAnswer { context: 4, supports_h264: false };
    assert_eq!(encoder.ensure_probe(Some(unable), 1), EncodeError::NoH264Entrypoint);
    assert_eq!(encoder.probe, None);
    let able = ProbeAnswer { context: 5, supports_h264: true };
    assert_eq!(encoder.ensure_probe(Some(able), 2), EncodeError::NotImplemented { pts: 2 });
    assert_eq!(encoder.probe, Some(5));
    assert_eq!(
        encoder.encode(&frame, false, 3).unwrap_err(),
        EncodeError::NotImplemented { pts: 3 }
    );
}

#[test]
fn packed_frames_scale_to_any_size() {
    for (w, h) in [(1u32, 1u32), (3, 2), (16, 9)] {
        for (dw, dh) in [(1u32, 1u32), (5, 7), (64, 1)] {
            assert!(can_scale((w * h * 4) as usize, w, h, w * 4, dw, dh));
        }
    }
}

#[test]
fn captured_frames_can_be_probed() {
    let output = ActiveOutput {
        connector_name: "DP-1".to_string(),
        crtc_handle: 1,
        x: 0,
        y: 0,
        width: 8,
        height: 8,
        fb_handle: 2,
    };
    let info = PlanarFramebuffer {
        width: 8,
        height: 8,
        fourcc: 842094158,
        modifier: None,
        buffers: [Some(4), Some(5), Some(4), Some(6)],
        pitches: [8; 4],
        offsets: [0; 4],
    };
    let plan = DmabufCapturer::plan(&info).unwrap();
    let frame = DmabufCapturer::new(&output).capture(&info, plan, &vec![7, 8, 9], 3);
    let probe = VaapiProbe::new(&frame).unwrap();
    assert_eq!((probe.num_objects, probe.num_planes), (3, 4));
    assert_eq!(probe.object_indices, [0, 1, 0, 2]);
    assert_eq!(probe.modifier, 0);
}
