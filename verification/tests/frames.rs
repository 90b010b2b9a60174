use kmsvnc::kms::cpu_capture::{ActiveOutput, PlanarFramebuffer};
use kmsvnc::kms::dmabuf::{DmabufCapturer, DmabufError, DmabufFrame, DmabufObject, DmabufPlane};
use kmsvnc::video::{clone_video_frame, FrameError, VideoFrame};

fn dmabuf() -> DmabufFrame {
    DmabufFrame {
        width: 4,
        height: 2,
        drm_format: 1,
        src_x: 0,
        src_y: 0,
        fb_width: 4,
        fb_height: 2,
        drm_device_fd: 3,
        objects: Vec::new(),
        planes: Vec::new(),
    }
}

#[test]
fn planes_in_one_buffer_share_its_export() {
    let output = ActiveOutput {
        connector_name: "DP-1".to_string(),
        crtc_handle: 1,
        x: 10,
        y: 20,
        width: 640,
        height: 480,
        fb_handle: 2,
    };
    let capturer = DmabufCapturer::new(&output);
    assert_eq!(capturer.framebuffer(None), 2);
    assert_eq!(capturer.framebuffer(Some(7)), 7);
    let info = PlanarFramebuffer {
        width: 1280,
        height: 960,
        fourcc: 842094158,
        modifier: Some(0x0100_0000_0000_0002),
        buffers: [Some(50), Some(50), None, Some(60)],
        pitches: [100, 101, 102, 103],
        offsets: [0, 1, 2, 3],
    };
    let plan = DmabufCapturer::plan(&info).unwrap();
    assert_eq!(plan.handles, vec![50, 60]);
    assert_eq!(plan.first_planes, vec![0, 3]);
    let frame = capturer.capture(&info, plan, &vec![11, 12], 13);
    let object = |fd| DmabufObject { fd, size: None, modifier: 0x0100_0000_0000_0002 };
    assert_eq!(frame.objects, vec![object(11), object(12)]);
    let plane = |object_index, offset, pitch| DmabufPlane { object_index, offset, pitch };
    assert_eq!(frame.planes, vec![plane(0, 0, 100), plane(0, 1, 101), plane(1, 3, 103)]);
    assert_eq!((frame.width, frame.height), (640, 480));
    assert_eq!((frame.src_x, frame.src_y), (10, 20));
    assert_eq!((frame.fb_width, frame.fb_height), (1280, 960));
    assert_eq!((frame.drm_format, frame.drm_device_fd), (842094158, 13));
}

#[test]
fn framebuffer_without_first_buffer_is_refused() {
    let info = PlanarFramebuffer {
        width: 1,
        height: 1,
        fourcc: 0,
        modifier: None,
        buffers: [None, Some(1), None, None],
        pitches: [0; 4],
        offsets: [0; 4],
    };
    assert!(matches!(DmabufCapturer::plan(&info), Err(DmabufError::NoGemBuffer)));
}

#[test]
fn packed_frame_validates() {
    let frame = VideoFrame::new_cpu_bgra(3, 2, vec![0; 24]);
    assert_eq!(frame.validate_cpu_bgra(3, 2), Ok(()));
    let (w, h, stride, data) = frame.as_bgra().unwrap();
    assert_eq!((w, h, stride, data.len()), (3, 2, 12, 24));
    assert!(matches!(frame.as_dmabuf(), Err(FrameError::NotDmabuf)));
}

#[test]
fn validation_reports_what_is_wrong() {
    let frame = VideoFrame::new_cpu_bgra(3, 2, vec![0; 23]);
    assert_eq!(
        frame.validate_cpu_bgra(3, 2),
        Err(FrameError::UnexpectedLength { len: 23, expected: 24 })
    );
    assert_eq!(
        frame.validate_cpu_bgra(2, 2),
        Err(FrameError::UnexpectedSize {
            width: 3,
            height: 2,
            expected_width: 2,
            expected_height: 2
        })
    );
    let frame = VideoFrame::CpuBgra { width: 3, height: 2, stride: 16, data: vec![0; 32] };
    assert_eq!(
        frame.validate_cpu_bgra(3, 2),
        Err(FrameError::UnexpectedStride { stride: 16, expected: 12 })
    );
    let frame = VideoFrame::Dmabuf(dmabuf());
    assert_eq!(frame.validate_cpu_bgra(4, 2), Err(FrameError::NotCpuBgra));
    assert!(frame.as_dmabuf().is_ok());
}

#[test]
fn writable_bytes_are_kept_and_resized_frame_is_packed() {
    let mut frame = VideoFrame::new_cpu_bgra(1, 1, vec![1, 2, 3, 4]);
    let bytes = frame.cpu_bgra_mut(1, 2);
    assert_eq!(*bytes, vec![1, 2, 3, 4]);
    bytes.extend_from_slice(&[5, 6, 7, 8]);
    assert_eq!(frame.validate_cpu_bgra(1, 2), Ok(()));
}

#[test]
fn shared_frame_becomes_an_empty_one_in_memory() {
    let mut frame = VideoFrame::Dmabuf(dmabuf());
    let bytes = frame.cpu_bgra_mut(2, 1);
    assert!(bytes.is_empty());
    bytes.resize(8, 0);
    assert_eq!(frame.validate_cpu_bgra(2, 1), Ok(()));
}

#[test]
fn only_frames_in_memory_are_cloned() {
    let frame = VideoFrame::new_cpu_bgra(1, 1, vec![1, 2, 3, 4]);
    let copy = clone_video_frame(&frame).unwrap();
    assert_eq!(copy.as_bgra().unwrap().3, &[1, 2, 3, 4]);
    assert!(matches!(
        clone_video_frame(&VideoFrame::Dmabuf(dmabuf())),
        Err(FrameError::CannotClone)
    ));
}
