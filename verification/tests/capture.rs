use drm_fourcc::DrmFourcc;
use kmsvnc::frame_diff::{DirtyRect, DirtyTiles};
use kmsvnc::kms::cpu_capture::{
    ActiveOutput, CachedBuffer, CaptureError, CaptureStep, Capturer, MapRequest, PlainFramebuffer,
    PlanarFramebuffer,
};
use kmsvnc::kms::fourcc::{is_linear, modifier_for_driver, PixelFormat};
use kmsvnc::kms::pixel_format::{
    convert_to_bgra_into, copy_bgra_rows_incremental, copy_rows_incremental, is_direct_copy,
    replace_frame, ConvertError,
};

const XR24: u32 = 875713112;

fn output(width: u32, height: u32) -> ActiveOutput {
    ActiveOutput {
        connector_name: "DP-1".to_string(),
        crtc_handle: 41,
        x: 5,
        y: 6,
        width,
        height,
        fb_handle: 70,
    }
}

fn planar(modifier: Option<u64>, gem: Option<u32>) -> PlanarFramebuffer {
    PlanarFramebuffer {
        width: 2,
        height: 2,
        fourcc: XR24,
        modifier,
        buffers: [gem, Some(9), None, Some(11)],
        pitches: [12, 1, 2, 3],
        offsets: [0, 7, 8, 9],
    }
}

fn request(gem: u32) -> MapRequest {
    MapRequest { fb_key: 71, gem_handle: gem, size: 24, format: PixelFormat::Xrgb8888, pitch: 12 }
}

fn entry(gem: u32, mapping: u64) -> CachedBuffer {
    CachedBuffer {
        fb_key: 71,
        gem_handle: gem,
        size: 24,
        format: PixelFormat::Xrgb8888,
        pitch: 12,
        mapping,
    }
}

#[test]
fn fourcc_codes_give_their_formats() {
    assert_eq!(PixelFormat::from_fourcc(875713112), PixelFormat::Xrgb8888);
    assert_eq!(PixelFormat::from_fourcc(875713089), PixelFormat::Argb8888);
    assert_eq!(PixelFormat::from_fourcc(875709016), PixelFormat::Xbgr8888);
    assert_eq!(PixelFormat::from_fourcc(875708993), PixelFormat::Abgr8888);
    assert_eq!(PixelFormat::from_fourcc(909199186), PixelFormat::Rgb565);
    // A format that the kernel knows, and a number that is no format.
    assert_eq!(PixelFormat::from_fourcc(875710274), PixelFormat::Other(875710274));
    assert_eq!(PixelFormat::from_fourcc(0), PixelFormat::Other(0));
}

#[test]
fn fourcc_codes_agree_with_the_crate() {
    for (format, expected) in [
        (DrmFourcc::Xrgb8888, PixelFormat::Xrgb8888),
        (DrmFourcc::Argb8888, PixelFormat::Argb8888),
        (DrmFourcc::Xbgr8888, PixelFormat::Xbgr8888),
        (DrmFourcc::Abgr8888, PixelFormat::Abgr8888),
        (DrmFourcc::Rgb565, PixelFormat::Rgb565),
        (DrmFourcc::Nv12, PixelFormat::Other(DrmFourcc::Nv12 as u32)),
    ] {
        assert_eq!(PixelFormat::from_fourcc(format as u32), expected);
    }
}

#[test]
fn depths_give_their_formats() {
    assert_eq!(PixelFormat::from_depth(32, 24), Some(PixelFormat::Xrgb8888));
    assert_eq!(PixelFormat::from_depth(32, 32), Some(PixelFormat::Argb8888));
    assert_eq!(PixelFormat::from_depth(16, 16), Some(PixelFormat::Rgb565));
    assert_eq!(PixelFormat::from_depth(24, 24), None);
}

#[test]
fn only_linear_or_unknown_modifiers_are_readable() {
    assert!(is_linear(None));
    assert!(is_linear(Some(0)));
    assert!(!is_linear(Some(0x0100_0000_0000_0001)));
    assert!(!is_linear(Some(u64::from(drm_fourcc::DrmModifier::Invalid))));
}

#[test]
fn invalid_modifier_is_handed_on_as_zero() {
    assert_eq!(modifier_for_driver(None), 0);
    assert_eq!(modifier_for_driver(Some(u64::from(drm_fourcc::DrmModifier::Invalid))), 0);
    assert_eq!(modifier_for_driver(Some(0)), 0);
    let tiled = u64::from(drm_fourcc::DrmModifier::I915_y_tiled);
    assert_eq!(modifier_for_driver(Some(tiled)), tiled);
}

#[test]
fn direct_copy_formats() {
    assert!(is_direct_copy(PixelFormat::Xrgb8888));
    assert!(is_direct_copy(PixelFormat::Argb8888));
    assert!(!is_direct_copy(PixelFormat::Xbgr8888));
    assert!(!is_direct_copy(PixelFormat::Abgr8888));
    assert!(!is_direct_copy(PixelFormat::Rgb565));
}

#[test]
fn convert_strips_row_padding() {
    let raw = [1, 2, 3, 4, 99, 99, 5, 6, 7, 8, 99, 99];
    let mut dst = vec![42; 3];
    assert_eq!(convert_to_bgra_into(&mut dst, &raw, 1, 2, 6, PixelFormat::Xrgb8888), Ok(()));
    assert_eq!(dst, vec![1, 2, 3, 4, 5, 6, 7, 8]);
}

#[test]
fn convert_swaps_red_and_blue() {
    let mut dst = Vec::new();
    assert_eq!(
        convert_to_bgra_into(&mut dst, &[1, 2, 3, 4], 1, 1, 4, PixelFormat::Abgr8888),
        Ok(())
    );
    assert_eq!(dst, vec![3, 2, 1, 4]);
}

#[test]
fn convert_widens_rgb565() {
    let mut dst = Vec::new();
    // White, then pure red, then pure green.
    let raw = [0xff, 0xff, 0x00, 0xf8, 0xe0, 0x07];
    assert_eq!(convert_to_bgra_into(&mut dst, &raw, 3, 1, 6, PixelFormat::Rgb565), Ok(()));
    assert_eq!(dst, vec![255, 255, 255, 255, 0, 0, 255, 255, 0, 255, 0, 255]);
}

#[test]
fn convert_rejects_other_formats_and_short_buffers() {
    let mut dst = vec![7];
    assert_eq!(
        convert_to_bgra_into(&mut dst, &[0; 16], 1, 1, 4, PixelFormat::Other(5)),
        Err(ConvertError::Unsupported(5))
    );
    assert_eq!(
        convert_to_bgra_into(&mut dst, &[0; 7], 2, 1, 8, PixelFormat::Xrgb8888),
        Err(ConvertError::Truncated)
    );
    assert_eq!(dst, vec![7]);
}

#[test]
fn incremental_copy_marks_only_changed_tiles() {
    let (w, h) = (130u32, 66u32);
    let mut dst = vec![0u8; (w * h * 4) as usize];
    let pitch = w * 4 + 8;
    let mut raw = vec![0u8; (pitch * h) as usize];
    let mut tiles = DirtyTiles::new(w, h);
    assert!(!copy_rows_incremental(&mut dst, &raw, w, h, pitch, &mut tiles));
    assert!(tiles.drain_to_rects().is_empty());
    // Pixel (129, 65) lies in the last tile.
    raw[(65 * pitch + 129 * 4 + 2) as usize] = 200;
    assert!(copy_rows_incremental(&mut dst, &raw, w, h, pitch, &mut tiles));
    assert_eq!(dst[((65 * w + 129) * 4 + 2) as usize], 200);
    assert_eq!(
        tiles.drain_to_rects(),
        vec![DirtyRect { x: 128, y: 64, width: 2, height: 2 }]
    );
    assert!(!copy_rows_incremental(&mut dst, &raw, w, h, pitch, &mut tiles));
}

#[test]
fn incremental_copy_of_packed_frames() {
    let mut dst = vec![0u8; 64 * 64 * 4 * 2];
    let mut src = dst.clone();
    src[4] = 1;
    let mut tiles = DirtyTiles::new(128, 64);
    assert!(copy_bgra_rows_incremental(&mut dst, &src, 128, 64, &mut tiles));
    assert_eq!(dst, src);
    assert_eq!(tiles.drain_to_rects(), vec![DirtyRect { x: 0, y: 0, width: 64, height: 64 }]);
}

#[test]
fn redrawing_the_drained_rects_gives_the_frame() {
    let (w, h) = (150u32, 90u32);
    let capturer = Capturer::new(&output(w, h));
    let mut tiles = DirtyTiles::new(w, h);
    let mut dst: Vec<u8> = (0..w * h * 4).map(|i| (i % 251) as u8).collect();
    let mut viewer = dst.clone();
    let mut raw = dst.clone();
    for i in [3usize, 777, 20_000, 53_999] {
        raw[i] = raw[i].wrapping_add(1);
    }
    let changed = capturer.convert_or_incremental(
        &mut dst,
        &raw,
        PixelFormat::Argb8888,
        w * 4,
        Some(&mut tiles),
    );
    assert_eq!(changed, Ok(true));
    assert_eq!(dst, raw);
    for r in tiles.drain_to_rects() {
        for y in r.y as u32..r.y as u32 + r.height as u32 {
            let a = ((y * w + r.x as u32) * 4) as usize;
            let b = a + r.width as usize * 4;
            viewer[a..b].copy_from_slice(&dst[a..b]);
        }
    }
    assert_eq!(viewer, dst);
}

#[test]
fn unchanged_frame_is_reported_unchanged() {
    let capturer = Capturer::new(&output(2, 1));
    let mut tiles = DirtyTiles::new(2, 1);
    let mut dst = vec![1, 2, 3, 4, 5, 6, 7, 8];
    let raw = dst.clone();
    let r = capturer.convert_or_incremental(&mut dst, &raw, PixelFormat::Xrgb8888, 8, Some(&mut tiles));
    assert_eq!(r, Ok(false));
    assert!(tiles.drain_to_rects().is_empty());
}

#[test]
fn cold_or_indirect_destination_is_converted_whole() {
    let capturer = Capturer::new(&output(1, 1));
    let mut tiles = DirtyTiles::new(1, 1);
    let mut dst = Vec::new();
    let raw = [1, 2, 3, 4];
    let r = capturer.convert_or_incremental(&mut dst, &raw, PixelFormat::Xrgb8888, 4, Some(&mut tiles));
    assert_eq!(r, Ok(true));
    assert_eq!(tiles.drain_to_rects().len(), 1);
    // Warm, but not a format that is copied directly.
    let mut dst = vec![3, 2, 1, 4];
    let r = capturer.convert_or_incremental(&mut dst, &raw, PixelFormat::Xbgr8888, 4, Some(&mut tiles));
    assert_eq!(r, Ok(true));
    assert_eq!(tiles.drain_to_rects().len(), 1);
    // Warm and direct, but nobody keeps tiles.
    let mut dst = raw.to_vec();
    let r = capturer.convert_or_incremental(&mut dst, &raw, PixelFormat::Xrgb8888, 4, None);
    assert_eq!(r, Ok(true));
}

#[test]
fn convert_full_marks_every_tile() {
    let capturer = Capturer::new(&output(1, 1));
    let mut tiles = DirtyTiles::new(1, 1);
    let mut dst = vec![1, 2, 3, 4];
    let raw = [1, 2, 3, 4];
    let r = capturer.convert_full(&mut dst, &raw, PixelFormat::Xrgb8888, 4, Some(&mut tiles));
    assert_eq!(r, Ok(true));
    assert_eq!(tiles.drain_to_rects().len(), 1);
    let r = capturer.convert_full(&mut dst, &raw[..3], PixelFormat::Xrgb8888, 4, Some(&mut tiles));
    assert_eq!(r, Err(ConvertError::Truncated));
    assert!(tiles.drain_to_rects().is_empty());
}

#[test]
fn same_framebuffer_is_skipped_unless_forced() {
    let mut capturer = Capturer::new(&output(2, 2));
    assert_eq!(capturer.capture_into(Some(71), false), CaptureStep::AskGemFb2 { fb: 71 });
    assert_eq!(capturer.capture_into(Some(71), false), CaptureStep::Finished { captured: false });
    assert_eq!(capturer.capture_into(Some(71), true), CaptureStep::AskGemFb2 { fb: 71 });
    assert_eq!(capturer.capture_into(None, false), CaptureStep::AskGemFb2 { fb: 70 });
}

#[test]
fn capture_gives_the_frame_if_there_is_one() {
    assert_eq!(Capturer::capture(true, vec![1]), Some(vec![1]));
    assert_eq!(Capturer::capture(false, vec![1]), None);
}

#[test]
fn first_capture_maps_by_export_and_is_cached() {
    let mut capturer = Capturer::new(&output(2, 2));
    assert_eq!(capturer.capture_into(Some(71), true), CaptureStep::AskGemFb2 { fb: 71 });
    assert_eq!(capturer.on_gem_fb2(71, Some(8)), CaptureStep::AskFb2 { fb: 71 });
    let info = planar(Some(0), Some(8));
    let step = capturer.on_fb2(71, Some(info));
    assert_eq!(step, CaptureStep::MapPrime { request: request(8), planar: Some(info) });
    let step = capturer.on_prime(request(8), Some(info), Some(900));
    assert_eq!(step, CaptureStep::ReadNew { entry: entry(8, 900) });
    assert_eq!((capturer.use_fb2, capturer.use_prime), (Some(true), Some(true)));
    let raw: Vec<u8> = (0..24).collect();
    let mut dst = Vec::new();
    let (step, evicted) = capturer.on_new_mapping(entry(8, 900), &raw, &mut dst, None);
    assert_eq!(step, CaptureStep::Finished { captured: true });
    assert_eq!(evicted, None);
    assert_eq!(dst, vec![0, 1, 2, 3, 4, 5, 6, 7, 12, 13, 14, 15, 16, 17, 18, 19]);
    // The next capture of the same buffer, under another framebuffer, finds the mapping.
    assert_eq!(capturer.capture_into(Some(72), false), CaptureStep::AskGemFb2 { fb: 72 });
    assert_eq!(capturer.on_gem_fb2(72, Some(8)), CaptureStep::ReadMapped { index: 0 });
    assert_eq!(capturer.cache[0].fb_key, 72);
    let mut tiles = DirtyTiles::new(2, 2);
    let step = capturer.on_mapped(0, &raw, &mut dst, Some(&mut tiles));
    assert_eq!(step, CaptureStep::Finished { captured: false });
}

#[test]
fn new_mapping_of_a_known_frame_is_copied_incrementally() {
    let mut capturer = Capturer::new(&output(1, 1));
    let mut tiles = DirtyTiles::new(1, 1);
    let mut dst = vec![1, 2, 3, 4];
    let e = CachedBuffer { pitch: 4, size: 4, ..entry(8, 900) };
    let (step, _) = capturer.on_new_mapping(e, &[1, 2, 3, 4], &mut dst, Some(&mut tiles));
    assert_eq!(step, CaptureStep::Finished { captured: false });
    assert!(tiles.drain_to_rects().is_empty());
}

#[test]
fn export_failure_falls_back_to_reopening_once() {
    let mut capturer = Capturer::new(&output(2, 2));
    let info = planar(None, Some(8));
    let step = capturer.on_prime(request(8), Some(info), None);
    assert_eq!(step, CaptureStep::MapDumb { request: request(8), planar: Some(info) });
    let step = capturer.on_dumb(request(8), Some(info), Some((901, 55)));
    assert_eq!(step, CaptureStep::ReadNew { entry: entry(55, 901) });
    assert_eq!(capturer.use_prime, Some(false));
    let step = capturer.on_fb2(71, Some(info));
    assert_eq!(step, CaptureStep::MapDumb { request: request(8), planar: Some(info) });
}

#[test]
fn export_failure_is_final_once_export_has_worked() {
    let mut capturer = Capturer::new_with_options(&output(2, 2), false);
    let info = planar(None, Some(8));
    capturer.on_prime(request(8), Some(info), Some(900));
    let step = capturer.on_prime(request(8), Some(info), None);
    assert_eq!(step, CaptureStep::Failed { error: CaptureError::PrimeMap });
}

#[test]
fn unmappable_buffer_goes_to_the_video_driver() {
    let mut capturer = Capturer::new(&output(2, 2));
    let info = planar(Some(0), Some(8));
    let step = capturer.on_dumb(request(8), Some(info), None);
    let driver = match step {
        CaptureStep::OpenVaapi { fb: 71, driver } => driver,
        other => panic!("{other:?}"),
    };
    assert_eq!(driver.gem_handle, 8);
    assert_eq!((driver.src_x, driver.src_y, driver.width, driver.height), (5, 6, 2, 2));
    assert_eq!((driver.fb_width, driver.fb_height, driver.fourcc), (2, 2, XR24));
    assert_eq!(driver.modifier, 0);
    assert_eq!(driver.num_planes, 2);
    let (step, evicted) = capturer.on_vaapi_opened(71, driver, Some(500));
    assert_eq!(step, CaptureStep::ReadVaapi { index: 0, fresh: Some(71) });
    assert_eq!(evicted, None);
    let mut scratch = capturer.take_scratch(0);
    assert_eq!(scratch, vec![0; 16]);
    scratch[3] = 9;
    let mut dst = Vec::new();
    let mut tiles = DirtyTiles::new(2, 2);
    let step = capturer.on_vaapi_frame(0, Some(71), scratch.clone(), true, &mut dst, Some(&mut tiles));
    assert_eq!(step, CaptureStep::Finished { captured: true });
    assert_eq!(dst, scratch);
    assert_eq!(tiles.drain_to_rects().len(), 1);
    assert_eq!(capturer.use_fb2, Some(true));
    // The next time, the driver reads it back without being asked to open it.
    capturer.capture_into(Some(71), true);
    assert_eq!(capturer.on_gem_fb2(71, Some(8)), CaptureStep::ReadVaapi { index: 0, fresh: None });
    let scratch = capturer.take_scratch(0);
    let step = capturer.on_vaapi_frame(0, None, scratch.clone(), true, &mut dst, Some(&mut tiles));
    assert_eq!(step, CaptureStep::Finished { captured: false });
    let step = capturer.on_vaapi_frame(0, None, scratch, false, &mut dst, None);
    assert_eq!(step, CaptureStep::Failed { error: CaptureError::VaapiCapture });
}

#[test]
fn video_driver_is_not_used_if_not_allowed() {
    let mut capturer = Capturer::new_with_options(&output(2, 2), false);
    let info = planar(Some(0), Some(8));
    let step = capturer.on_dumb(request(8), Some(info), None);
    assert_eq!(step, CaptureStep::AskFb1 { fb: 71 });
    let step = capturer.on_dumb(request(8), None, None);
    assert_eq!(step, CaptureStep::Failed { error: CaptureError::DumbMap });
}

#[test]
fn planes_that_cannot_be_used_lead_to_the_plain_question() {
    let mut capturer = Capturer::new(&output(2, 2));
    assert_eq!(capturer.on_fb2(71, None), CaptureStep::AskFb1 { fb: 71 });
    assert_eq!(capturer.on_fb2(71, Some(planar(Some(3), Some(8)))), CaptureStep::AskFb1 { fb: 71 });
    assert_eq!(capturer.on_fb2(71, Some(planar(None, None))), CaptureStep::AskFb1 { fb: 71 });
    assert_eq!(capturer.on_gem_fb2(71, None), CaptureStep::AskGemFb1 { fb: 71 });
    capturer.use_fb2 = Some(true);
    let failed = |error| CaptureStep::Failed { error };
    assert_eq!(capturer.on_fb2(71, None), failed(CaptureError::Fb2Query));
    assert_eq!(
        capturer.on_fb2(71, Some(planar(Some(3), Some(8)))),
        failed(CaptureError::NonLinear(3))
    );
    assert_eq!(capturer.on_fb2(71, Some(planar(None, None))), failed(CaptureError::NoBufferInFb2));
    assert_eq!(capturer.on_gem_fb2(71, None), failed(CaptureError::Fb2GemQuery));
    let driver = match capturer.on_dumb(request(8), Some(planar(None, Some(8))), None) {
        CaptureStep::OpenVaapi { driver, .. } => driver,
        other => panic!("{other:?}"),
    };
    let (step, _) = capturer.on_vaapi_opened(71, driver, None);
    assert_eq!(step, failed(CaptureError::VaapiOpen));
}

#[test]
fn plain_framebuffers() {
    let mut capturer = Capturer::new(&output(2, 2));
    let failed = |error| CaptureStep::Failed { error };
    let plain = PlainFramebuffer { buffer: Some(8), pitch: 12, bpp: 32, depth: 24 };
    assert_eq!(
        capturer.on_fb1(71, Some(plain)),
        CaptureStep::MapPrime { request: request(8), planar: None }
    );
    assert_eq!(capturer.on_fb1(71, None), failed(CaptureError::Fb1Query));
    assert_eq!(
        capturer.on_fb1(71, Some(PlainFramebuffer { buffer: None, ..plain })),
        failed(CaptureError::NoBufferInFb1)
    );
    assert_eq!(
        capturer.on_fb1(71, Some(PlainFramebuffer { depth: 30, ..plain })),
        failed(CaptureError::UnsupportedDepth(32, 30))
    );
    assert_eq!(capturer.on_gem_fb1(71, None), failed(CaptureError::Fb1GemQuery));
    assert_eq!(capturer.on_gem_fb1(71, Some(None)), failed(CaptureError::NoGemFromFb1));
    capturer.on_prime(request(8), None, Some(1));
    assert_eq!(capturer.use_fb2, Some(false));
    assert_eq!(capturer.capture_into(Some(1), true), CaptureStep::AskGemFb1 { fb: 1 });
    assert_eq!(capturer.on_gem_fb1(1, Some(Some(3))), CaptureStep::AskFb1 { fb: 1 });
}

#[test]
fn unreadable_new_mapping_fails_and_is_kept() {
    let mut capturer = Capturer::new(&output(2, 2));
    let mut dst = vec![1];
    let e = CachedBuffer { format: PixelFormat::Other(1), ..entry(8, 900) };
    let (step, _) = capturer.on_new_mapping(e, &[0; 24], &mut dst, None);
    assert_eq!(
        step,
        CaptureStep::Failed { error: CaptureError::Convert(ConvertError::Unsupported(1)) }
    );
    assert_eq!(capturer.cache, vec![e]);
    assert_eq!(dst, vec![1]);
}

#[test]
fn full_cache_evicts_the_oldest_mapping() {
    let mut capturer = Capturer::new(&output(1, 1));
    let mut dst = Vec::new();
    for i in 0..16u32 {
        let (_, evicted) =
            capturer.on_new_mapping(entry(i + 1, i as u64), &[0; 4], &mut dst, None);
        assert_eq!(evicted, None);
    }
    let (_, evicted) = capturer.on_new_mapping(entry(100, 100), &[0; 4], &mut dst, None);
    assert_eq!(evicted, Some(entry(1, 0)));
    assert_eq!(capturer.cache.len(), 16);
    assert_eq!(capturer.cache[15], entry(100, 100));
}

#[test]
fn full_driver_cache_evicts_the_oldest_context() {
    let mut capturer = Capturer::new(&output(1, 1));
    let driver = match capturer.on_dumb(request(8), Some(planar(None, Some(8))), None) {
        CaptureStep::OpenVaapi { driver, .. } => driver,
        other => panic!("{other:?}"),
    };
    for i in 0..16u64 {
        assert_eq!(capturer.on_vaapi_opened(71, driver, Some(i)).1, None);
    }
    let (step, evicted) = capturer.on_vaapi_opened(71, driver, Some(16));
    assert_eq!(step, CaptureStep::ReadVaapi { index: 15, fresh: Some(71) });
    assert_eq!(evicted, Some(0));
}

#[test]
fn redrawing_catches_up_after_several_captures() {
    let (w, h) = (100u32, 70u32);
    let mut capturer = Capturer::new(&output(w, h));
    let len = (w * h * 4) as usize;
    let mut tiles = DirtyTiles::new(w, h);
    let mut dst = vec![0u8; len];
    let mut viewer = dst.clone();
    // Two captures from a mapping: the second takes back part of the first.
    let mut raw = vec![0u8; len];
    raw[8] = 5;
    raw[len - 1] = 6;
    let e = CachedBuffer { pitch: w * 4, size: len as u64, ..entry(8, 900) };
    capturer.on_new_mapping(e, &raw, &mut dst, Some(&mut tiles));
    raw[8] = 0;
    capturer.on_mapped(0, &raw, &mut dst, Some(&mut tiles));
    // One that the video driver reads back.
    let driver = capturer.vaapi_request(9, &planar(None, Some(9)));
    capturer.use_fb2 = Some(true);
    capturer.on_vaapi_opened(71, driver, Some(1));
    let mut read = capturer.take_scratch(0);
    assert_eq!(read.len(), len);
    read.copy_from_slice(&raw);
    read[len - 5] = 7;
    capturer.on_vaapi_frame(0, None, read.clone(), true, &mut dst, Some(&mut tiles));
    assert_eq!(dst, read);
    for r in tiles.drain_to_rects() {
        for y in r.y as u32..r.y as u32 + r.height as u32 {
            let a = ((y * w + r.x as u32) * 4) as usize;
            let b = a + r.width as usize * 4;
            viewer[a..b].copy_from_slice(&dst[a..b]);
        }
    }
    assert_eq!(viewer, dst);
}

#[test]
fn driver_request_takes_region_and_planes() {
    let capturer = Capturer::new(&output(640, 480));
    let request = capturer.vaapi_request(8, &planar(Some(3), Some(8)));
    assert_eq!((request.src_x, request.src_y), (5, 6));
    assert_eq!((request.width, request.height), (640, 480));
    assert_eq!((request.fb_width, request.fb_height), (2, 2));
    assert_eq!((request.modifier, request.num_planes), (3, 2));
    assert_eq!(request.pitches, [12, 1, 2, 3]);
    assert_eq!(request.offsets, [0, 7, 8, 9]);
    assert_eq!(capturer.vaapi_request(8, &planar(None, None)).num_planes, 0);
}

#[test]
fn unchanged_picture_of_a_freshly_opened_buffer_is_no_new_frame() {
    let mut capturer = Capturer::new(&output(2, 2));
    let driver = capturer.vaapi_request(8, &planar(None, Some(8)));
    capturer.on_vaapi_opened(71, driver, Some(500));
    let mut tiles = DirtyTiles::new(2, 2);
    let mut dst = vec![7u8; 16];
    let mut scratch = capturer.take_scratch(0);
    scratch.copy_from_slice(&dst);
    let step = capturer.on_vaapi_frame(0, Some(71), scratch, true, &mut dst, Some(&mut tiles));
    assert_eq!(step, CaptureStep::Finished { captured: false });
    assert!(tiles.drain_to_rects().is_empty());
    assert_eq!(capturer.use_fb2, Some(true));
    // Without tiles it cannot be told, and a forced capture always has a frame.
    let scratch = capturer.take_scratch(0);
    let step = capturer.on_vaapi_frame(0, Some(71), scratch, true, &mut dst, None);
    assert_eq!(step, CaptureStep::Finished { captured: true });
}

#[test]
fn freshly_opened_buffer_that_cannot_be_read_back_is_asked_without_planes() {
    let mut capturer = Capturer::new(&output(2, 2));
    let driver = capturer.vaapi_request(8, &planar(None, Some(8)));
    capturer.on_vaapi_opened(71, driver, Some(500));
    let scratch = capturer.take_scratch(0);
    let mut dst = vec![1];
    let step = capturer.on_vaapi_frame(0, Some(71), scratch, false, &mut dst, None);
    assert_eq!(step, CaptureStep::AskFb1 { fb: 71 });
    assert_eq!(dst, vec![1]);
}

#[test]
fn forced_capture_never_ends_without_a_frame() {
    // Whatever the device answers, a capture without tiles fails or has a frame.
    for answers in 0..64u32 {
        let yes = |bit: u32| answers & (1 << bit) != 0;
        let mut capturer = Capturer::new(&output(1, 1));
        let mut dst = Vec::new();
        let mut step = capturer.capture_into(Some(71), true);
        let mut questions = 0;
        let captured = loop {
            step = match step {
                CaptureStep::AskGemFb2 { fb } => {
                    capturer.on_gem_fb2(fb, if yes(0) { Some(8) } else { None })
                }
                CaptureStep::AskGemFb1 { fb } => capturer.on_gem_fb1(fb, Some(Some(8))),
                CaptureStep::AskFb2 { fb } => {
                    let info = planar(if yes(1) { None } else { Some(9) }, Some(8));
                    capturer.on_fb2(fb, Some(info))
                }
                CaptureStep::AskFb1 { fb } => {
                    let plain = PlainFramebuffer { buffer: Some(8), pitch: 4, bpp: 32, depth: 24 };
                    capturer.on_fb1(fb, Some(plain))
                }
                CaptureStep::MapPrime { request, planar } => {
                    capturer.on_prime(request, planar, if yes(2) { Some(1) } else { None })
                }
                CaptureStep::MapDumb { request, planar } => {
                    capturer.on_dumb(request, planar, if yes(3) { Some((1, 20)) } else { None })
                }
                CaptureStep::OpenVaapi { fb, driver } => {
                    let context = if yes(4) { Some(2) } else { None };
                    capturer.on_vaapi_opened(fb, driver, context).0
                }
                CaptureStep::ReadVaapi { index, fresh } => {
                    let scratch = capturer.take_scratch(index);
                    capturer.on_vaapi_frame(index, fresh, scratch, yes(5), &mut dst, None)
                }
                CaptureStep::ReadMapped { index } => {
                    capturer.on_mapped(index, &[0; 12], &mut dst, None)
                }
                CaptureStep::ReadNew { entry } => {
                    capturer.on_new_mapping(entry, &[0; 12], &mut dst, None).0
                }
                CaptureStep::Finished { captured } => break Some(captured),
                CaptureStep::Failed { .. } => break None,
            };
            questions += 1;
            assert!(questions <= 11);
        };
        assert_ne!(captured, Some(false));
    }
}

#[test]
fn whole_frames_are_replaced_tile_by_tile_where_possible() {
    let mut tiles = DirtyTiles::new(65, 1);
    let mut picture = vec![0u8; 260];
    let mut dst = Vec::new();
    assert!(replace_frame(&mut dst, &picture, 65, 1, Some(&mut tiles)));
    assert_eq!(tiles.drain_to_rects().len(), 2);
    assert!(!replace_frame(&mut dst, &picture, 65, 1, Some(&mut tiles)));
    assert!(tiles.drain_to_rects().is_empty());
    picture[259] = 1;
    assert!(replace_frame(&mut dst, &picture, 65, 1, Some(&mut tiles)));
    assert_eq!(tiles.drain_to_rects(), vec![DirtyRect { x: 64, y: 0, width: 1, height: 1 }]);
    assert!(replace_frame(&mut dst, &picture, 65, 1, None));
    assert_eq!(dst, picture);
    let capturer = Capturer::new(&output(65, 1));
    assert_eq!(capturer.framebuffer(None), 70);
    assert_eq!(capturer.framebuffer(Some(3)), 3);
}
