//! What holds of captures, step by step, whatever the device answers.

use crate::kms::cpu_capture::CaptureStep;
use crate::kms::cpu_capture::CachedBuffer;
use crate::kms::cpu_capture::Capturer;
use crate::kms::cpu_capture::MapRequest;
use crate::kms::cpu_capture::PlanarFramebuffer;
use crate::kms::fourcc::PixelFormat;
use vstd::prelude::*;

verus! {

/// Only the framebuffer of the start just before is skipped: after a start with the framebuffer
/// `f`, forced or not, a start with `g` that is not forced ends at once without a frame exactly if
/// `g` is `f`. Every other start asks for the buffer of the framebuffer that it was given.
pub proof fn law_only_the_framebuffer_just_started_is_skipped(
    capturer: Capturer,
    f: u32,
    forced: bool,
    g: u32,
    force: bool,
)
    ensures
        ({
            let step = capturer.after_start(Some(f), forced).start_step(Some(g), force);
            &&& step is Finished <==> (!force && g == f)
            &&& step matches CaptureStep::Finished { captured } ==> !captured
            &&& step is Finished || step == (CaptureStep::AskGemFb2 { fb: g }) || step == (
            CaptureStep::AskGemFb1 { fb: g })
        }),
{
}

/// A device that does not tell what it shows is taken to show what it showed first.
pub proof fn law_unknown_framebuffer_is_the_first(capturer: Capturer, force: bool)
    ensures
        capturer.start_step(None, force) == capturer.start_step(Some(capturer.default_fb), force),
        capturer.after_start(None, force) == capturer.after_start(
            Some(capturer.default_fb),
            force,
        ),
        force ==> (capturer.start_step(None, force) matches CaptureStep::AskGemFb2 { fb } ==> fb
            == capturer.default_fb),
        force ==> (capturer.start_step(None, force) matches CaptureStep::AskGemFb1 { fb } ==> fb
            == capturer.default_fb),
{
}

/// A capturer that has just been made skips nothing: without a framebuffer captured before, every
/// start captures.
pub proof fn law_first_start_captures(capturer: Capturer, current_fb: Option<u32>, force: bool)
    requires
        capturer.last_fb_key is None,
    ensures
        !(capturer.start_step(current_fb, force) is Finished),
{
}

/// No answer of the device changes which output is captured, which part of it, or which
/// framebuffer is skipped next.
pub proof fn law_answers_leave_the_output_alone(
    capturer: Capturer,
    step: CaptureStep,
    after: Capturer,
    next: CaptureStep,
    with_tiles: bool,
)
    requires
        capturer.leads_to(step, after, next, with_tiles),
    ensures
        after.last_fb_key == capturer.last_fb_key,
        after.crtc_handle == capturer.crtc_handle,
        after.default_fb == capturer.default_fb,
        after.src_x == capturer.src_x,
        after.src_y == capturer.src_y,
        after.width == capturer.width,
        after.height == capturer.height,
        after.allow_vaapi_readback == capturer.allow_vaapi_readback,
{
    if let CaptureStep::AskGemFb2 { fb } = step {
        if capturer.locates(fb, after, next) {
            let gem = choose|gem: u32| #[trigger] capturer.located(fb, gem, after, next);
            assert(capturer.located(fb, gem, after, next));
        }
    }
    if let CaptureStep::AskGemFb1 { fb } = step {
        if capturer.locates(fb, after, next) {
            let gem = choose|gem: u32| #[trigger] capturer.located(fb, gem, after, next);
            assert(capturer.located(fb, gem, after, next));
        }
    }
}

/// What skips the next start is the start alone: whatever the device answered in between, a start
/// with `g` that is not forced, after a capture that was started with `f`, is skipped exactly if
/// `g` is `f`.
pub proof fn law_whole_captures_skip_only_their_own_framebuffer(
    capturer: Capturer,
    f: u32,
    forced: bool,
    moments: Seq<crate::laws::Moment>,
    with_tiles: bool,
    g: u32,
)
    requires
        crate::laws::is_capture(capturer, Some(f), forced, moments, with_tiles),
    ensures
        moments.last().capturer.start_step(Some(g), false) is Finished <==> g == f,
    decreases moments.len(),
{
    lemma_whole_captures_leave_the_key(capturer, f, forced, moments, with_tiles);
    law_only_the_framebuffer_just_started_is_skipped(capturer, f, forced, g, false);
}

proof fn lemma_whole_captures_leave_the_key(
    capturer: Capturer,
    f: u32,
    forced: bool,
    moments: Seq<crate::laws::Moment>,
    with_tiles: bool,
)
    requires
        crate::laws::is_capture(capturer, Some(f), forced, moments, with_tiles),
    ensures
        moments.last().capturer.last_fb_key == capturer.after_start(Some(f), forced).last_fb_key,
    decreases moments.len(),
{
    if moments.len() > 1 {
        let earlier = moments.drop_last();
        assert(earlier[0] == moments[0]);
        lemma_whole_captures_leave_the_key(capturer, f, forced, earlier, with_tiles);
        law_answers_leave_the_output_alone(
            earlier.last().capturer,
            earlier.last().step,
            moments.last().capturer,
            moments.last().step,
            with_tiles,
        );
    }
}

/// Asking falls back from planes to the plain question only where planes have not worked before,
/// and never the other way: once one way has worked, the other is not tried.
pub proof fn law_asking_falls_back_only_until_one_way_works(
    capturer: Capturer,
    step: CaptureStep,
    after: Capturer,
    next: CaptureStep,
    with_tiles: bool,
)
    requires
        capturer.leads_to(step, after, next, with_tiles),
        capturer.can_come(step),
    ensures
        next is AskGemFb1 || next is AskFb1 ==> after.use_fb2 != Some(true),
        next is AskGemFb2 || next is AskFb2 ==> after.use_fb2 != Some(false),
        capturer.use_fb2 == Some(true) ==> after.use_fb2 == Some(true),
        capturer.use_fb2 == Some(false) ==> after.use_fb2 == Some(false),
        capturer.use_prime == Some(true) ==> after.use_prime == Some(true),
        capturer.use_prime == Some(false) ==> after.use_prime == Some(false),
        next is MapPrime ==> after.use_prime != Some(false),
        next is MapDumb ==> after.use_prime != Some(true),
        capturer.use_fb2 is None && !(step is AskFb1) && !(step is AskGemFb1) && next is Failed
            ==> step is ReadNew || step is ReadMapped || step is ReadVaapi || (step is MapDumb
            && step->MapDumb_planar is None) || (step is MapPrime && step->MapPrime_planar is None),
{
    if let CaptureStep::AskGemFb2 { fb } = step {
        if capturer.locates(fb, after, next) {
            let gem = choose|gem: u32| #[trigger] capturer.located(fb, gem, after, next);
            assert(capturer.located(fb, gem, after, next));
        }
    }
    if let CaptureStep::AskGemFb1 { fb } = step {
        if capturer.locates(fb, after, next) {
            let gem = choose|gem: u32| #[trigger] capturer.located(fb, gem, after, next);
            assert(capturer.located(fb, gem, after, next));
        }
    }
}

/// A buffer is exported before it is reopened, and goes to the video driver only where it has
/// planes, that is allowed, and mapping it has failed in every way that may still work.
pub proof fn law_mapping_falls_back_in_order(
    capturer: Capturer,
    step: CaptureStep,
    after: Capturer,
    next: CaptureStep,
    with_tiles: bool,
)
    requires
        capturer.leads_to(step, after, next, with_tiles),
        capturer.can_come(step),
    ensures
        next is MapDumb ==> step is MapPrime || capturer.use_prime == Some(false),
        next is MapDumb && step is MapPrime ==> next->MapDumb_request == step->MapPrime_request
            && next->MapDumb_planar == step->MapPrime_planar,
        next is OpenVaapi ==> capturer.allow_vaapi_readback && (step is MapDumb || step is MapPrime),
        next is OpenVaapi && step is MapPrime ==> capturer.use_prime == Some(true)
            && step->MapPrime_planar is Some,
        next is OpenVaapi && step is MapDumb ==> step->MapDumb_planar is Some,
        step is MapPrime && !(next is ReadNew) && capturer.use_prime != Some(true)
            ==> next is MapDumb,
        step is MapDumb && step->MapDumb_planar is Some && capturer.allow_vaapi_readback
            ==> next is ReadNew || next is OpenVaapi,
{
    if let CaptureStep::AskGemFb2 { fb } = step {
        if capturer.locates(fb, after, next) {
            let gem = choose|gem: u32| #[trigger] capturer.located(fb, gem, after, next);
            assert(capturer.located(fb, gem, after, next));
        }
    }
    if let CaptureStep::AskGemFb1 { fb } = step {
        if capturer.locates(fb, after, next) {
            let gem = choose|gem: u32| #[trigger] capturer.located(fb, gem, after, next);
            assert(capturer.located(fb, gem, after, next));
        }
    }
}

/// The first way that works is the way that is kept: a mapping made by exporting or by reopening,
/// with planes or without, or a frame that the video driver has read back, settles it.
pub proof fn law_first_success_settles_the_way(
    capturer: Capturer,
    step: CaptureStep,
    after: Capturer,
    next: CaptureStep,
    with_tiles: bool,
)
    requires
        capturer.leads_to(step, after, next, with_tiles),
    ensures
        step is MapPrime && next is ReadNew ==> after.use_prime == Some(true) && after.use_fb2
            == Some(step->MapPrime_planar is Some),
        step is MapDumb && next is ReadNew ==> after.use_prime == Some(false) && after.use_fb2
            == Some(step->MapDumb_planar is Some),
        step is ReadVaapi && step->fresh is Some && next is Finished ==> after.use_fb2 == Some(
            true,
        ),
        !(next is ReadNew) ==> after.use_prime == capturer.use_prime,
        !(next is ReadNew) && !(step is ReadVaapi) ==> after.use_fb2 == capturer.use_fb2,
{
    if let CaptureStep::AskGemFb2 { fb } = step {
        if capturer.locates(fb, after, next) {
            let gem = choose|gem: u32| #[trigger] capturer.located(fb, gem, after, next);
            assert(capturer.located(fb, gem, after, next));
        }
    }
    if let CaptureStep::AskGemFb1 { fb } = step {
        if capturer.locates(fb, after, next) {
            let gem = choose|gem: u32| #[trigger] capturer.located(fb, gem, after, next);
            assert(capturer.located(fb, gem, after, next));
        }
    }
}

/// What is mapped of a framebuffer with planes is its first plane, whole: all rows of it. It is
/// mapped only where its modifier says nothing or says that rows follow each other.
pub proof fn law_first_plane_is_mapped_whole(capturer: Capturer, fb: u32, info: PlanarFramebuffer)
    ensures
        ({
            let next = capturer.step_after_fb2(fb, Some(info));
            let mapped = (info.modifier is None || info.modifier == Some(0u64))
                && info.buffers@[0] is Some;
            &&& mapped <==> next is MapPrime || next is MapDumb
            &&& next matches CaptureStep::MapPrime { request, planar } ==> planar == Some(info)
                && maps_plane(capturer, fb, info.buffers@[0]->0, info.pitches@[0], request)
                && request.format == crate::kms::fourcc::format_of_code(info.fourcc)
            &&& next matches CaptureStep::MapDumb { request, planar } ==> planar == Some(info)
                && maps_plane(capturer, fb, info.buffers@[0]->0, info.pitches@[0], request)
                && request.format == crate::kms::fourcc::format_of_code(info.fourcc)
            &&& next matches CaptureStep::AskFb1 { fb: asked } ==> asked == fb
        }),
{
    lemma_mapping_size(capturer.height, info.pitches@[0]);
}

/// What is mapped of a framebuffer without planes is its buffer, whole.
pub proof fn law_plain_buffer_is_mapped_whole(
    capturer: Capturer,
    fb: u32,
    info: crate::kms::cpu_capture::PlainFramebuffer,
)
    ensures
        ({
            let next = capturer.step_after_fb1(fb, Some(info));
            &&& next matches CaptureStep::MapPrime { request, planar } ==> planar is None
                && info.buffer is Some && maps_plane(
                capturer,
                fb,
                info.buffer->0,
                info.pitch,
                request,
            ) && has_depth(request.format, info.bpp, info.depth)
            &&& next matches CaptureStep::MapDumb { request, planar } ==> planar is None
                && info.buffer is Some && maps_plane(
                capturer,
                fb,
                info.buffer->0,
                info.pitch,
                request,
            ) && has_depth(request.format, info.bpp, info.depth)
            &&& info.buffer is Some && (exists|format: PixelFormat| #[trigger]
                has_depth(format, info.bpp, info.depth)) ==> next is MapPrime || next is MapDumb
        }),
{
    lemma_mapping_size(capturer.height, info.pitch);
}

/// Whether a request is for all rows of a plane in the given buffer of a framebuffer.
pub open spec fn maps_plane(
    capturer: Capturer,
    fb: u32,
    gem: u32,
    pitch: u32,
    request: MapRequest,
) -> bool {
    &&& request.fb_key == fb
    &&& request.gem_handle == gem
    &&& request.pitch == pitch
    &&& request.size == capturer.height * pitch
}

/// Whether a format has this many bits per pixel, of which so many are colour or alpha.
pub open spec fn has_depth(format: PixelFormat, bpp: u32, depth: u32) -> bool {
    match format {
        PixelFormat::Xrgb8888 => bpp == 32 && depth == 24,
        PixelFormat::Argb8888 => bpp == 32 && depth == 32,
        PixelFormat::Rgb565 => bpp == 16 && depth == 16,
        _ => false,
    }
}

proof fn lemma_mapping_size(height: u32, pitch: u32)
    ensures
        0 <= height * pitch <= u64::MAX,
{
    assert(0 <= height * pitch <= 0xffff_ffff * 0xffff_ffff) by (nonlinear_arith)
        requires
            0 <= height <= 0xffff_ffff,
            0 <= pitch <= 0xffff_ffff,
    ;
}

/// A mapping holds its frame: a buffer whose rows are at least as far apart as they are long is
/// mapped with enough bytes to be converted.
pub proof fn law_whole_mappings_can_be_converted(
    capturer: Capturer,
    format: PixelFormat,
    pitch: u32,
    raw: Seq<u8>,
)
    requires
        !(format is Other),
        raw.len() == capturer.height * pitch,
        pitch >= capturer.width * 4,
    ensures
        capturer.conversion(format, pitch, raw) is Ok,
{
    let w = capturer.width as int;
    let h = capturer.height as int;
    let p = pitch as int;
    if h > 0 {
        assert((h - 1) * p + p == h * p) by (nonlinear_arith);
    }
}

/// A mapping keeps what was asked for: the entry that is read and kept has the framebuffer, the
/// size, the format and the row distance of the request. A buffer that was exported keeps its
/// handle.
pub proof fn law_mappings_are_what_was_asked_for(
    capturer: Capturer,
    step: CaptureStep,
    after: Capturer,
    next: CaptureStep,
    with_tiles: bool,
)
    requires
        capturer.leads_to(step, after, next, with_tiles),
    ensures
        next matches CaptureStep::ReadNew { entry } ==> step is MapPrime || step is MapDumb,
        next matches CaptureStep::ReadNew { entry } ==> (step matches CaptureStep::MapPrime {
            request,
            planar,
        } ==> {
            &&& entry.gem_handle == request.gem_handle && entry.fb_key == request.fb_key
            &&& entry.size == request.size && entry.format == request.format && entry.pitch
                == request.pitch
        }),
        next matches CaptureStep::ReadNew { entry } ==> (step matches CaptureStep::MapDumb {
            request,
            planar,
        } ==> {
            &&& entry.fb_key == request.fb_key
            &&& entry.size == request.size && entry.format == request.format && entry.pitch
                == request.pitch
        }),
{
    if let CaptureStep::AskGemFb2 { fb } = step {
        if capturer.locates(fb, after, next) {
            let gem = choose|gem: u32| #[trigger] capturer.located(fb, gem, after, next);
            assert(capturer.located(fb, gem, after, next));
        }
    }
    if let CaptureStep::AskGemFb1 { fb } = step {
        if capturer.locates(fb, after, next) {
            let gem = choose|gem: u32| #[trigger] capturer.located(fb, gem, after, next);
            assert(capturer.located(fb, gem, after, next));
        }
    }
}

/// The video driver is asked for the region of the output, and told what the framebuffer is.
pub proof fn law_driver_is_told_output_and_framebuffer(
    capturer: Capturer,
    gem: u32,
    info: PlanarFramebuffer,
)
    ensures
        ({
            let request = capturer.driver_request(gem, info);
            &&& request.gem_handle == gem
            &&& request.src_x == capturer.src_x && request.src_y == capturer.src_y
            &&& request.width == capturer.width && request.height == capturer.height
            &&& request.fb_width == info.width && request.fb_height == info.height
            &&& request.fourcc == info.fourcc
            &&& request.pitches == info.pitches && request.offsets == info.offsets
            &&& request.modifier == 0 || Some(request.modifier) == info.modifier
            &&& info.modifier matches Some(modifier) ==> modifier != 0x00ff_ffff_ffff_ffff
                ==> request.modifier == modifier
            &&& request.num_planes <= 4
            &&& forall|i: int|
                0 <= i < request.num_planes ==> (#[trigger] info.buffers@[i]) is Some
            &&& request.num_planes < 4 ==> info.buffers@[request.num_planes as int] is None
        }),
{
    reveal_with_fuel(crate::kms::capture_steps::planes_from, 5);
}

/// A buffer is mapped once: a capture of a buffer that is in the cache reads the mapping that is
/// there, and asks the device nothing about it. The mapping found is of that buffer, and the first.
pub proof fn law_cached_buffers_are_read_again(
    capturer: Capturer,
    fb: u32,
    gem: u32,
    after: Capturer,
    step: CaptureStep,
    k: int,
)
    requires
        capturer.located(fb, gem, after, step),
        0 <= k < capturer.cache@.len(),
        capturer.cache@[k].gem_handle == gem,
        forall|j: int|
            0 <= j < capturer.vaapi_cache@.len() ==> (
            #[trigger] capturer.vaapi_cache@[j]).gem_handle != gem,
    ensures
        step matches CaptureStep::ReadMapped { index } && {
            &&& index <= k
            &&& capturer.cache@[index as int].gem_handle == gem
            &&& after.cache@[index as int].mapping == capturer.cache@[index as int].mapping
            &&& after.cache@[index as int].size == capturer.cache@[index as int].size
            &&& after.cache@[index as int].format == capturer.cache@[index as int].format
            &&& after.cache@[index as int].pitch == capturer.cache@[index as int].pitch
            &&& after.cache@[index as int].fb_key == fb
        },
{
}

/// A buffer that the video driver has open is read back by it.
pub proof fn law_opened_buffers_are_read_back(
    capturer: Capturer,
    fb: u32,
    gem: u32,
    after: Capturer,
    step: CaptureStep,
    k: int,
)
    requires
        capturer.located(fb, gem, after, step),
        0 <= k < capturer.vaapi_cache@.len(),
        capturer.vaapi_cache@[k].gem_handle == gem,
    ensures
        step matches CaptureStep::ReadVaapi { index, fresh } && fresh is None && index <= k
            && capturer.vaapi_cache@[index as int].gem_handle == gem && after == capturer,
{
}

/// A buffer that is in no cache is asked for.
pub proof fn law_unknown_buffers_are_asked_for(
    capturer: Capturer,
    fb: u32,
    gem: u32,
    after: Capturer,
    step: CaptureStep,
)
    requires
        capturer.located(fb, gem, after, step),
        forall|j: int|
            0 <= j < capturer.vaapi_cache@.len() ==> (
            #[trigger] capturer.vaapi_cache@[j]).gem_handle != gem,
        forall|j: int|
            0 <= j < capturer.cache@.len() ==> (#[trigger] capturer.cache@[j]).gem_handle != gem,
    ensures
        step == (CaptureStep::AskFb2 { fb }) || step == (CaptureStep::AskFb1 { fb }),
        step is AskFb1 <==> capturer.use_fb2 == Some(false),
        after == capturer,
{
}

/// A cache keeps the sixteen latest mappings: a new one comes last, the others keep their order,
/// and only the oldest goes, only if there are sixteen.
pub proof fn law_cache_keeps_the_latest(items: Seq<CachedBuffer>, item: CachedBuffer)
    requires
        items.len() <= 16,
    ensures
        ({
            let kept = crate::kms::capture_steps::pushed_bounded(items, item);
            let gone = if items.len() == 16 {
                1int
            } else {
                0
            };
            &&& kept.len() == items.len() - gone + 1
            &&& kept.last() == item
            &&& forall|i: int| gone <= i < items.len() ==> #[trigger] items[i] == kept[i - gone]
        }),
{
}

/// A mapping that was just made is found again: the next capture of the buffer reads it, if neither
/// cache held the buffer before.
pub proof fn law_new_mappings_are_found_again(
    capturer: Capturer,
    entry: CachedBuffer,
    after: Capturer,
    next: CaptureStep,
    with_tiles: bool,
    fb: u32,
    found: Capturer,
    step: CaptureStep,
)
    requires
        capturer.cache@.len() <= 16,
        capturer.leads_to(CaptureStep::ReadNew { entry }, after, next, with_tiles),
        forall|j: int|
            0 <= j < capturer.cache@.len() ==> (#[trigger] capturer.cache@[j]).gem_handle
                != entry.gem_handle,
        forall|j: int|
            0 <= j < capturer.vaapi_cache@.len() ==> (
            #[trigger] capturer.vaapi_cache@[j]).gem_handle != entry.gem_handle,
        after.located(fb, entry.gem_handle, found, step),
    ensures
        step matches CaptureStep::ReadMapped { index } && found.cache@[index as int].mapping
            == entry.mapping,
{
    law_cache_keeps_the_latest(capturer.cache@, entry);
    let last = after.cache@.len() - 1;
    assert(after.cache@[last].gem_handle == entry.gem_handle);
    law_cached_buffers_are_read_again(after, fb, entry.gem_handle, found, step, last);
    let index = step->ReadMapped_index as int;
    if index < last {
        let gone = if capturer.cache@.len() == 16 {
            1int
        } else {
            0
        };
        assert(capturer.cache@[index + gone] == after.cache@[index]);
    }
}

/// What reading reports, where it can be told: into a frame of the same size, with tiles kept, a
/// buffer that can be copied directly is a new frame exactly if a byte of the picture differs, and
/// otherwise the frame is always new.
pub proof fn law_reading_reports_changes(
    capturer: Capturer,
    format: PixelFormat,
    pitch: u32,
    raw: Seq<u8>,
    before: Seq<u8>,
    with_tiles: bool,
)
    requires
        capturer.conversion(format, pitch, raw) is Ok,
    ensures
        ({
            let after = capturer.frame_after_reading(format, pitch, raw, before);
            let told = with_tiles && (format is Xrgb8888 || format is Argb8888) && before.len()
                == capturer.width * capturer.height * 4;
            capturer.result_of_reading(format, pitch, raw, before, with_tiles) matches Ok(captured)
                && captured == (!told || exists|i: int|
                0 <= i < before.len() && #[trigger] before[i] != after[i])
        }),
{
    let w = capturer.width as int;
    let h = capturer.height as int;
    assert(0 <= w * h) by (nonlinear_arith)
        requires
            0 <= w,
            0 <= h,
    ;
    let after = capturer.frame_after_reading(format, pitch, raw, before);
    if before.len() == w * h * 4 && !(exists|i: int|
        0 <= i < before.len() && #[trigger] before[i] != after[i]) {
        assert(before =~= after);
    }
}

/// What reading back reports: into a frame of the same size, with tiles kept, there is a new frame
/// exactly if a byte differs, and otherwise the frame is always new. Whether the video driver has
/// just opened the buffer does not matter.
pub proof fn law_readback_reports_changes(
    capturer: Capturer,
    fresh: Option<u32>,
    read: Seq<u8>,
    before: Seq<u8>,
    with_tiles: bool,
)
    ensures
        capturer.step_after_readback(fresh, read, true, before, with_tiles) matches
            CaptureStep::Finished { captured } && captured == (!with_tiles || before.len()
            != read.len() || exists|i: int|
            0 <= i < before.len() && #[trigger] before[i] != read[i]),
{
    if before.len() == read.len() && !(exists|i: int|
        0 <= i < before.len() && #[trigger] before[i] != read[i]) {
        assert(before =~= read);
    }
}

/// Every format that has a name is converted, as long as the buffer holds every pixel of the frame;
/// no other is. The error says which of the two it was.
pub proof fn law_named_formats_are_converted(
    capturer: Capturer,
    format: PixelFormat,
    pitch: u32,
    raw: Seq<u8>,
)
    ensures
        ({
            let width = capturer.width as int;
            let height = capturer.height as int;
            let result = capturer.conversion(format, pitch, raw);
            let whole = forall|x: int, y: int|
                0 <= x < width && 0 <= y < height
                    ==> #[trigger] crate::kms::pixel_format::pixel_end(
                    format,
                    pitch as int,
                    x,
                    y,
                ) <= raw.len();
            &&& result is Ok <==> !(format is Other) && whole
            &&& format matches PixelFormat::Other(code) ==> result == Err::<
                (),
                crate::kms::pixel_format::ConvertError,
            >(crate::kms::pixel_format::ConvertError::Unsupported(code))
            &&& !(format is Other) && !whole ==> result == Err::<
                (),
                crate::kms::pixel_format::ConvertError,
            >(crate::kms::pixel_format::ConvertError::Truncated)
        }),
{
    if !(format is Other) {
        crate::kms::pixel_format::law_buffer_holds_exactly_its_pixels(
            format,
            raw.len() as int,
            capturer.width as int,
            capturer.height as int,
            pitch as int,
        );
    }
}

/// A frame that was read shows the picture in the buffer: wherever reading succeeds, whether tile by
/// tile or as a whole, the frame is the conversion of the buffer, and where it fails the frame is left
/// as it was.
pub proof fn law_reading_shows_the_picture(
    capturer: Capturer,
    format: PixelFormat,
    pitch: u32,
    raw: Seq<u8>,
    before: Seq<u8>,
    with_tiles: bool,
    x: int,
    y: int,
)
    requires
        0 <= x < capturer.width,
        0 <= y < capturer.height,
    ensures
        ({
            let result = capturer.result_of_reading(format, pitch, raw, before, with_tiles);
            let frame = capturer.frame_after_reading(format, pitch, raw, before);
            let at = 4 * (y * capturer.width + x);
            let word = crate::kms::pixel_format::word_at(raw, y * pitch + x * 4);
            &&& result is Ok <==> capturer.conversion(format, pitch, raw) is Ok
            &&& result is Err ==> frame == before
            &&& result is Ok && (format is Xrgb8888 || format is Argb8888) ==> frame[at] == word
                % 0x100 && frame[at + 1] == word / 0x100 % 0x100 && frame[at + 2] == word
                / 0x1_0000 % 0x100
            &&& result is Ok && (format is Xbgr8888 || format is Abgr8888) ==> frame[at + 2] == word
                % 0x100 && frame[at + 1] == word / 0x100 % 0x100 && frame[at] == word / 0x1_0000
                % 0x100
        }),
{
    if !(format is Other) {
        crate::kms::pixel_format::law_conversion_keeps_the_colours(
            format,
            raw,
            capturer.width as int,
            capturer.height as int,
            pitch as int,
            x,
            y,
        );
    }
}

} // verus!
