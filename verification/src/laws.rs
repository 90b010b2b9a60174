//! What holds of the parts together.

use crate::kms::cpu_capture::CaptureStep;
use crate::kms::cpu_capture::Capturer;
use crate::kms::cpu_capture::PlanarFramebuffer;
use crate::kms::dmabuf::DmabufFrame;
use crate::kms::fourcc::PixelFormat;
use crate::video::VideoFrame;
use vstd::prelude::*;

verus! {

/// Every byte of a packed frame lies in a tile of the screen, and in the pixel that its place
/// gives.
proof fn lemma_byte_place(width: int, height: int, i: int)
    requires
        0 <= width,
        0 <= height,
        0 <= i < width * height * 4,
    ensures
        0 < width,
        0 < height,
        0 <= (i / 4) % width < width,
        0 <= (i / 4) / width < height,
        0 <= crate::kms::pixel_format::tile_of_byte(width, i)
            < crate::frame_diff::tile_count(width, height),
{
    let p = i / 4;
    assert(0 < width && 0 < height) by (nonlinear_arith)
        requires
            0 <= width,
            0 <= height,
            0 < width * height,
    ;
    vstd::arithmetic::div_mod::lemma_fundamental_div_mod(p, width);
    let x = p % width;
    let y = p / width;
    assert(0 <= y < height) by (nonlinear_arith)
        requires
            p == width * y + x,
            0 <= x < width,
            0 <= p < width * height,
    ;
    let cols = crate::frame_diff::tile_span(width);
    let rows = crate::frame_diff::tile_span(height);
    assert(0 <= (y / 64) * cols + x / 64 < cols * rows) by (nonlinear_arith)
        requires
            0 <= x / 64 < cols,
            0 <= y / 64 < rows,
    ;
}

/// No change goes unnoticed: where a capture changes a byte of the frame, the tile that holds the
/// byte is marked.
pub proof fn law_every_change_is_marked(
    capturer: Capturer,
    format: PixelFormat,
    pitch: u32,
    raw: Seq<u8>,
    before: Seq<u8>,
    marks: Set<int>,
    i: int,
)
    requires
        0 <= i < capturer.frame_size(),
        before.len() == capturer.frame_size(),
        capturer.frame_after_reading(format, pitch, raw, before)[i] != before[i],
    ensures
        capturer.marks_after_reading(format, pitch, raw, before, marks).contains(
            crate::kms::pixel_format::tile_of_byte(capturer.width as int, i),
        ),
{
    let after = capturer.frame_after_reading(format, pitch, raw, before);
    lemma_byte_place(capturer.width as int, capturer.height as int, i);
    assert(before[i] != after[i]);
}

/// A capture that copies tile by tile marks nothing but changes: a tile that it newly marks holds a
/// byte that changed.
pub proof fn law_incremental_capture_marks_only_changes(
    capturer: Capturer,
    format: PixelFormat,
    pitch: u32,
    raw: Seq<u8>,
    before: Seq<u8>,
    marks: Set<int>,
    tile: int,
)
    requires
        capturer.copies_incrementally(before.len() as int, format, true),
        capturer.marks_after_reading(format, pitch, raw, before, marks).contains(tile),
        !marks.contains(tile),
    ensures
        exists|i: int|
            0 <= i < capturer.frame_size() && #[trigger] before[i] != capturer.frame_after_reading(
                format,
                pitch,
                raw,
                before,
            )[i] && crate::kms::pixel_format::tile_of_byte(capturer.width as int, i) == tile,
{
    let after = capturer.frame_after_reading(format, pitch, raw, before);
    let i = choose|i: int|
        0 <= i < after.len() && #[trigger] before[i] != after[i]
            && crate::kms::pixel_format::tile_of_byte(capturer.width as int, i) == tile;
    assert(before[i] != after[i]);
}

/// A capture that finds nothing new marks nothing and leaves the frame as it was.
pub proof fn law_unchanged_capture_marks_nothing(
    capturer: Capturer,
    format: PixelFormat,
    pitch: u32,
    raw: Seq<u8>,
    before: Seq<u8>,
    marks: Set<int>,
)
    requires
        capturer.result_of_reading(format, pitch, raw, before, true) == Ok::<
            bool,
            crate::kms::pixel_format::ConvertError,
        >(false),
    ensures
        capturer.frame_after_reading(format, pitch, raw, before) == before,
        capturer.marks_after_reading(format, pitch, raw, before, marks) == marks,
{
    let differing = crate::kms::pixel_format::differing_tiles(
        before,
        before,
        capturer.width as int,
    );
    assert(marks.union(differing) =~= marks);
}

/// Redrawing the drained rectangles is enough: a viewer that shows the frame before the capture,
/// and redraws every pixel of the rectangles drained after it, shows the captured frame. A pixel
/// outside all rectangles did not change.
///
/// The frame before the capture is the one in the buffer that is captured into. The capture loop
/// hands the buffer of the frame before the last published one to the next capture, if no viewer
/// holds it any more, so a viewer that shows the last published frame is not covered then.
pub proof fn law_redrawing_drained_rects_shows_the_frame(
    capturer: Capturer,
    format: PixelFormat,
    pitch: u32,
    raw: Seq<u8>,
    before: Seq<u8>,
    marks: Set<int>,
    i: int,
)
    requires
        capturer.width <= 65536,
        capturer.height <= 65536,
        0 <= i < capturer.frame_size(),
        before.len() == capturer.frame_size(),
    ensures
        ({
            let width = capturer.width as int;
            let height = capturer.height as int;
            let after = capturer.frame_after_reading(format, pitch, raw, before);
            let rects = crate::frame_diff::rects_of(
                capturer.marks_after_reading(format, pitch, raw, before, marks),
                width,
                height,
            );
            ||| after[i] == before[i]
            ||| exists|k: int|
                0 <= k < rects.len() && (#[trigger] rects[k]).holds(
                    (i / 4) % width,
                    (i / 4) / width,
                )
        }),
{
    let width = capturer.width as int;
    let height = capturer.height as int;
    let after = capturer.frame_after_reading(format, pitch, raw, before);
    let marked = capturer.marks_after_reading(format, pitch, raw, before, marks);
    lemma_byte_place(width, height, i);
    if after[i] != before[i] {
        law_every_change_is_marked(capturer, format, pitch, raw, before, marks, i);
        crate::frame_diff::law_drain_reports_exactly_the_dirty_pixels(
            marked,
            width,
            height,
            (i / 4) % width,
            (i / 4) / width,
        );
    }
}

/// A picture that a capture reads: from a mapped buffer, or back from the video driver.
pub enum Reading {
    Mapped { format: PixelFormat, pitch: u32, raw: Seq<u8> },
    ReadBack { read: Seq<u8> },
}

/// Whether a capturer can read this: what the video driver gives has the size of a frame.
pub open spec fn readable(capturer: Capturer, reading: Reading) -> bool {
    reading matches Reading::ReadBack { read } ==> read.len() == capturer.frame_size()
}

/// The frame that a reading leaves in the destination.
pub open spec fn frame_after(capturer: Capturer, reading: Reading, before: Seq<u8>) -> Seq<u8> {
    match reading {
        Reading::Mapped { format, pitch, raw } => capturer.frame_after_reading(
            format,
            pitch,
            raw,
            before,
        ),
        Reading::ReadBack { read } => read,
    }
}

/// The marks that a reading leaves.
pub open spec fn marks_after(
    capturer: Capturer,
    reading: Reading,
    before: Seq<u8>,
    marks: Set<int>,
) -> Set<int> {
    match reading {
        Reading::Mapped { format, pitch, raw } => capturer.marks_after_reading(
            format,
            pitch,
            raw,
            before,
            marks,
        ),
        Reading::ReadBack { read } => capturer.marks_after_readback(read, before, marks),
    }
}

/// The frame and the marks after several readings into the same destination.
pub open spec fn after_readings(
    capturer: Capturer,
    readings: Seq<Reading>,
    before: Seq<u8>,
    marks: Set<int>,
) -> (Seq<u8>, Set<int>)
    decreases readings.len(),
{
    if readings.len() == 0 {
        (before, marks)
    } else {
        let (frame, marked) = after_readings(capturer, readings.drop_last(), before, marks);
        let last = readings.last();
        (frame_after(capturer, last, frame), marks_after(capturer, last, frame, marked))
    }
}

/// Every frame has the size of the output: a reading into a frame of that size leaves one.
pub proof fn law_frames_keep_their_size(
    capturer: Capturer,
    readings: Seq<Reading>,
    before: Seq<u8>,
    marks: Set<int>,
)
    requires
        before.len() == capturer.frame_size(),
        forall|k: int| 0 <= k < readings.len() ==> readable(capturer, #[trigger] readings[k]),
    ensures
        after_readings(capturer, readings, before, marks).0.len() == capturer.frame_size(),
    decreases readings.len(),
{
    let w = capturer.width as int;
    let h = capturer.height as int;
    assert(0 <= w * h) by (nonlinear_arith)
        requires
            0 <= w,
            0 <= h,
    ;
    if readings.len() > 0 {
        assert(readable(capturer, readings[readings.len() - 1]));
        law_frames_keep_their_size(capturer, readings.drop_last(), before, marks);
    }
}

/// A frame that was captured whole is a valid frame: its bytes, under the size of the output, are
/// packed rows and nothing else.
pub proof fn law_captured_frames_are_packed(
    capturer: Capturer,
    format: PixelFormat,
    pitch: u32,
    raw: Seq<u8>,
    before: Seq<u8>,
    data: Vec<u8>,
)
    requires
        capturer.wf(),
        capturer.width * 4 <= u32::MAX,
        capturer.conversion(format, pitch, raw) is Ok,
        data@ == capturer.frame_after_reading(format, pitch, raw, before),
    ensures
        (VideoFrame::CpuBgra {
            width: capturer.width,
            height: capturer.height,
            stride: (capturer.width * 4) as u32,
            data,
        }).is_packed(capturer.width, capturer.height),
{
    capturer.lemma_size_fits();
    let w = capturer.width as int;
    let h = capturer.height as int;
    assert(w * h * 4 == h * (w * 4)) by (nonlinear_arith);
}

/// No change goes unnoticed over several captures into the same buffer: where the frame differs in
/// the end from what it was when the marks were last drained, the tile that holds the byte is
/// marked.
///
/// This does not cover the capture loop as a whole, in which captures take turns with two buffers:
/// there a frame is compared with the one before the last published frame.
pub proof fn law_every_change_stays_marked(
    capturer: Capturer,
    readings: Seq<Reading>,
    before: Seq<u8>,
    i: int,
)
    requires
        0 <= i < capturer.frame_size(),
        before.len() == capturer.frame_size(),
        forall|k: int| 0 <= k < readings.len() ==> readable(capturer, #[trigger] readings[k]),
        after_readings(capturer, readings, before, Set::empty()).0[i] != before[i],
    ensures
        after_readings(capturer, readings, before, Set::empty()).1.contains(
            crate::kms::pixel_format::tile_of_byte(capturer.width as int, i),
        ),
    decreases readings.len(),
{
    if readings.len() > 0 {
        let earlier = readings.drop_last();
        let last = readings.last();
        let (frame, marked) = after_readings(capturer, earlier, before, Set::empty());
        let after = frame_after(capturer, last, frame);
        let tile = crate::kms::pixel_format::tile_of_byte(capturer.width as int, i);
        law_frames_keep_their_size(capturer, earlier, before, Set::empty());
        assert(readable(capturer, readings[readings.len() - 1]));
        if after[i] != frame[i] {
            match last {
                Reading::Mapped { format, pitch, raw } => {
                    law_every_change_is_marked(capturer, format, pitch, raw, frame, marked, i);
                },
                Reading::ReadBack { read } => {
                    assert(frame[i] != read[i]);
                },
            }
        } else {
            law_every_change_stays_marked(capturer, earlier, before, i);
            assert(marked.contains(tile));
        }
    }
}

/// Redrawing is enough after several captures into the same buffer too: a viewer that shows the
/// frame as it was when the marks were last drained, and redraws every pixel of the rectangles
/// drained now, shows the frame as it is now.
///
/// This does not cover the capture loop as a whole, in which captures take turns with two buffers
/// once frames are published.
pub proof fn law_redrawing_catches_up(
    capturer: Capturer,
    readings: Seq<Reading>,
    shown: Seq<u8>,
    i: int,
)
    requires
        capturer.width <= 65536,
        capturer.height <= 65536,
        0 <= i < capturer.frame_size(),
        shown.len() == capturer.frame_size(),
        forall|k: int| 0 <= k < readings.len() ==> readable(capturer, #[trigger] readings[k]),
    ensures
        ({
            let width = capturer.width as int;
            let height = capturer.height as int;
            let (frame, marked) = after_readings(capturer, readings, shown, Set::empty());
            let rects = crate::frame_diff::rects_of(marked, width, height);
            ||| frame[i] == shown[i]
            ||| exists|k: int|
                0 <= k < rects.len() && (#[trigger] rects[k]).holds(
                    (i / 4) % width,
                    (i / 4) / width,
                )
        }),
{
    let width = capturer.width as int;
    let height = capturer.height as int;
    let (frame, marked) = after_readings(capturer, readings, shown, Set::empty());
    lemma_byte_place(width, height, i);
    if frame[i] != shown[i] {
        law_every_change_stays_marked(capturer, readings, shown, i);
        crate::frame_diff::law_drain_reports_exactly_the_dirty_pixels(
            marked,
            width,
            height,
            (i / 4) % width,
            (i / 4) / width,
        );
    }
}

/// The video driver can be asked about every captured frame: a frame that was captured from a
/// framebuffer lies in as many buffers, and has as many planes, as a probe takes, and every plane
/// names one of the buffers.
pub proof fn law_captured_frames_can_be_probed(info: PlanarFramebuffer, frame: DmabufFrame, k: int)
    requires
        info.buffers@[0] is Some,
        frame.objects@.len() == crate::kms::dmabuf::distinct_handles(info.buffers@, 4).len(),
        frame.planes@ == crate::kms::dmabuf::present_planes(info, 4),
        0 <= k < frame.planes@.len(),
    ensures
        1 <= frame.objects@.len() <= 4,
        1 <= frame.planes@.len() <= 4,
        frame.planes@[k].object_index < frame.objects@.len(),
{
    crate::kms::dmabuf::law_captured_counts_are_in_range(info);
    crate::kms::dmabuf::law_planes_lie_in_their_own_buffers(info, 4, k);
}

/// A moment of a capture: the capturer, and the step that is to be done.
pub struct Moment {
    pub capturer: Capturer,
    pub step: CaptureStep,
}

/// Whether the moments follow each other in a capture, each led to by some answer of the device to
/// the step before.
pub open spec fn in_turn(moments: Seq<Moment>, with_tiles: bool) -> bool
    decreases moments.len(),
{
    moments.len() <= 1 || {
        let earlier = moments.drop_last();
        &&& in_turn(earlier, with_tiles)
        &&& earlier.last().capturer.leads_to(
            earlier.last().step,
            moments.last().capturer,
            moments.last().step,
            with_tiles,
        )
    }
}

/// Whether the moments are those of a capture by the given capturer from its start on.
pub open spec fn is_capture(
    capturer: Capturer,
    current_fb: Option<u32>,
    force: bool,
    moments: Seq<Moment>,
    with_tiles: bool,
) -> bool {
    &&& moments.len() > 0
    &&& moments[0].capturer == capturer.after_start(current_fb, force)
    &&& moments[0].step == capturer.start_step(current_fb, force)
    &&& in_turn(moments, with_tiles)
}

/// A forced capture for which no tiles are kept never ends without a frame: if it does not fail, it
/// finishes with a new one, whatever the device answers.
pub proof fn law_forced_capture_ends_with_a_frame(
    capturer: Capturer,
    current_fb: Option<u32>,
    moments: Seq<Moment>,
)
    requires
        is_capture(capturer, current_fb, true, moments, false),
    ensures
        moments.last().step matches CaptureStep::Finished { captured } ==> captured,
    decreases moments.len(),
{
    if moments.len() > 1 {
        let earlier = moments.drop_last();
        assert(earlier[0] == moments[0]);
        law_forced_capture_ends_with_a_frame(capturer, current_fb, earlier);
    }
}

/// Every capture ends: each answer of the device brings it closer to its end, so that it never asks
/// more than eleven questions.
pub proof fn law_every_capture_ends(
    capturer: Capturer,
    current_fb: Option<u32>,
    force: bool,
    moments: Seq<Moment>,
    with_tiles: bool,
)
    requires
        is_capture(capturer, current_fb, force, moments, with_tiles),
    ensures
        moments.len() - 1 + crate::kms::capture_steps::rank(moments.last().step) <= 11,
    decreases moments.len(),
{
    if moments.len() > 1 {
        let earlier = moments.drop_last();
        assert(earlier[0] == moments[0]);
        law_every_capture_ends(capturer, current_fb, force, earlier, with_tiles);
    }
}

/// Every drained rectangle is worth redrawing: if nothing was marked before a capture that copies
/// tile by tile, each rectangle drained after it holds a pixel of which a byte changed.
pub proof fn law_drained_rects_hold_changes(
    capturer: Capturer,
    format: PixelFormat,
    pitch: u32,
    raw: Seq<u8>,
    before: Seq<u8>,
    k: int,
)
    requires
        capturer.width <= 65536,
        capturer.height <= 65536,
        format is Xrgb8888 || format is Argb8888,
        before.len() == capturer.width * capturer.height * 4,
        0 <= k < crate::frame_diff::rects_of(
            capturer.marks_after_reading(format, pitch, raw, before, Set::empty()),
            capturer.width as int,
            capturer.height as int,
        ).len(),
    ensures
        ({
            let width = capturer.width as int;
            let height = capturer.height as int;
            let after = capturer.frame_after_reading(format, pitch, raw, before);
            let rects = crate::frame_diff::rects_of(
                capturer.marks_after_reading(format, pitch, raw, before, Set::empty()),
                width,
                height,
            );
            exists|i: int|
                0 <= i < before.len() && #[trigger] before[i] != after[i] && rects[k].holds(
                    (i / 4) % width,
                    (i / 4) / width,
                )
        }),
{
    let width = capturer.width as int;
    let height = capturer.height as int;
    let w = width;
    let h = height;
    assert(0 <= w * h) by (nonlinear_arith)
        requires
            0 <= w,
            0 <= h,
    ;
    let after = capturer.frame_after_reading(format, pitch, raw, before);
    let marks = capturer.marks_after_reading(format, pitch, raw, before, Set::empty());
    let tile = crate::frame_diff::lemma_drained_rect_is_a_marked_tile(marks, width, height, k);
    assert(marks.contains(tile));
    let i = choose|i: int|
        0 <= i < after.len() && #[trigger] before[i] != after[i]
            && crate::kms::pixel_format::tile_of_byte(width, i) == tile;
    assert(before[i] != after[i]);
    lemma_byte_place(width, height, i);
    crate::frame_diff::lemma_drained_rect_holds_its_tile(
        marks,
        width,
        height,
        k,
        tile,
        (i / 4) % width,
        (i / 4) / width,
    );
}

/// The same of what the video driver reads back.
pub proof fn law_drained_rects_hold_changes_read_back(
    capturer: Capturer,
    read: Seq<u8>,
    before: Seq<u8>,
    k: int,
)
    requires
        capturer.width <= 65536,
        capturer.height <= 65536,
        before.len() == capturer.width * capturer.height * 4,
        read.len() == before.len(),
        0 <= k < crate::frame_diff::rects_of(
            capturer.marks_after_readback(read, before, Set::empty()),
            capturer.width as int,
            capturer.height as int,
        ).len(),
    ensures
        ({
            let width = capturer.width as int;
            let height = capturer.height as int;
            let rects = crate::frame_diff::rects_of(
                capturer.marks_after_readback(read, before, Set::empty()),
                width,
                height,
            );
            exists|i: int|
                0 <= i < before.len() && #[trigger] before[i] != read[i] && rects[k].holds(
                    (i / 4) % width,
                    (i / 4) / width,
                )
        }),
{
    let width = capturer.width as int;
    let height = capturer.height as int;
    let marks = capturer.marks_after_readback(read, before, Set::empty());
    let tile = crate::frame_diff::lemma_drained_rect_is_a_marked_tile(marks, width, height, k);
    assert(marks.contains(tile));
    let i = choose|i: int|
        0 <= i < read.len() && #[trigger] before[i] != read[i]
            && crate::kms::pixel_format::tile_of_byte(width, i) == tile;
    assert(before[i] != read[i]);
    lemma_byte_place(width, height, i);
    crate::frame_diff::lemma_drained_rect_holds_its_tile(
        marks,
        width,
        height,
        k,
        tile,
        (i / 4) % width,
        (i / 4) / width,
    );
}

/// A mark stays until it is drained: no capture takes one back.
pub proof fn law_captures_take_no_mark_back(
    capturer: Capturer,
    reading: Reading,
    before: Seq<u8>,
    marks: Set<int>,
    tile: int,
)
    requires
        marks.contains(tile),
    ensures
        marks_after(capturer, reading, before, marks).contains(tile),
{
}

} // verus!
