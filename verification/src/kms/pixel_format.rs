//! Conversion of mapped framebuffers to packed BGRA.

use crate::frame_diff::DirtyTiles;
use crate::frame_diff::TILE_SIZE;
use crate::kms::fourcc::PixelFormat;
use vstd::prelude::*;
use vstd::arithmetic::div_mod::lemma_fundamental_div_mod_converse;

verus! {

/// Why a framebuffer could not be converted.
#[derive(Clone, Copy, Debug, PartialEq, Eq, Structural)]
pub enum ConvertError {
    /// The pixel format has no conversion.
    Unsupported(u32),
    /// The buffer ends before its last row does.
    Truncated,
}

/// Bytes per pixel of a supported format.
pub open spec fn bytes_per_pixel(format: PixelFormat) -> int {
    match format {
        PixelFormat::Rgb565 => 2,
        _ => 4,
    }
}

/// The four bytes blue, green, red, alpha of the pixel that starts at `at`.
pub open spec fn bgra_of(format: PixelFormat, raw: Seq<u8>, at: int) -> Seq<u8> {
    match format {
        PixelFormat::Xbgr8888 | PixelFormat::Abgr8888 => seq![
            raw[at + 2],
            raw[at + 1],
            raw[at],
            raw[at + 3],
        ],
        PixelFormat::Rgb565 => {
            let value = raw[at] + 256 * raw[at + 1];
            let red = value / 2048;
            let green = value / 32 % 64;
            let blue = value % 32;
            seq![
                (blue * 8 + blue / 4) as u8,
                (green * 4 + green / 16) as u8,
                (red * 8 + red / 4) as u8,
                255u8,
            ]
        },
        _ => seq![raw[at], raw[at + 1], raw[at + 2], raw[at + 3]],
    }
}

/// The frame in a buffer whose rows start `pitch` bytes apart, as packed BGRA: pixel by pixel, row
/// by row, four bytes each, with nothing between rows.
pub open spec fn bgra_frame(
    format: PixelFormat,
    raw: Seq<u8>,
    width: int,
    height: int,
    pitch: int,
) -> Seq<u8> {
    Seq::new(
        (width * height * 4) as nat,
        |i: int|
            bgra_of(
                format,
                raw,
                (i / 4) / width * pitch + (i / 4) % width * bytes_per_pixel(format),
            )[i % 4],
    )
}

/// Whether a buffer of `len` bytes holds every pixel of the frame.
pub open spec fn holds_frame(
    format: PixelFormat,
    len: int,
    width: int,
    height: int,
    pitch: int,
) -> bool {
    width == 0 || height == 0 || (height - 1) * pitch + width * bytes_per_pixel(format) <= len
}

/// The tile that holds byte `i` of a packed BGRA frame.
pub open spec fn tile_of_byte(width: int, i: int) -> int {
    crate::frame_diff::tile_of_pixel(width, (i / 4) % width, (i / 4) / width)
}

/// The tiles in which two packed BGRA frames of the same size differ.
pub open spec fn differing_tiles(before: Seq<u8>, after: Seq<u8>, width: int) -> Set<int> {
    Set::new(
        |tile: int|
            exists|i: int|
                0 <= i < after.len() && #[trigger] before[i] != after[i] && tile_of_byte(width, i)
                    == tile,
    )
}

/// Whether a buffer of the format already holds BGRA bytes, so that rows can be copied as they
/// are.
pub fn is_direct_copy(format: PixelFormat) -> (direct: bool)
    ensures
        direct == (format == PixelFormat::Xrgb8888 || format == PixelFormat::Argb8888),
{
    match format {
        PixelFormat::Xrgb8888 => true,
        PixelFormat::Argb8888 => true,
        _ => false,
    }
}

/// Whether a buffer of `len` bytes holds every pixel of the frame.
pub(crate) fn check_holds_frame(len: usize, width: u32, height: u32, pitch: u32, bpp: u32) -> (holds: bool)
    requires
        bpp <= 4,
    ensures
        holds == (width == 0 || height == 0 || (height - 1) * pitch + width * bpp <= len),
{
    if width == 0 || height == 0 {
        return true;
    }
    assert(0 <= (height - 1) * pitch <= 0xffff_ffff * 0xffff_ffff) by (nonlinear_arith)
        requires
            1 <= height <= 0xffff_ffff,
            0 <= pitch <= 0xffff_ffff,
    ;
    assert(0 <= width * bpp <= 0xffff_ffff * 4) by (nonlinear_arith)
        requires
            0 <= width <= 0xffff_ffff,
            0 <= bpp <= 4,
    ;
    let rows: u128 = (height - 1) as u128 * pitch as u128;
    let last: u128 = width as u128 * bpp as u128;
    rows + last <= len as u128
}

/// The BGRA bytes of one pixel.
fn bgra_pixel(format: PixelFormat, raw: &[u8], at: usize) -> (bgra: [u8; 4])
    requires
        at + bytes_per_pixel(format) <= raw@.len(),
    ensures
        bgra@ == bgra_of(format, raw@, at as int),
{
    assert(raw.len() == raw@.len());
    let bgra: [u8; 4] = match format {
        PixelFormat::Xbgr8888 | PixelFormat::Abgr8888 => [
            raw[at + 2],
            raw[at + 1],
            raw[at],
            raw[at + 3],
        ],
        PixelFormat::Rgb565 => {
            let value: u32 = raw[at] as u32 + 256 * raw[at + 1] as u32;
            let red: u32 = value / 2048;
            let green: u32 = value / 32 % 64;
            let blue: u32 = value % 32;
            [
                (blue * 8 + blue / 4) as u8,
                (green * 4 + green / 16) as u8,
                (red * 8 + red / 4) as u8,
                255u8,
            ]
        },
        _ => [raw[at], raw[at + 1], raw[at + 2], raw[at + 3]],
    };
    assert(bgra@ =~= bgra_of(format, raw@, at as int));
    bgra
}

/// Converts a mapped framebuffer to packed BGRA, which replaces what `dst` held. A buffer that
/// cannot be converted leaves `dst` as it was.
pub fn convert_to_bgra_into(
    dst: &mut Vec<u8>,
    raw: &[u8],
    width: u32,
    height: u32,
    pitch: u32,
    format: PixelFormat,
) -> (result: Result<(), ConvertError>)
    ensures
        result == (match format {
            PixelFormat::Other(code) => Err::<(), ConvertError>(ConvertError::Unsupported(code)),
            _ => if holds_frame(
                format,
                raw@.len() as int,
                width as int,
                height as int,
                pitch as int,
            ) {
                Ok(())
            } else {
                Err(ConvertError::Truncated)
            },
        }),
        result is Ok ==> final(dst)@ == bgra_frame(
            format,
            raw@,
            width as int,
            height as int,
            pitch as int,
        ),
        result is Err ==> final(dst)@ == old(dst)@,
{
    let len: usize = raw.len();
    let bpp: u32 = match format {
        PixelFormat::Other(code) => {
            return Err(ConvertError::Unsupported(code));
        },
        PixelFormat::Rgb565 => 2,
        _ => 4,
    };
    if !check_holds_frame(len, width, height, pitch, bpp) {
        return Err(ConvertError::Truncated);
    }
    let ghost w = width as int;
    let ghost h = height as int;
    let ghost frame = bgra_frame(format, raw@, w, h, pitch as int);
    dst.clear();
    let mut y: u32 = 0;
    assert(dst@ =~= frame.take(0));
    if width > 0 {
        while y < height
            invariant
                0 < width == w,
                height == h,
                y <= height,
                len == raw@.len(),
                bpp == bytes_per_pixel(format),
                holds_frame(format, raw@.len() as int, w, h, pitch as int),
                frame == bgra_frame(format, raw@, w, h, pitch as int),
                dst@.len() == w * y * 4,
                dst@ == frame.take(w * y * 4),
            decreases height - y,
        {
            let ghost row = y as int;
            assert(0 <= row * pitch <= (h - 1) * pitch) by (nonlinear_arith)
                requires
                    0 <= row < h,
                    0 <= pitch,
            ;
            assert(0 <= w * bpp) by (nonlinear_arith)
                requires
                    0 <= w,
                    0 <= bpp,
            ;
            let start: usize = y as usize * pitch as usize;
            let mut x: u32 = 0;
            while x < width
                invariant
                    0 < width == w,
                    height == h,
                    y < height,
                    row == y,
                    x <= width,
                    len == raw@.len(),
                    start == row * pitch,
                    bpp == bytes_per_pixel(format),
                    start + w * bpp <= raw@.len(),
                    frame == bgra_frame(format, raw@, w, h, pitch as int),
                    dst@.len() == (w * row + x) * 4,
                    dst@ == frame.take((w * row + x) * 4),
                decreases width - x,
            {
                let ghost p = w * row + x;
                assert(0 <= x * bpp && x * bpp + bpp <= w * bpp) by (nonlinear_arith)
                    requires
                        0 <= x < w,
                        0 <= bpp,
                ;
                let at: usize = start + x as usize * bpp as usize;
                let bgra: [u8; 4] = bgra_pixel(format, raw, at);
                dst.push(bgra[0]);
                dst.push(bgra[1]);
                dst.push(bgra[2]);
                dst.push(bgra[3]);
                proof {
                    assert(p == row * w + x) by (nonlinear_arith)
                        requires
                            p == w * row + x,
                    ;
                    lemma_fundamental_div_mod_converse(p, w, row, x as int);
                    assert(p + 1 <= w * h) by (nonlinear_arith)
                        requires
                            p == w * row + x,
                            x < w,
                            row < h,
                    ;
                    assert(p >= 0) by (nonlinear_arith)
                        requires
                            p == w * row + x,
                            x >= 0,
                            row >= 0,
                            w >= 0,
                    ;
                    assert forall|k: int| 0 <= k < 4 implies frame[p * 4 + k] == bgra@[k] by {
                        assert((p * 4 + k) / 4 == p);
                        assert((p * 4 + k) % 4 == k);
                    }
                    assert(dst@ =~= frame.take((p + 1) * 4));
                }
                x += 1;
            }
            assert(w * row + w == w * (row + 1)) by (nonlinear_arith);
            y += 1;
        }
    }
    proof {
        assert(w == 0 || h == 0 ==> w * h == 0) by (nonlinear_arith);
        assert(dst@ =~= frame);
    }
    Ok(())
}

/// Makes `len` bytes of `dst` equal to bytes of `raw`. Returns whether any of them differed.
fn refresh(dst: &mut Vec<u8>, at: usize, raw: &[u8], from: usize, len: usize) -> (changed: bool)
    requires
        at + len <= old(dst)@.len(),
        from + len <= raw@.len(),
    ensures
        final(dst)@.len() == old(dst)@.len(),
        forall|i: int|
            at <= i < at + len ==> #[trigger] final(dst)@[i] == raw@[from + (i - at)],
        forall|i: int|
            (0 <= i < at || at + len <= i < old(dst)@.len()) ==> #[trigger] final(dst)@[i] == old(dst)@[i],
        changed == exists|i: int|
            at <= i < at + len && #[trigger] old(dst)@[i] != raw@[from + (i - at)],
{
    assert(raw.len() == raw@.len());
    assert(dst.len() == dst@.len());
    let mut k: usize = 0;
    while k < len && dst[at + k] == raw[from + k]
        invariant
            k <= len,
            dst@ == old(dst)@,
            at + len <= dst@.len() <= usize::MAX,
            from + len <= raw@.len() <= usize::MAX,
            forall|i: int| at <= i < at + k ==> #[trigger] dst@[i] == raw@[from + (i - at)],
        decreases len - k,
    {
        k += 1;
    }
    if k == len {
        return false;
    }
    assert(old(dst)@[at + k] != raw@[from + ((at + k) - at)]);
    while k < len
        invariant
            k <= len,
            dst@.len() == old(dst)@.len(),
            at + len <= dst@.len() <= usize::MAX,
            from + len <= raw@.len() <= usize::MAX,
            forall|i: int| at <= i < at + k ==> #[trigger] dst@[i] == raw@[from + (i - at)],
            forall|i: int|
                (0 <= i < at || at + k <= i < dst@.len()) ==> #[trigger] dst@[i] == old(dst)@[i],
        decreases len - k,
    {
        let byte: u8 = raw[from + k];
        dst[at + k] = byte;
        k += 1;
    }
    true
}

/// The tiles in which the first `k` bytes of two packed BGRA frames differ.
spec fn differing_below(before: Seq<u8>, after: Seq<u8>, width: int, k: int) -> Set<int> {
    Set::new(
        |tile: int|
            exists|i: int|
                0 <= i < k && #[trigger] before[i] != after[i] && tile_of_byte(width, i) == tile,
    )
}

/// Where byte `i` of a packed frame lies, for a byte in the part of row `y` that runs from column
/// `x0` for `cols` columns of one tile.
proof fn lemma_segment_byte(
    raw: Seq<u8>,
    width: int,
    height: int,
    pitch: int,
    y: int,
    x0: int,
    cols: int,
    i: int,
)
    requires
        0 <= y < height,
        0 <= x0,
        x0 % 64 == 0,
        0 < cols <= 64,
        x0 + cols <= width,
        (width * y + x0) * 4 <= i < (width * y + x0 + cols) * 4,
    ensures
        0 <= i < width * height * 4,
        tile_of_byte(width, i) == crate::frame_diff::tile_index(width, x0 / 64, y / 64),
        bgra_frame(PixelFormat::Xrgb8888, raw, width, height, pitch)[i] == raw[y * pitch + x0 * 4
            + (i - (width * y + x0) * 4)],
{
    let p = i / 4;
    let d = p - (width * y + x0);
    assert(0 <= d < cols);
    assert(p == y * width + (x0 + d)) by (nonlinear_arith)
        requires
            p == width * y + x0 + d,
    ;
    lemma_fundamental_div_mod_converse(p, width, y, x0 + d);
    assert(p < width * height) by (nonlinear_arith)
        requires
            p < y * width + width,
            y + 1 <= height,
            0 <= width,
    {
        assert((y + 1) * width <= height * width);
        assert((y + 1) * width == y * width + width);
    }
    assert(p >= 0) by (nonlinear_arith)
        requires
            p == y * width + (x0 + d),
            x0 + d >= 0,
            y >= 0,
            width >= 0,
    ;
}

/// Brings a packed BGRA frame up to date with a mapped framebuffer that already holds BGRA bytes.
/// Only what changed is copied, and the tiles that changed are marked. Returns whether anything
/// changed.
pub fn copy_rows_incremental(
    dst: &mut Vec<u8>,
    raw: &[u8],
    width: u32,
    height: u32,
    pitch: u32,
    dirty_tiles: &mut DirtyTiles,
) -> (changed: bool)
    requires
        old(dst)@.len() == width * height * 4,
        holds_frame(
            PixelFormat::Xrgb8888,
            raw@.len() as int,
            width as int,
            height as int,
            pitch as int,
        ),
        old(dirty_tiles).wf(),
        old(dirty_tiles).screen_width() == width,
        old(dirty_tiles).screen_height() == height,
    ensures
        final(dst)@ == bgra_frame(
            PixelFormat::Xrgb8888,
            raw@,
            width as int,
            height as int,
            pitch as int,
        ),
        changed == (final(dst)@ != old(dst)@),
        final(dirty_tiles).wf(),
        final(dirty_tiles).screen_width() == width,
        final(dirty_tiles).screen_height() == height,
        final(dirty_tiles)@ == old(dirty_tiles)@.union(
            differing_tiles(old(dst)@, final(dst)@, width as int),
        ),
{
    let ghost w = width as int;
    let ghost h = height as int;
    let ghost before = dst@;
    let ghost marked = dirty_tiles@;
    let ghost frame = bgra_frame(PixelFormat::Xrgb8888, raw@, w, h, pitch as int);
    let raw_len: usize = raw.len();
    let dst_len: usize = dst.len();
    let mut changed: bool = false;
    proof {
        dirty_tiles.lemma_tile_count_fits();
        assert(dirty_tiles@ =~= marked.union(differing_below(before, frame, w, 0)));
    }
    let tiles_x: u32 = width / TILE_SIZE + (if width % TILE_SIZE == 0 { 0 } else { 1 });
    let mut y: u32 = 0;
    while y < height && width > 0
        invariant
            width == w,
            height == h,
            tiles_x == crate::frame_diff::tile_span(w),
            y <= height,
            raw_len == raw@.len(),
            dst_len == dst@.len(),
            holds_frame(PixelFormat::Xrgb8888, raw@.len() as int, w, h, pitch as int),
            crate::frame_diff::tile_count(w, h) <= u32::MAX,
            frame == bgra_frame(PixelFormat::Xrgb8888, raw@, w, h, pitch as int),
            before.len() == w * h * 4,
            dst@.len() == w * h * 4,
            dirty_tiles.wf(),
            dirty_tiles.screen_width() == width,
            dirty_tiles.screen_height() == height,
            forall|i: int| 0 <= i < w * y * 4 ==> #[trigger] dst@[i] == frame[i],
            forall|i: int| w * y * 4 <= i < dst@.len() ==> #[trigger] dst@[i] == before[i],
            dirty_tiles@ == marked.union(differing_below(before, frame, w, w * y * 4)),
            changed == exists|i: int|
                0 <= i < w * y * 4 && #[trigger] before[i] != frame[i],
        decreases height - y,
    {
        let ghost row = y as int;
        let ghost cols = crate::frame_diff::tile_span(w);
        assert(0 <= row * pitch <= (h - 1) * pitch) by (nonlinear_arith)
            requires
                0 <= row < h,
                0 <= pitch,
        ;
        assert(0 <= w * row && w * row + w <= w * h) by (nonlinear_arith)
            requires
                0 <= row < h,
                0 <= w,
        ;
        let row_from: usize = y as usize * pitch as usize;
        let row_at: usize = width as usize * y as usize * 4;
        let ty: u32 = y / TILE_SIZE;
        let mut tx: u32 = 0;
        let mut x0: u32 = 0;
        while x0 < width
            invariant
                width == w,
                height == h,
                tiles_x == cols == crate::frame_diff::tile_span(w),
                y < height,
                row == y,
                ty == y / 64,
                tx <= tiles_x,
                x0 <= width,
                x0 < width ==> x0 == tx * 64,
                raw_len == raw@.len(),
                dst_len == dst@.len(),
                row_from == row * pitch,
                row_at == w * row * 4,
                row_from + w * 4 <= raw@.len(),
                w * row + w <= w * h,
                0 <= w * row,
                crate::frame_diff::tile_count(w, h) <= u32::MAX,
                frame == bgra_frame(PixelFormat::Xrgb8888, raw@, w, h, pitch as int),
                before.len() == w * h * 4,
                dst@.len() == w * h * 4,
                dirty_tiles.wf(),
                dirty_tiles.screen_width() == width,
                dirty_tiles.screen_height() == height,
                forall|i: int| 0 <= i < (w * row + x0) * 4 ==> #[trigger] dst@[i] == frame[i],
                forall|i: int|
                    (w * row + x0) * 4 <= i < dst@.len() ==> #[trigger] dst@[i] == before[i],
                dirty_tiles@ == marked.union(
                    differing_below(before, frame, w, (w * row + x0) * 4),
                ),
                changed == exists|i: int|
                    0 <= i < (w * row + x0) * 4 && #[trigger] before[i] != frame[i],
            decreases width - x0,
        {
            let rest: u32 = width - x0;
            let seg: u32 = if rest < TILE_SIZE { rest } else { TILE_SIZE };
            let ghost k = (w * row + x0) * 4;
            let ghost end = k + seg * 4;
            let at: usize = row_at + x0 as usize * 4;
            let from: usize = row_from + x0 as usize * 4;
            let ghost mid = dst@;
            let ghost marks = dirty_tiles@;
            let ghost was_changed = changed;
            let ghost tile = crate::frame_diff::tile_index(w, tx as int, ty as int);
            assert forall|i: int| k <= i < end implies #[trigger] frame[i] == raw@[from + (i - at)]
                && tile_of_byte(w, i) == tile by {
                lemma_segment_byte(raw@, w, h, pitch as int, row, x0 as int, seg as int, i);
            }
            let differs: bool = refresh(dst, at, raw, from, seg as usize * 4);
            proof {
                assert(differs == exists|i: int|
                    k <= i < end && #[trigger] before[i] != frame[i]) by {
                    if differs {
                        let i = choose|i: int|
                            at <= i < at + seg * 4 && #[trigger] mid[i] != raw@[from + (i - at)];
                        assert(before[i] != frame[i]);
                    }
                    if exists|i: int| k <= i < end && #[trigger] before[i] != frame[i] {
                        let i = choose|i: int| k <= i < end && #[trigger] before[i] != frame[i];
                        assert(mid[i] != raw@[from + (i - at)]);
                    }
                }
            }
            if differs {
                proof {
                    assert(0 <= ty * cols && ty * cols + tx < cols * crate::frame_diff::tile_span(h))
                        by (nonlinear_arith)
                        requires
                            0 <= ty < crate::frame_diff::tile_span(h),
                            0 <= tx < cols,
                    ;
                }
                let index: u32 = ty * tiles_x + tx;
                dirty_tiles.set(index as usize);
                changed = true;
            }
            proof {
                let goal = marked.union(differing_below(before, frame, w, end));
                assert forall|t: int| dirty_tiles@.contains(t) == goal.contains(t) by {
                    if differing_below(before, frame, w, k).contains(t) {
                        let i = choose|i: int|
                            0 <= i < k && #[trigger] before[i] != frame[i] && tile_of_byte(w, i)
                                == t;
                        assert(0 <= i < end && before[i] != frame[i]);
                    }
                    if differing_below(before, frame, w, end).contains(t) {
                        let i = choose|i: int|
                            0 <= i < end && #[trigger] before[i] != frame[i] && tile_of_byte(w, i)
                                == t;
                        if i >= k {
                            assert(frame[i] == raw@[from + (i - at)]);
                        }
                    }
                    if differs && t == tile {
                        let i = choose|i: int| k <= i < end && #[trigger] before[i] != frame[i];
                        assert(frame[i] == raw@[from + (i - at)]);
                        assert(0 <= i < end && before[i] != frame[i]);
                    }
                }
                assert(dirty_tiles@ =~= goal);
                assert(changed == exists|i: int|
                    0 <= i < end && #[trigger] before[i] != frame[i]) by {
                    if was_changed {
                        let i = choose|i: int| 0 <= i < k && #[trigger] before[i] != frame[i];
                        assert(0 <= i < end && before[i] != frame[i]);
                    }
                    if differs {
                        let i = choose|i: int| k <= i < end && #[trigger] before[i] != frame[i];
                        assert(0 <= i < end && before[i] != frame[i]);
                    }
                }
                assert forall|i: int| 0 <= i < end implies #[trigger] dst@[i] == frame[i] by {
                    if i < k {
                        assert(mid[i] == frame[i]);
                    } else {
                        assert(frame[i] == raw@[from + (i - at)]);
                    }
                }
                assert forall|i: int| end <= i < dst@.len() implies #[trigger] dst@[i]
                    == before[i] by {
                    assert(mid[i] == before[i]);
                }
            }
            x0 = x0 + seg;
            tx = tx + 1;
        }
        assert(w * row + w == w * (row + 1)) by (nonlinear_arith);
        y = y + 1;
    }
    proof {
        assert(w == 0 || h == 0 ==> w * h == 0) by (nonlinear_arith);
        if w == 0 {
            assert(w * y == 0) by (nonlinear_arith)
                requires
                    w == 0,
            ;
        }
        assert(dst@ =~= frame);
        assert(differing_below(before, frame, w, w * h * 4) =~= differing_tiles(before, frame, w));
        if changed {
            let i = choose|i: int| 0 <= i < w * h * 4 && #[trigger] before[i] != frame[i];
            assert(before[i] != dst@[i]);
        } else {
            assert(before =~= frame);
        }
    }
    changed
}

/// Brings one packed BGRA frame up to date with another. Only what changed is copied, and the
/// tiles that changed are marked. Returns whether anything changed.
pub fn copy_bgra_rows_incremental(
    dst: &mut Vec<u8>,
    src: &Vec<u8>,
    width: u32,
    height: u32,
    dirty_tiles: &mut DirtyTiles,
) -> (changed: bool)
    requires
        width * height * 4 <= u32::MAX,
        old(dst)@.len() == width * height * 4,
        src@.len() == width * height * 4,
        old(dirty_tiles).wf(),
        old(dirty_tiles).screen_width() == width,
        old(dirty_tiles).screen_height() == height,
    ensures
        final(dst)@ == src@,
        changed == (src@ != old(dst)@),
        final(dirty_tiles).wf(),
        final(dirty_tiles).screen_width() == width,
        final(dirty_tiles).screen_height() == height,
        final(dirty_tiles)@ == old(dirty_tiles)@.union(
            differing_tiles(old(dst)@, src@, width as int),
        ),
{
    if height == 0 {
        assert(src@ =~= dst@);
        assert(dirty_tiles@ =~= dirty_tiles@.union(differing_tiles(dst@, src@, width as int)));
        return false;
    }
    proof {
        let w = width as int;
        let h = height as int;
        assert(w <= w * h) by (nonlinear_arith)
            requires
                0 <= w,
                1 <= h,
        ;
        assert((h - 1) * (w * 4) + w * 4 == w * h * 4) by (nonlinear_arith);
        lemma_packed_frame(src@, w, h);
    }
    copy_rows_incremental(dst, src.as_slice(), width, height, width * 4, dirty_tiles)
}

/// Whether there is a new frame when a packed BGRA frame is put in the place of what was there
/// before: something changed, as far as that can be told. It can be told if tiles are kept and
/// there was a frame of the same size before.
pub open spec fn is_new_frame(before: Seq<u8>, frame: Seq<u8>, with_tiles: bool) -> bool {
    !with_tiles || before.len() != frame.len() || frame != before
}

/// The marks that are left when a packed BGRA frame is put in the place of what was there before:
/// the tiles that changed, or all of them if there was no frame of the same size before.
pub open spec fn marks_after_replacing(
    before: Seq<u8>,
    frame: Seq<u8>,
    width: int,
    height: int,
    marks: Set<int>,
) -> Set<int> {
    if before.len() == frame.len() {
        marks.union(differing_tiles(before, frame, width))
    } else {
        marks.union(crate::frame_diff::all_tiles(width, height))
    }
}

/// Puts a packed BGRA frame in the place of what `dst` held, and marks the tiles that changed: tile
/// by tile, where tiles are kept and `dst` already holds a frame of the same size, and as a whole
/// otherwise. Returns whether there is a new frame.
pub fn replace_frame(
    dst: &mut Vec<u8>,
    frame: &Vec<u8>,
    width: u32,
    height: u32,
    dirty_tiles: Option<&mut DirtyTiles>,
) -> (captured: bool)
    requires
        width * height * 4 <= u32::MAX,
        frame@.len() == width * height * 4,
        dirty_tiles matches Some(tiles) ==> tiles.wf() && tiles.screen_width() == width
            && tiles.screen_height() == height,
    ensures
        final(dst)@ == frame@,
        captured == is_new_frame(old(dst)@, frame@, dirty_tiles is Some),
        dirty_tiles is Some ==> {
            &&& final(dirty_tiles->0).wf()
            &&& final(dirty_tiles->0).screen_width() == width
            &&& final(dirty_tiles->0).screen_height() == height
            &&& final(dirty_tiles->0)@ == marks_after_replacing(
                old(dst)@,
                frame@,
                width as int,
                height as int,
                (*dirty_tiles->0)@,
            )
        },
{
    match dirty_tiles {
        Some(tiles) => {
            if dst.len() == frame.len() {
                return copy_bgra_rows_incremental(dst, frame, width, height, tiles);
            }
            tiles.set_all();
        },
        None => {},
    }
    dst.clear();
    dst.extend_from_slice(frame.as_slice());
    assert(dst@ =~= frame@);
    true
}

/// A packed BGRA frame read with a row distance of four bytes per column is itself.
proof fn lemma_packed_frame(src: Seq<u8>, width: int, height: int)
    requires
        0 <= width,
        0 <= height,
        src.len() == width * height * 4,
    ensures
        bgra_frame(PixelFormat::Xrgb8888, src, width, height, width * 4) == src,
{
    let frame = bgra_frame(PixelFormat::Xrgb8888, src, width, height, width * 4);
    assert(0 <= width * height) by (nonlinear_arith)
        requires
            0 <= width,
            0 <= height,
    ;
    assert forall|i: int| 0 <= i < frame.len() implies #[trigger] frame[i] == src[i] by {
        let p = i / 4;
        assert(width > 0) by (nonlinear_arith)
            requires
                0 < width * height,
                0 <= width,
        ;
        vstd::arithmetic::div_mod::lemma_fundamental_div_mod(p, width);
        assert(p / width * (width * 4) == (width * (p / width)) * 4) by (nonlinear_arith);
    }
    assert(frame =~= src);
}

/// The word of four bytes, the least one first, that starts at `at`.
pub open spec fn word_at(raw: Seq<u8>, at: int) -> int {
    raw[at] + 0x100 * raw[at + 1] + 0x1_0000 * raw[at + 2] + 0x100_0000 * raw[at + 3]
}

/// The word of two bytes, the least one first, that starts at `at`.
pub open spec fn half_word_at(raw: Seq<u8>, at: int) -> int {
    raw[at] + 0x100 * raw[at + 1]
}

proof fn lemma_word_bytes(a: u8, b: u8, c: u8, d: u8)
    ensures
        ({
            let word = a + 0x100 * b + 0x1_0000 * c + 0x100_0000 * d;
            &&& word % 0x100 == a
            &&& word / 0x100 % 0x100 == b
            &&& word / 0x1_0000 % 0x100 == c
            &&& word / 0x100_0000 == d
        }),
{
}

/// A conversion keeps the colours of every pixel. The pixel in column `x`, row `y` is a word in row
/// `y` of the buffer, of four bytes, or of two for the format with sixteen bits; its result is four
/// bytes: blue, green, red, and alpha or padding.
/// - In the formats named RGB with eight bits each, blue is in the low bits of the word, then green,
///   red, and alpha or padding.
/// - In those named BGR, red is in the low bits, then green, blue, and alpha or padding.
/// - In the format with sixteen bits, blue is in the five low bits, then green in six and red in
///   five. A component of five or six bits becomes the high bits of its byte, and its own high bits
///   fill up the rest. There is no alpha, and the result is opaque.
pub proof fn law_conversion_keeps_the_colours(
    format: PixelFormat,
    raw: Seq<u8>,
    width: int,
    height: int,
    pitch: int,
    x: int,
    y: int,
)
    requires
        !(format is Other),
        0 <= x < width,
        0 <= y < height,
    ensures
        ({
            let frame = bgra_frame(format, raw, width, height, pitch);
            let at = 4 * (y * width + x);
            let blue = frame[at];
            let green = frame[at + 1];
            let red = frame[at + 2];
            let alpha = frame[at + 3];
            let word = word_at(raw, y * pitch + x * 4);
            let half = half_word_at(raw, y * pitch + x * 2);
            &&& frame.len() == width * height * 4
            &&& 0 <= at && at + 4 <= frame.len()
            &&& format is Xrgb8888 || format is Argb8888 ==> {
                &&& blue == word % 0x100
                &&& green == word / 0x100 % 0x100
                &&& red == word / 0x1_0000 % 0x100
                &&& alpha == word / 0x100_0000
            }
            &&& format is Xbgr8888 || format is Abgr8888 ==> {
                &&& red == word % 0x100
                &&& green == word / 0x100 % 0x100
                &&& blue == word / 0x1_0000 % 0x100
                &&& alpha == word / 0x100_0000
            }
            &&& format is Rgb565 ==> {
                &&& blue / 8 == half % 32 && blue % 8 == half % 32 / 4
                &&& green / 4 == half / 32 % 64 && green % 4 == half / 32 % 64 / 16
                &&& red / 8 == half / 2048 && red % 8 == half / 2048 / 4
                &&& alpha == 255
            }
        }),
{
    let n = y * width + x;
    let at = 4 * n;
    let frame = bgra_frame(format, raw, width, height, pitch);
    assert(0 <= n < width * height) by (nonlinear_arith)
        requires
            n == y * width + x,
            0 <= x < width,
            0 <= y < height,
    ;
    lemma_fundamental_div_mod_converse(n, width, y, x);
    assert((at + 1) / 4 == n && (at + 2) / 4 == n && (at + 3) / 4 == n);
    let from = y * pitch + x * bytes_per_pixel(format);
    assert(frame[at] == bgra_of(format, raw, from)[0]);
    assert(frame[at + 1] == bgra_of(format, raw, from)[1]);
    assert(frame[at + 2] == bgra_of(format, raw, from)[2]);
    assert(frame[at + 3] == bgra_of(format, raw, from)[3]);
    lemma_word_bytes(raw[from], raw[from + 1], raw[from + 2], raw[from + 3]);
}

/// Two buffers that differ only in the name of their format, with alpha or with padding, give the
/// same frame.
pub proof fn law_padding_is_converted_like_alpha(
    raw: Seq<u8>,
    width: int,
    height: int,
    pitch: int,
)
    ensures
        bgra_frame(PixelFormat::Xrgb8888, raw, width, height, pitch) == bgra_frame(
            PixelFormat::Argb8888,
            raw,
            width,
            height,
            pitch,
        ),
        bgra_frame(PixelFormat::Xbgr8888, raw, width, height, pitch) == bgra_frame(
            PixelFormat::Abgr8888,
            raw,
            width,
            height,
            pitch,
        ),
{
    assert(bgra_frame(PixelFormat::Xrgb8888, raw, width, height, pitch) =~= bgra_frame(
        PixelFormat::Argb8888,
        raw,
        width,
        height,
        pitch,
    ));
    assert(bgra_frame(PixelFormat::Xbgr8888, raw, width, height, pitch) =~= bgra_frame(
        PixelFormat::Abgr8888,
        raw,
        width,
        height,
        pitch,
    ));
}

/// Where the pixel in column `x`, row `y` ends in a buffer: a pixel takes two bytes in the format with
/// sixteen bits, and four in the others.
pub open spec fn pixel_end(format: PixelFormat, pitch: int, x: int, y: int) -> int {
    if format is Rgb565 {
        y * pitch + x * 2 + 2
    } else {
        y * pitch + x * 4 + 4
    }
}

/// A buffer is long enough exactly if every pixel of the frame lies in it.
pub proof fn law_buffer_holds_exactly_its_pixels(
    format: PixelFormat,
    len: int,
    width: int,
    height: int,
    pitch: int,
)
    requires
        !(format is Other),
        0 <= width,
        0 <= height,
        0 <= pitch,
    ensures
        holds_frame(format, len, width, height, pitch) <==> forall|x: int, y: int|
            0 <= x < width && 0 <= y < height ==> #[trigger] pixel_end(format, pitch, x, y) <= len,
{
    if holds_frame(format, len, width, height, pitch) {
        assert forall|x: int, y: int|
            0 <= x < width && 0 <= y < height implies #[trigger] pixel_end(format, pitch, x, y)
            <= len by {
            assert(y * pitch <= (height - 1) * pitch) by (nonlinear_arith)
                requires
                    y <= height - 1,
                    0 <= pitch,
            ;
        }
    }
    if width > 0 && height > 0 && (forall|x: int, y: int|
        0 <= x < width && 0 <= y < height ==> #[trigger] pixel_end(format, pitch, x, y) <= len) {
        assert(pixel_end(format, pitch, width - 1, height - 1) <= len);
    }
}

} // verus!
