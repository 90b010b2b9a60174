//! Scaling of BGRA frames to another size, by taking the nearest pixel above and to the left.

use vstd::prelude::*;
use vstd::arithmetic::div_mod::lemma_fundamental_div_mod_converse;

verus! {

/// The row or column of the source that row or column `at` of the result is taken from.
pub open spec fn source_index(at: int, src: int, dst: int) -> int {
    at * src / dst
}

/// Where in the source the pixel at column `x`, row `y` of the result is taken from.
pub open spec fn source_offset(
    src_width: int,
    src_height: int,
    src_stride: int,
    dst_width: int,
    dst_height: int,
    x: int,
    y: int,
) -> int {
    source_index(y, src_height, dst_height) * src_stride + source_index(x, src_width, dst_width) * 4
}

/// The scaled frame: packed BGRA, row by row.
pub open spec fn scaled_frame(
    src: Seq<u8>,
    src_width: int,
    src_height: int,
    src_stride: int,
    dst_width: int,
    dst_height: int,
) -> Seq<u8> {
    Seq::new(
        (dst_width * 4 * dst_height) as nat,
        |i: int|
            src[source_offset(
                src_width,
                src_height,
                src_stride,
                dst_width,
                dst_height,
                (i / 4) % dst_width,
                (i / 4) / dst_width,
            ) + i % 4],
    )
}

/// Whether the source holds every pixel that a result of the given size is taken from, and the
/// places of the pixels, and the size of the result, fit in thirty-two bits.
pub open spec fn scalable(
    src_len: int,
    src_width: int,
    src_height: int,
    src_stride: int,
    dst_width: int,
    dst_height: int,
) -> bool {
    &&& dst_width * 4 <= u32::MAX
    &&& dst_width * 4 * dst_height <= u32::MAX
    &&& forall|y: int|
        0 <= y < dst_height ==> {
            let row = #[trigger] source_index(y, src_height, dst_height) * src_stride;
            row <= u32::MAX && row <= src_len
        }
    &&& forall|x: int|
        0 <= x < dst_width && 0 < dst_height ==> #[trigger] source_index(x, src_width, dst_width)
            * 4 <= u32::MAX
    &&& forall|x: int, y: int|
        0 <= x < dst_width && 0 <= y < dst_height ==> #[trigger] source_offset(
            src_width,
            src_height,
            src_stride,
            dst_width,
            dst_height,
            x,
            y,
        ) + 4 <= src_len
}

proof fn lemma_source_index(at: int, later: int, src: int, dst: int)
    requires
        0 <= at <= later < dst,
        0 <= src,
    ensures
        0 <= source_index(at, src, dst) <= source_index(later, src, dst) <= src,
        src > 0 ==> source_index(later, src, dst) < src,
{
    assert(0 <= at * src <= later * src) by (nonlinear_arith)
        requires
            0 <= at <= later,
            0 <= src,
    ;
    vstd::arithmetic::div_mod::lemma_div_is_ordered(at * src, later * src, dst);
    vstd::arithmetic::div_mod::lemma_div_pos_is_pos(at * src, dst);
    if src > 0 {
        assert(later * src < src * dst) by (nonlinear_arith)
            requires
                later < dst,
                0 < src,
        ;
        vstd::arithmetic::div_mod::lemma_multiply_divide_lt(later * src, dst, src);
    } else {
        assert(later * src == 0) by (nonlinear_arith)
            requires
                src == 0,
        ;
        vstd::arithmetic::div_mod::lemma_div_basics(dst);
    }
}

/// The row or column of the source that `at` is taken from.
fn compute_source_index(at: u32, src: u32, dst: u32) -> (index: u32)
    requires
        at < dst,
    ensures
        index == source_index(at as int, src as int, dst as int),
{
    assert(0 <= at * src <= 0xffff_ffff * 0xffff_ffff) by (nonlinear_arith)
        requires
            0 <= at <= 0xffff_ffff,
            0 <= src <= 0xffff_ffff,
    ;
    proof {
        lemma_source_index(at as int, at as int, src as int, dst as int);
    }
    (at as u64 * src as u64 / dst as u64) as u32
}

/// Whether a frame can be scaled to the given size.
pub fn can_scale(
    src_len: usize,
    src_width: u32,
    src_height: u32,
    src_stride: u32,
    dst_width: u32,
    dst_height: u32,
) -> (can: bool)
    ensures
        can == scalable(
            src_len as int,
            src_width as int,
            src_height as int,
            src_stride as int,
            dst_width as int,
            dst_height as int,
        ),
{
    let ghost dw = dst_width as int;
    let ghost dh = dst_height as int;
    assert(0 <= (dst_width * 4) * dst_height <= (0xffff_ffff * 4) * 0xffff_ffff)
        by (nonlinear_arith)
        requires
            0 <= dst_width <= 0xffff_ffff,
            0 <= dst_height <= 0xffff_ffff,
    ;
    let stride: u128 = dst_width as u128 * 4;
    let size: u128 = stride * dst_height as u128;
    if stride > u32::MAX as u128 || size > u32::MAX as u128 {
        return false;
    }
    if dst_height == 0 {
        return true;
    }
    let last_y: u32 = compute_source_index(dst_height - 1, src_height, dst_height);
    assert(0 <= last_y * src_stride <= 0xffff_ffff * 0xffff_ffff) by (nonlinear_arith)
        requires
            0 <= last_y <= 0xffff_ffff,
            0 <= src_stride <= 0xffff_ffff,
    ;
    let row: u64 = last_y as u64 * src_stride as u64;
    proof {
        assert forall|y: int| 0 <= y < dh implies 0 <= #[trigger] source_index(
            y,
            src_height as int,
            dh,
        ) * src_stride <= row by {
            lemma_source_index(y, dh - 1, src_height as int, dh);
            let index = source_index(y, src_height as int, dh);
            assert(0 <= index * src_stride <= last_y * src_stride) by (nonlinear_arith)
                requires
                    0 <= index <= last_y,
                    0 <= src_stride,
            ;
        }
        assert(source_index(dh - 1, src_height as int, dh) * src_stride == row);
    }
    if row > u32::MAX as u64 || row > src_len as u64 {
        return false;
    }
    if dst_width == 0 {
        return true;
    }
    let last_x: u32 = compute_source_index(dst_width - 1, src_width, dst_width);
    let column: u64 = last_x as u64 * 4;
    proof {
        assert forall|x: int| 0 <= x < dw implies 0 <= #[trigger] source_index(
            x,
            src_width as int,
            dw,
        ) * 4 <= column by {
            lemma_source_index(x, dw - 1, src_width as int, dw);
        }
        assert(source_index(dw - 1, src_width as int, dw) * 4 == column);
        assert(source_offset(
            src_width as int,
            src_height as int,
            src_stride as int,
            dw,
            dh,
            dw - 1,
            dh - 1,
        ) == row + column);
    }
    column <= u32::MAX as u64 && row + column + 4 <= src_len as u64
}

/// Scales a frame. `dst` is given the size of the result; what it held is overwritten.
pub(crate) fn scale_into(
    dst: &mut Vec<u8>,
    src: &[u8],
    src_width: u32,
    src_height: u32,
    src_stride: u32,
    dst_width: u32,
    dst_height: u32,
)
    requires
        scalable(
            src@.len() as int,
            src_width as int,
            src_height as int,
            src_stride as int,
            dst_width as int,
            dst_height as int,
        ),
    ensures
        final(dst)@ == scaled_frame(
            src@,
            src_width as int,
            src_height as int,
            src_stride as int,
            dst_width as int,
            dst_height as int,
        ),
{
    let ghost sw = src_width as int;
    let ghost sh = src_height as int;
    let ghost ss = src_stride as int;
    let ghost dw = dst_width as int;
    let ghost dh = dst_height as int;
    let ghost frame = scaled_frame(src@, sw, sh, ss, dw, dh);
    let src_len: usize = src.len();
    assert(0 <= (dst_width * 4) * dst_height) by (nonlinear_arith)
        requires
            0 <= dst_width,
            0 <= dst_height,
    ;
    let dst_stride: u32 = dst_width * 4;
    let needed: usize = (dst_stride * dst_height) as usize;
    if dst.len() != needed {
        dst.resize(needed, 0);
    }
    let mut y: u32 = 0;
    while y < dst_height
        invariant
            sw == src_width,
            sh == src_height,
            ss == src_stride,
            dw == dst_width,
            dh == dst_height,
            src_len == src@.len(),
            dst_stride == dw * 4,
            needed == dst_stride * dh,
            dst@.len() == needed,
            y <= dst_height,
            scalable(src@.len() as int, sw, sh, ss, dw, dh),
            frame == scaled_frame(src@, sw, sh, ss, dw, dh),
            forall|i: int| 0 <= i < dst_stride * y ==> #[trigger] dst@[i] == frame[i],
        decreases dst_height - y,
    {
        let ghost row = y as int;
        let src_y: u32 = compute_source_index(y, src_height, dst_height);
        proof {
            lemma_source_index(row, row, sh, dh);
            assert(source_index(row, sh, dh) * src_stride <= u32::MAX);
            assert(0 <= src_y * src_stride) by (nonlinear_arith)
                requires
                    0 <= src_y,
                    0 <= src_stride,
            ;
            assert(0 <= dst_stride * row && dst_stride * row + dst_stride <= dst_stride * dh)
                by (nonlinear_arith)
                requires
                    0 <= row < dh,
                    0 <= dst_stride,
            ;
            assert(y * dst_stride == dst_stride * row) by (nonlinear_arith)
                requires
                    y == row,
            ;
        }
        let src_start: usize = (src_y * src_stride) as usize;
        let dst_start: usize = (y * dst_stride) as usize;
        let mut x: u32 = 0;
        while x < dst_width
            invariant
                sw == src_width,
                sh == src_height,
                ss == src_stride,
                dw == dst_width,
                dh == dst_height,
                row == y,
                src_len == src@.len(),
                dst_stride == dw * 4,
                needed == dst_stride * dh,
                dst@.len() == needed,
                y < dst_height,
                x <= dst_width,
                src_start == source_index(row, sh, dh) * ss,
                dst_start == dst_stride * row,
                dst_stride * row + dst_stride <= dst_stride * dh,
                scalable(src@.len() as int, sw, sh, ss, dw, dh),
                frame == scaled_frame(src@, sw, sh, ss, dw, dh),
                forall|i: int| 0 <= i < dst_start + x * 4 ==> #[trigger] dst@[i] == frame[i],
            decreases dst_width - x,
        {
            let src_x: u32 = compute_source_index(x, src_width, dst_width);
            let ghost from = source_offset(sw, sh, ss, dw, dh, x as int, row);
            proof {
                assert(from + 4 <= src@.len());
                assert(source_index(x as int, sw, dw) * 4 <= u32::MAX);
            }
            let src_off: usize = src_start + (src_x * 4) as usize;
            let dst_off: usize = dst_start + (x * 4) as usize;
            let ghost before = dst@;
            let b0: u8 = src[src_off];
            let b1: u8 = src[src_off + 1];
            let b2: u8 = src[src_off + 2];
            let b3: u8 = src[src_off + 3];
            dst[dst_off] = b0;
            dst[dst_off + 1] = b1;
            dst[dst_off + 2] = b2;
            dst[dst_off + 3] = b3;
            proof {
                let p = dw * row + x;
                assert(dst_stride * row == (dw * row) * 4) by (nonlinear_arith)
                    requires
                        dst_stride == dw * 4,
                ;
                assert(p == row * dw + x) by (nonlinear_arith)
                    requires
                        p == dw * row + x,
                ;
                lemma_fundamental_div_mod_converse(p, dw, row, x as int);
                assert((p * 4) / 4 == p && (p * 4) % 4 == 0);
                assert((p * 4 + 1) / 4 == p && (p * 4 + 1) % 4 == 1);
                assert((p * 4 + 2) / 4 == p && (p * 4 + 2) % 4 == 2);
                assert((p * 4 + 3) / 4 == p && (p * 4 + 3) % 4 == 3);
                assert forall|i: int| 0 <= i < dst_start + (x + 1) * 4 implies #[trigger] dst@[i]
                    == frame[i] by {
                    if i < dst_start + x * 4 {
                        assert(before[i] == frame[i]);
                    }
                }
            }
            x += 1;
        }
        assert(dst_stride * (row + 1) == dst_stride * row + dst_stride) by (nonlinear_arith);
        y += 1;
    }
    assert(dst@ =~= frame);
}

/// A packed frame that is not empty scales to every size whose bytes can be counted in thirty-two
/// bits.
pub proof fn law_packed_frames_scale(
    src_width: int,
    src_height: int,
    dst_width: int,
    dst_height: int,
)
    requires
        0 < src_width,
        0 < src_height,
        src_width * src_height * 4 <= u32::MAX,
        0 <= dst_width,
        0 <= dst_height,
        dst_width * 4 <= u32::MAX,
        dst_width * 4 * dst_height <= u32::MAX,
    ensures
        scalable(
            src_width * src_height * 4,
            src_width,
            src_height,
            src_width * 4,
            dst_width,
            dst_height,
        ),
{
    let len = src_width * src_height * 4;
    let stride = src_width * 4;
    assert forall|y: int| 0 <= y < dst_height implies {
        let row = #[trigger] source_index(y, src_height, dst_height) * stride;
        row + stride <= len
    } by {
        lemma_source_index(y, y, src_height, dst_height);
        let index = source_index(y, src_height, dst_height);
        assert(index * stride + stride <= len) by (nonlinear_arith)
            requires
                0 <= index < src_height,
                stride == src_width * 4,
                len == src_width * src_height * 4,
                0 < src_width,
        {
            assert((index + 1) * stride <= src_height * stride);
            assert((index + 1) * stride == index * stride + stride);
            assert(src_height * (src_width * 4) == src_width * src_height * 4);
        }
    }
    assert(src_width <= src_width * src_height) by (nonlinear_arith)
        requires
            0 < src_width,
            0 < src_height,
    ;
    assert forall|x: int| 0 <= x < dst_width && 0 < dst_height implies #[trigger] source_index(
        x,
        src_width,
        dst_width,
    ) * 4 <= u32::MAX by {
        lemma_source_index(x, x, src_width, dst_width);
    }
    assert forall|x: int, y: int|
        0 <= x < dst_width && 0 <= y < dst_height implies #[trigger] source_offset(
        src_width,
        src_height,
        stride,
        dst_width,
        dst_height,
        x,
        y,
    ) + 4 <= len by {
        lemma_source_index(x, x, src_width, dst_width);
        assert(source_index(y, src_height, dst_height) * stride + stride <= len);
    }
}

/// Scaling a packed frame to its own size gives the frame.
pub proof fn law_scaling_to_own_size_changes_nothing(src: Seq<u8>, width: int, height: int)
    requires
        0 <= width,
        0 <= height,
        src.len() == width * height * 4,
    ensures
        scaled_frame(src, width, height, width * 4, width, height) == src,
{
    let frame = scaled_frame(src, width, height, width * 4, width, height);
    assert(0 <= width * height) by (nonlinear_arith)
        requires
            0 <= width,
            0 <= height,
    ;
    assert(width * 4 * height == width * height * 4) by (nonlinear_arith);
    assert forall|i: int| 0 <= i < frame.len() implies #[trigger] frame[i] == src[i] by {
        let p = i / 4;
        assert(0 < width && 0 < height) by (nonlinear_arith)
            requires
                0 <= width,
                0 <= height,
                0 < width * height,
        ;
        let x = p % width;
        let y = p / width;
        vstd::arithmetic::div_mod::lemma_fundamental_div_mod(p, width);
        vstd::arithmetic::div_mod::lemma_div_by_multiple(x, width);
        vstd::arithmetic::div_mod::lemma_div_by_multiple(y, height);
        assert(y * (width * 4) == (width * y) * 4) by (nonlinear_arith);
    }
    assert(frame =~= src);
}

/// Scaling takes every pixel from the nearest place above and to the left: the pixel in column `x`,
/// row `y` of the result is the pixel in the column and row of the source that cover the same part of
/// the picture, all four bytes of it.
pub proof fn law_scaling_takes_the_covering_pixel(
    src: Seq<u8>,
    src_width: int,
    src_height: int,
    src_stride: int,
    dst_width: int,
    dst_height: int,
    x: int,
    y: int,
    column: int,
    row: int,
    byte: int,
)
    requires
        0 <= x < dst_width,
        0 <= y < dst_height,
        0 <= byte < 4,
        column * dst_width <= x * src_width < (column + 1) * dst_width,
        row * dst_height <= y * src_height < (row + 1) * dst_height,
    ensures
        ({
            let frame = scaled_frame(
                src,
                src_width,
                src_height,
                src_stride,
                dst_width,
                dst_height,
            );
            &&& frame.len() == dst_width * dst_height * 4
            &&& 0 <= 4 * (y * dst_width + x) + byte < frame.len()
            &&& frame[4 * (y * dst_width + x) + byte] == src[row * src_stride + column * 4 + byte]
        }),
{
    let n = y * dst_width + x;
    assert(0 <= n < dst_width * dst_height) by (nonlinear_arith)
        requires
            n == y * dst_width + x,
            0 <= x < dst_width,
            0 <= y < dst_height,
    ;
    assert(dst_width * 4 * dst_height == dst_width * dst_height * 4) by (nonlinear_arith);
    lemma_fundamental_div_mod_converse(n, dst_width, y, x);
    let i = 4 * n + byte;
    assert(i / 4 == n && i % 4 == byte);
    assert((column + 1) * dst_width == column * dst_width + dst_width) by (nonlinear_arith);
    assert((row + 1) * dst_height == row * dst_height + dst_height) by (nonlinear_arith);
    lemma_fundamental_div_mod_converse(
        x * src_width,
        dst_width,
        column,
        x * src_width - column * dst_width,
    );
    lemma_fundamental_div_mod_converse(
        y * src_height,
        dst_height,
        row,
        y * src_height - row * dst_height,
    );
}

} // verus!
