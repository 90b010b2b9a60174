//! Dirty tiles: which 64-pixel squares of the screen changed since they were last reported.

use vstd::prelude::*;
use vstd::arithmetic::div_mod::lemma_fundamental_div_mod;
use vstd::arithmetic::div_mod::lemma_fundamental_div_mod_converse;

verus! {

/// Side of a tile in pixels.
pub const TILE_SIZE: u32 = 64;

/// A dirty rectangle (coordinates only, no pixel data).
#[derive(Clone, Copy, Debug, PartialEq, Eq, Structural)]
pub struct DirtyRect {
    pub x: u16,
    pub y: u16,
    pub width: u16,
    pub height: u16,
}

impl DirtyRect {
    /// Whether the rectangle holds the pixel at column `px`, row `py`.
    pub open spec fn holds(self, px: int, py: int) -> bool {
        &&& self.x <= px < self.x + self.width
        &&& self.y <= py < self.y + self.height
    }
}

/// Number of tiles that it takes to cover `pixels` pixels in one direction.
pub open spec fn tile_span(pixels: int) -> int {
    (pixels + 63) / 64
}

/// Number of tiles on a screen of the given size.
pub open spec fn tile_count(width: int, height: int) -> int {
    tile_span(width) * tile_span(height)
}

/// Index of the tile in column `tx`, row `ty` of a screen that is `width` pixels wide.
pub open spec fn tile_index(width: int, tx: int, ty: int) -> int {
    ty * tile_span(width) + tx
}

/// Index of the tile that holds the pixel at column `px`, row `py`.
pub open spec fn tile_of_pixel(width: int, px: int, py: int) -> int {
    tile_index(width, px / 64, py / 64)
}

/// The tile indices of a screen.
pub open spec fn all_tiles(width: int, height: int) -> Set<int> {
    Set::new(|i: int| 0 <= i < tile_count(width, height))
}

/// The rectangle reported for tile `tile`: the tile, cut off at the right and bottom edge of the
/// screen, with each number in sixteen bits.
pub open spec fn tile_rect(width: int, height: int, tile: int) -> DirtyRect {
    let x0 = (tile % tile_span(width)) * 64;
    let y0 = (tile / tile_span(width)) * 64;
    DirtyRect {
        x: x0 as u16,
        y: y0 as u16,
        width: (if width - x0 < 64 { width - x0 } else { 64 }) as u16,
        height: (if height - y0 < 64 { height - y0 } else { 64 }) as u16,
    }
}

/// The members of `marked` below `n`, in increasing order.
pub open spec fn ascending(marked: Set<int>, n: int) -> Seq<int>
    decreases n,
{
    if n <= 0 {
        Seq::empty()
    } else if marked.contains(n - 1) {
        ascending(marked, n - 1).push(n - 1)
    } else {
        ascending(marked, n - 1)
    }
}

/// The rectangles of the marked tiles of a screen, row by row.
pub open spec fn rects_of(marked: Set<int>, width: int, height: int) -> Seq<DirtyRect> {
    ascending(marked, tile_count(width, height)).map_values(
        |tile: int| tile_rect(width, height, tile),
    )
}

/// Bit `b` of the word `w`.
spec fn word_bit(w: u64, b: u64) -> bool {
    w & (1u64 << b) != 0
}

/// The positions of the bits that are set in a sequence of words.
spec fn marked_bits(words: Seq<u64>) -> Set<int> {
    Set::new(|i: int| 0 <= i < 64 * words.len() && word_bit(words[i / 64], (i % 64) as u64))
}

proof fn lemma_bit_set(w: u64, b: u64, c: u64)
    requires
        b < 64,
        c < 64,
    ensures
        word_bit(w | (1u64 << b), c) == (b == c || word_bit(w, c)),
{
    assert(((w | (1u64 << b)) & (1u64 << c) != 0) == (b == c || w & (1u64 << c) != 0))
        by (bit_vector)
        requires
            b < 64,
            c < 64,
    ;
}

proof fn lemma_bit_fill(w: u64, r: u64, c: u64)
    requires
        0 < r < 64,
        c < 64,
    ensures
        1u64 << r >= 1,
        word_bit(w | ((1u64 << r) - 1) as u64, c) == (c < r || word_bit(w, c)),
{
    assert(1u64 << r >= 1) by (bit_vector)
        requires
            0 < r < 64,
    ;
    assert(((w | ((1u64 << r) - 1) as u64) & (1u64 << c) != 0) == (c < r || w & (1u64 << c) != 0))
        by (bit_vector)
        requires
            0 < r < 64,
            c < 64,
    ;
}

proof fn lemma_bit_constant(c: u64)
    requires
        c < 64,
    ensures
        !word_bit(0, c),
        word_bit(u64::MAX, c),
{
    assert(0u64 & (1u64 << c) == 0) by (bit_vector);
    assert(u64::MAX & (1u64 << c) != 0) by (bit_vector)
        requires
            c < 64,
    ;
}

/// The dirty tiles accumulated between the capture side and the VNC side.
///
/// The capture side marks tiles that changed. The VNC side drains the marks, which reads and
/// clears them, to get the dirty rectangles.
pub struct DirtyTiles {
    bits: Vec<u64>,
    tiles_x: u32,
    tiles_y: u32,
    width: u32,
    height: u32,
}

impl View for DirtyTiles {
    type V = Set<int>;

    /// The marked positions. Positions past the last tile of the screen can be marked too, and
    /// are never reported.
    closed spec fn view(&self) -> Set<int> {
        marked_bits(self.bits@)
    }
}

impl DirtyTiles {
    /// Width of the screen in pixels.
    pub closed spec fn screen_width(&self) -> u32 {
        self.width
    }

    /// Height of the screen in pixels.
    pub closed spec fn screen_height(&self) -> u32 {
        self.height
    }

    /// The tile counts agree with the size of the screen, and there is a bit for every tile.
    pub closed spec fn wf(&self) -> bool {
        &&& self.tiles_x == tile_span(self.width as int)
        &&& self.tiles_y == tile_span(self.height as int)
        &&& self.total() <= u32::MAX
        &&& self.bits@.len() == (self.total() + 63) / 64
    }

    spec fn total(&self) -> int {
        tile_count(self.width as int, self.height as int)
    }

    /// One past the last position that can be marked: the number of tiles, rounded up to whole
    /// words.
    pub open spec fn capacity(&self) -> int {
        (tile_count(self.screen_width() as int, self.screen_height() as int) + 63) / 64 * 64
    }

    /// The tiles of the screen can be counted in thirty-two bits.
    pub proof fn lemma_tile_count_fits(&self)
        requires
            self.wf(),
        ensures
            tile_count(self.screen_width() as int, self.screen_height() as int) <= u32::MAX,
    {
    }

    /// Creates the accumulator of a screen, with nothing marked.
    pub fn new(width: u32, height: u32) -> (tiles: Self)
        requires
            tile_count(width as int, height as int) <= u32::MAX,
        ensures
            tiles.wf(),
            tiles.screen_width() == width,
            tiles.screen_height() == height,
            tiles@ == Set::<int>::empty(),
    {
        let tiles_x: u32 = Self::span(width);
        let tiles_y: u32 = Self::span(height);
        assert(tiles_x * tiles_y >= 0) by (nonlinear_arith)
            requires
                tiles_x >= 0,
                tiles_y >= 0,
        ;
        let total: u32 = tiles_x * tiles_y;
        let word_count: u32 = Self::span(total);
        let bits: Vec<u64> = vec![0u64; word_count as usize];
        let tiles = DirtyTiles { bits, tiles_x, tiles_y, width, height };
        proof {
            assert forall|i: int| !tiles@.contains(i) by {
                if 0 <= i < 64 * bits@.len() {
                    lemma_bit_constant((i % 64) as u64);
                }
            }
            assert(tiles@ =~= Set::<int>::empty());
        }
        tiles
    }

    /// Rounds `amount / 64` up.
    fn span(amount: u32) -> (r: u32)
        ensures
            r == tile_span(amount as int),
    {
        let whole: u32 = amount / TILE_SIZE;
        if amount % TILE_SIZE == 0 {
            whole
        } else {
            whole + 1
        }
    }

    /// Sets the bits of `mask` in one word.
    fn mark(&mut self, word: usize, mask: u64)
        requires
            word < old(self).bits@.len(),
        ensures
            final(self).bits@ == old(self).bits@.update(
                word as int,
                old(self).bits@[word as int] | mask,
            ),
            final(self).tiles_x == old(self).tiles_x,
            final(self).tiles_y == old(self).tiles_y,
            final(self).width == old(self).width,
            final(self).height == old(self).height,
    {
        let value: u64 = self.bits[word] | mask;
        self.bits[word] = value;
    }

    /// Marks a tile as dirty (by tile index).
    pub fn set(&mut self, tile_idx: usize)
        requires
            old(self).wf(),
            tile_idx < old(self).capacity(),
        ensures
            final(self).wf(),
            final(self).screen_width() == old(self).screen_width(),
            final(self).screen_height() == old(self).screen_height(),
            final(self)@ == old(self)@.insert(tile_idx as int),
    {
        let word: usize = tile_idx / 64;
        let bit: usize = tile_idx % 64;
        let ghost before = self.bits@;
        self.mark(word, 1u64 << bit);
        proof {
            let b = bit as u64;
            assert(1u64 << bit == 1u64 << b);
            assert forall|i: int| self@.contains(i) == old(self)@.insert(tile_idx as int).contains(i) by {
                if 0 <= i < 64 * before.len() {
                    lemma_bit_set(before[word as int], b, (i % 64) as u64);
                    if i / 64 == word {
                        assert((i == tile_idx) == (i % 64 == bit));
                    }
                }
            }
            assert(self@ =~= old(self)@.insert(tile_idx as int));
        }
    }

    /// Marks all tiles as dirty.
    pub fn set_all(&mut self)
        requires
            old(self).wf(),
        ensures
            final(self).wf(),
            final(self).screen_width() == old(self).screen_width(),
            final(self).screen_height() == old(self).screen_height(),
            final(self)@ == old(self)@.union(
                all_tiles(old(self).screen_width() as int, old(self).screen_height() as int),
            ),
    {
        let total: usize = (self.tiles_x * self.tiles_y) as usize;
        let full: usize = total / 64;
        let mut word: usize = 0;
        while word < full
            invariant
                full == total / 64,
                total == old(self).total(),
                old(self).wf(),
                word <= full,
                self.tiles_x == old(self).tiles_x,
                self.tiles_y == old(self).tiles_y,
                self.width == old(self).width,
                self.height == old(self).height,
                self.bits@.len() == old(self).bits@.len(),
                forall|j: int| 0 <= j < word ==> self.bits@[j] == u64::MAX,
                forall|j: int| word <= j < self.bits@.len() ==> self.bits@[j] == old(self).bits@[j],
            decreases full - word,
        {
            self.bits[word] = u64::MAX;
            word += 1;
        }
        let remaining: usize = total % 64;
        if remaining > 0 {
            proof {
                lemma_bit_fill(0, remaining as u64, 0);
                assert(1u64 << remaining == 1u64 << (remaining as u64));
            }
            let mask: u64 = (1u64 << remaining) - 1;
            self.mark(full, mask);
        }
        proof {
            let r = remaining as u64;
            let before = old(self).bits@;
            let goal = old(self)@.union(all_tiles(self.width as int, self.height as int));
            assert forall|i: int| self@.contains(i) == goal.contains(i) by {
                if 0 <= i < 64 * before.len() {
                    let c = (i % 64) as u64;
                    lemma_bit_constant(c);
                    if i / 64 < full {
                        assert(self.bits@[i / 64] == u64::MAX);
                    } else if remaining > 0 {
                        lemma_bit_fill(before[full as int], r, c);
                    }
                }
            }
            assert(self@ =~= goal);
        }
    }

    /// Reads and clears all marks, and gives the rectangles of the tiles that were marked.
    pub fn drain_to_rects(&mut self) -> (rects: Vec<DirtyRect>)
        requires
            old(self).wf(),
        ensures
            final(self).wf(),
            final(self).screen_width() == old(self).screen_width(),
            final(self).screen_height() == old(self).screen_height(),
            final(self)@ == Set::<int>::empty(),
            rects@ == rects_of(
                old(self)@,
                old(self).screen_width() as int,
                old(self).screen_height() as int,
            ),
    {
        let ghost before = self.bits@;
        let ghost marked = self@;
        let ghost w = self.width as int;
        let ghost h = self.height as int;
        let words: Vec<u64> = self.take_words();
        let mut rects: Vec<DirtyRect> = Vec::new();
        let mut ty: u32 = 0;
        assert(rects@ =~= ascending(marked, 0).map_values(|tile: int| tile_rect(w, h, tile)));
        while ty < self.tiles_y
            invariant
                self.wf(),
                self@ == Set::<int>::empty(),
                w == self.width,
                h == self.height,
                words@ == before,
                before.len() == self.bits@.len(),
                marked == marked_bits(before),
                ty <= self.tiles_y,
                self.width == old(self).width,
                self.height == old(self).height,
                rects@ == ascending(marked, ty * tile_span(w)).map_values(
                    |tile: int| tile_rect(w, h, tile),
                ),
            decreases self.tiles_y - ty,
        {
            let mut tx: u32 = 0;
            while tx < self.tiles_x
                invariant
                    self.wf(),
                    self@ == Set::<int>::empty(),
                    w == self.width,
                    h == self.height,
                    words@ == before,
                    before.len() == self.bits@.len(),
                    marked == marked_bits(before),
                    ty < self.tiles_y,
                    tx <= self.tiles_x,
                    self.width == old(self).width,
                    self.height == old(self).height,
                    rects@ == ascending(marked, ty * tile_span(w) + tx).map_values(
                        |tile: int| tile_rect(w, h, tile),
                    ),
                decreases self.tiles_x - tx,
            {
                let ghost cols = self.tiles_x as int;
                let ghost n = ty * cols + tx;
                proof {
                    assert(0 <= ty * cols) by (nonlinear_arith)
                        requires
                            ty >= 0,
                            cols >= 0,
                    ;
                    assert(ty * cols + cols <= self.tiles_y * cols) by (nonlinear_arith)
                        requires
                            ty < self.tiles_y,
                            cols >= 0,
                    ;
                    assert(cols * self.tiles_y == self.tiles_y * cols) by (nonlinear_arith);
                    assert(n == ty as int * cols + tx as int);
                    lemma_fundamental_div_mod_converse(n, cols, ty as int, tx as int);
                }
                let idx: usize = (ty * self.tiles_x + tx) as usize;
                let word: usize = idx / 64;
                let bit: usize = idx % 64;
                let ghost b = bit as u64;
                assert(1u64 << bit == 1u64 << b);
                assert(marked.contains(n) == word_bit(before[word as int], b));
                if words[word] & (1u64 << bit) != 0 {
                    let x0: u32 = tx * TILE_SIZE;
                    let y0: u32 = ty * TILE_SIZE;
                    let rest_x: u32 = self.width - x0;
                    let rest_y: u32 = self.height - y0;
                    let rect_w: u32 = if rest_x < TILE_SIZE { rest_x } else { TILE_SIZE };
                    let rect_h: u32 = if rest_y < TILE_SIZE { rest_y } else { TILE_SIZE };
                    let rect = DirtyRect {
                        x: #[verifier::truncate] (x0 as u16),
                        y: #[verifier::truncate] (y0 as u16),
                        width: rect_w as u16,
                        height: rect_h as u16,
                    };
                    assert(rect == tile_rect(w, h, n));
                    rects.push(rect);
                }
                assert(rects@ =~= ascending(marked, n + 1).map_values(
                    |tile: int| tile_rect(w, h, tile),
                ));
                tx += 1;
            }
            assert((ty + 1) * tile_span(w) == ty * tile_span(w) + tile_span(w))
                by (nonlinear_arith);
            ty += 1;
        }
        assert(self.tiles_y * tile_span(w) == tile_count(w, h)) by (nonlinear_arith)
            requires
                self.tiles_y == tile_span(h),
        ;
        rects
    }

    /// Takes all words out and leaves zeros.
    fn take_words(&mut self) -> (words: Vec<u64>)
        requires
            old(self).wf(),
        ensures
            final(self).wf(),
            final(self).width == old(self).width,
            final(self).height == old(self).height,
            final(self).bits@.len() == old(self).bits@.len(),
            final(self)@ == Set::<int>::empty(),
            words@ == old(self).bits@,
    {
        let mut words: Vec<u64> = Vec::with_capacity(self.bits.len());
        let mut i: usize = 0;
        while i < self.bits.len()
            invariant
                i <= self.bits@.len(),
                old(self).wf(),
                self.tiles_x == old(self).tiles_x,
                self.tiles_y == old(self).tiles_y,
                self.width == old(self).width,
                self.height == old(self).height,
                self.bits@.len() == old(self).bits@.len(),
                words@ == old(self).bits@.take(i as int),
                forall|j: int| 0 <= j < i ==> self.bits@[j] == 0,
                forall|j: int| i <= j < self.bits@.len() ==> self.bits@[j] == old(self).bits@[j],
            decreases self.bits@.len() - i,
        {
            words.push(self.bits[i]);
            self.bits[i] = 0;
            i += 1;
            assert(words@ =~= old(self).bits@.take(i as int));
        }
        proof {
            assert(words@ =~= old(self).bits@);
            assert forall|p: int| !self@.contains(p) by {
                if 0 <= p < 64 * self.bits@.len() {
                    lemma_bit_constant((p % 64) as u64);
                }
            }
            assert(self@ =~= Set::<int>::empty());
        }
        words
    }
}

proof fn lemma_ascending(marked: Set<int>, n: int)
    ensures
        forall|k: int|
            0 <= k < ascending(marked, n).len() ==> 0 <= #[trigger] ascending(marked, n)[k] < n
                && marked.contains(ascending(marked, n)[k]),
        forall|i: int|
            0 <= i < n && marked.contains(i) ==> #[trigger] ascending(marked, n).contains(i),
        forall|k: int, l: int|
            0 <= k < l < ascending(marked, n).len() ==> ascending(marked, n)[k] < ascending(
                marked,
                n,
            )[l],
    decreases n,
{
    if n > 0 {
        lemma_ascending(marked, n - 1);
        let shorter = ascending(marked, n - 1);
        assert forall|i: int| 0 <= i < n && marked.contains(i) implies #[trigger] ascending(
            marked,
            n,
        ).contains(i) by {
            if i == n - 1 {
                assert(ascending(marked, n)[shorter.len() as int] == i);
            } else {
                assert(shorter.contains(i));
                let k = choose|k: int| 0 <= k < shorter.len() && shorter[k] == i;
                assert(ascending(marked, n)[k] == i);
            }
        }
    }
}

/// The rectangle of a tile holds exactly the pixels of the screen that lie in that tile.
proof fn lemma_tile_rect_holds(width: int, height: int, tile: int, px: int, py: int)
    requires
        0 < width <= 65536,
        0 < height <= 65536,
        0 <= tile < tile_count(width, height),
    ensures
        tile_rect(width, height, tile).holds(px, py) <==> (0 <= px < width && 0 <= py < height
            && tile_of_pixel(width, px, py) == tile),
        0 < tile_rect(width, height, tile).width,
        0 < tile_rect(width, height, tile).height,
        tile_rect(width, height, tile).x + tile_rect(width, height, tile).width <= width,
        tile_rect(width, height, tile).y + tile_rect(width, height, tile).height <= height,
{
    let cols = tile_span(width);
    let rows = tile_span(height);
    let tx = tile % cols;
    let ty = tile / cols;
    lemma_fundamental_div_mod(tile, cols);
    assert(0 <= tx < cols);
    assert(0 <= ty < rows) by (nonlinear_arith)
        requires
            tile == cols * ty + tx,
            0 <= tx < cols,
            0 <= tile < cols * rows,
    ;
    let rect = tile_rect(width, height, tile);
    assert(rect.x == tx * 64);
    assert(rect.y == ty * 64);
    if 0 <= px < width && 0 <= py < height {
        let qx = px / 64;
        let qy = py / 64;
        assert(0 <= qx < cols);
        if tile_of_pixel(width, px, py) == tile {
            lemma_fundamental_div_mod_converse(tile, cols, qy, qx);
        } else {
            assert(!(qx == tx && qy == ty)) by {
                assert(cols * ty == ty * cols) by (nonlinear_arith);
            }
        }
    }
}

/// A drain reports exactly what is dirty: a pixel of the screen lies in some drained rectangle if
/// and only if its tile was marked.
pub proof fn law_drain_reports_exactly_the_dirty_pixels(
    marked: Set<int>,
    width: int,
    height: int,
    px: int,
    py: int,
)
    requires
        width <= 65536,
        height <= 65536,
        0 <= px < width,
        0 <= py < height,
    ensures
        (exists|k: int|
            0 <= k < rects_of(marked, width, height).len() && (#[trigger] rects_of(
                marked,
                width,
                height,
            )[k]).holds(px, py)) <==> marked.contains(tile_of_pixel(width, px, py)),
{
    let n = tile_count(width, height);
    let order = ascending(marked, n);
    let rects = rects_of(marked, width, height);
    let tile = tile_of_pixel(width, px, py);
    lemma_ascending(marked, n);
    assert(0 <= tile < n) by {
        let cols = tile_span(width);
        let rows = tile_span(height);
        assert(0 <= px / 64 < cols);
        assert(0 <= py / 64 < rows);
        assert(0 <= (py / 64) * cols + px / 64 < cols * rows) by (nonlinear_arith)
            requires
                0 <= px / 64 < cols,
                0 <= py / 64 < rows,
        ;
    }
    if marked.contains(tile) {
        assert(order.contains(tile));
        let k = choose|k: int| 0 <= k < order.len() && order[k] == tile;
        lemma_tile_rect_holds(width, height, tile, px, py);
        assert(rects[k].holds(px, py));
    }
    if exists|k: int| 0 <= k < rects.len() && (#[trigger] rects[k]).holds(px, py) {
        let k = choose|k: int| 0 <= k < rects.len() && (#[trigger] rects[k]).holds(px, py);
        lemma_tile_rect_holds(width, height, order[k], px, py);
    }
}

/// No pixel is reported twice: two rectangles of one drain have no pixel in common.
pub proof fn law_drained_rects_are_disjoint(
    marked: Set<int>,
    width: int,
    height: int,
    j: int,
    k: int,
    px: int,
    py: int,
)
    requires
        0 <= width <= 65536,
        0 <= height <= 65536,
        0 <= j < rects_of(marked, width, height).len(),
        0 <= k < rects_of(marked, width, height).len(),
        j != k,
    ensures
        !(rects_of(marked, width, height)[j].holds(px, py) && rects_of(marked, width, height)[k].holds(
            px,
            py,
        )),
{
    let n = tile_count(width, height);
    let order = ascending(marked, n);
    lemma_ascending(marked, n);
    lemma_tile_count_positive(width, height, order[j]);
    assert(order[j] != order[k]) by {
        if j < k {
            assert(order[j] < order[k]);
        } else {
            assert(order[k] < order[j]);
        }
    }
    lemma_tile_rect_holds(width, height, order[j], px, py);
    lemma_tile_rect_holds(width, height, order[k], px, py);
}

/// Every drained rectangle is non-empty and lies on the screen.
pub proof fn law_drained_rects_lie_on_the_screen(
    marked: Set<int>,
    width: int,
    height: int,
    k: int,
)
    requires
        0 <= width <= 65536,
        0 <= height <= 65536,
        0 <= k < rects_of(marked, width, height).len(),
    ensures
        0 < rects_of(marked, width, height)[k].width,
        0 < rects_of(marked, width, height)[k].height,
        rects_of(marked, width, height)[k].x + rects_of(marked, width, height)[k].width <= width,
        rects_of(marked, width, height)[k].y + rects_of(marked, width, height)[k].height <= height,
{
    let n = tile_count(width, height);
    let order = ascending(marked, n);
    lemma_ascending(marked, n);
    lemma_tile_count_positive(width, height, order[k]);
    lemma_tile_rect_holds(width, height, order[k], 0, 0);
}

proof fn lemma_tile_count_positive(width: int, height: int, tile: int)
    requires
        0 <= width,
        0 <= height,
        0 <= tile < tile_count(width, height),
    ensures
        0 < width,
        0 < height,
{
    assert(tile_span(width) != 0 && tile_span(height) != 0) by (nonlinear_arith)
        requires
            0 < tile_span(width) * tile_span(height),
    ;
}

/// After everything was marked, a drain reports every pixel of the screen, whatever was marked
/// before.
pub proof fn law_drain_after_set_all_reports_the_whole_screen(
    marked: Set<int>,
    width: int,
    height: int,
    px: int,
    py: int,
)
    requires
        width <= 65536,
        height <= 65536,
        0 <= px < width,
        0 <= py < height,
    ensures
        exists|k: int|
            0 <= k < rects_of(marked.union(all_tiles(width, height)), width, height).len()
                && (#[trigger] rects_of(
                marked.union(all_tiles(width, height)),
                width,
                height,
            )[k]).holds(px, py),
{
    let all = marked.union(all_tiles(width, height));
    law_drain_reports_exactly_the_dirty_pixels(all, width, height, px, py);
    let cols = tile_span(width);
    let rows = tile_span(height);
    assert(0 <= (py / 64) * cols + px / 64 < cols * rows) by (nonlinear_arith)
        requires
            0 <= px / 64 < cols,
            0 <= py / 64 < rows,
    ;
    assert(all.contains(tile_of_pixel(width, px, py)));
}

/// A drain takes everything: a second drain with nothing marked in between reports nothing.
pub proof fn law_second_drain_is_empty(width: int, height: int)
    ensures
        rects_of(Set::<int>::empty(), width, height) == Seq::<DirtyRect>::empty(),
{
    lemma_ascending(Set::<int>::empty(), tile_count(width, height));
    let order = ascending(Set::<int>::empty(), tile_count(width, height));
    if order.len() > 0 {
        assert(Set::<int>::empty().contains(order[0]));
    }
    assert(rects_of(Set::<int>::empty(), width, height) =~= Seq::<DirtyRect>::empty());
}

/// The marks after marking each of `tiles` in turn.
pub open spec fn mark_each(marked: Set<int>, tiles: Seq<int>) -> Set<int>
    decreases tiles.len(),
{
    if tiles.len() == 0 {
        marked
    } else {
        mark_each(marked, tiles.drop_last()).insert(tiles.last())
    }
}

/// A drain reports each tile that was marked since the last drain, once however often it was
/// marked, and no other: the tiles reported are those marked, in increasing order.
pub proof fn law_drain_reports_each_mark_once(tiles: Seq<int>, n: int)
    ensures
        forall|t: int|
            #[trigger] ascending(mark_each(Set::<int>::empty(), tiles), n).contains(t) <==> (0 <= t
                < n && tiles.contains(t)),
        forall|k: int, l: int|
            0 <= k < l < ascending(mark_each(Set::<int>::empty(), tiles), n).len() ==> ascending(
                mark_each(Set::<int>::empty(), tiles),
                n,
            )[k] < ascending(mark_each(Set::<int>::empty(), tiles), n)[l],
{
    let marked = mark_each(Set::<int>::empty(), tiles);
    lemma_ascending(marked, n);
    assert forall|t: int| marked.contains(t) <==> tiles.contains(t) by {
        lemma_mark_each(tiles, t);
    }
    assert forall|t: int| #[trigger] ascending(marked, n).contains(t) <==> (0 <= t < n
        && tiles.contains(t)) by {
        assert(marked.contains(t) <==> tiles.contains(t));
        if ascending(marked, n).contains(t) {
            let k = choose|k: int| 0 <= k < ascending(marked, n).len() && ascending(marked, n)[k] == t;
            assert(marked.contains(ascending(marked, n)[k]));
        }
    }
}

proof fn lemma_mark_each(tiles: Seq<int>, t: int)
    ensures
        mark_each(Set::<int>::empty(), tiles).contains(t) <==> tiles.contains(t),
    decreases tiles.len(),
{
    if tiles.len() > 0 {
        let rest = tiles.drop_last();
        lemma_mark_each(rest, t);
        if rest.contains(t) {
            let k = choose|k: int| 0 <= k < rest.len() && rest[k] == t;
            assert(tiles[k] == t);
        }
        if tiles.contains(t) && t != tiles.last() {
            let k = choose|k: int| 0 <= k < tiles.len() && tiles[k] == t;
            assert(rest[k] == t);
        }
        assert(tiles[tiles.len() - 1] == tiles.last());
    }
}

/// A mark stands for a square of sixty-four pixels: if one tile is marked, by its index in the order
/// of rows, one rectangle is drained, and it holds exactly the pixels of the screen in that square.
pub proof fn law_marked_tile_is_reported_as_its_square(
    width: int,
    height: int,
    tx: int,
    ty: int,
    px: int,
    py: int,
)
    requires
        0 < width <= 65536,
        0 < height <= 65536,
        0 <= tx < (width + 63) / 64,
        0 <= ty < (height + 63) / 64,
    ensures
        ({
            let marked = Set::<int>::empty().insert(ty * ((width + 63) / 64) + tx);
            let rects = rects_of(marked, width, height);
            &&& rects.len() == 1
            &&& rects[0].holds(px, py) <==> (0 <= px < width && 0 <= py < height && px / 64 == tx
                && py / 64 == ty)
        }),
{
    let cols = (width + 63) / 64;
    let rows = (height + 63) / 64;
    let tile = ty * cols + tx;
    let marked = Set::<int>::empty().insert(tile);
    let n = tile_count(width, height);
    let order = ascending(marked, n);
    assert(0 <= tile < n) by (nonlinear_arith)
        requires
            tile == ty * cols + tx,
            n == cols * rows,
            0 <= tx < cols,
            0 <= ty < rows,
    ;
    lemma_ascending(marked, n);
    assert(order.contains(tile));
    assert(order.len() == 1) by {
        if order.len() > 1 {
            assert(marked.contains(order[0]));
            assert(marked.contains(order[1]));
            assert(order[0] < order[1]);
        }
    }
    assert(order[0] == tile);
    lemma_tile_rect_holds(width, height, tile, px, py);
    if 0 <= px < width && 0 <= py < height && tile_of_pixel(width, px, py) == tile {
        assert(0 <= px / 64 < cols);
        lemma_fundamental_div_mod_converse(tile, cols, ty, tx);
        lemma_fundamental_div_mod_converse(tile, cols, py / 64, px / 64);
    }
}

/// Drained rectangles start at multiples of sixty-four and come row by row, from left to right.
pub proof fn law_drained_rects_come_row_by_row(
    marked: Set<int>,
    width: int,
    height: int,
    k: int,
    l: int,
)
    requires
        0 <= width <= 65536,
        0 <= height <= 65536,
        0 <= k < l < rects_of(marked, width, height).len(),
    ensures
        ({
            let rects = rects_of(marked, width, height);
            &&& rects[k].x % 64 == 0 && rects[k].y % 64 == 0
            &&& rects[k].width <= 64 && rects[k].height <= 64
            &&& rects[k].y < rects[l].y || (rects[k].y == rects[l].y && rects[k].x < rects[l].x)
        }),
{
    let n = tile_count(width, height);
    let order = ascending(marked, n);
    lemma_ascending(marked, n);
    lemma_tile_count_positive(width, height, order[k]);
    let a = order[k];
    let b = order[l];
    assert(a < b);
    let cols = tile_span(width);
    let rows = tile_span(height);
    lemma_fundamental_div_mod(a, cols);
    lemma_fundamental_div_mod(b, cols);
    assert(0 <= a / cols < rows && 0 <= b / cols < rows) by (nonlinear_arith)
        requires
            a == cols * (a / cols) + a % cols,
            b == cols * (b / cols) + b % cols,
            0 <= a % cols < cols,
            0 <= b % cols < cols,
            0 <= a < b,
            b < cols * rows,
    ;
    assert(a / cols < b / cols || (a / cols == b / cols && a % cols < b % cols))
        by (nonlinear_arith)
        requires
            a == cols * (a / cols) + a % cols,
            b == cols * (b / cols) + b % cols,
            0 <= a % cols < cols,
            0 <= b % cols < cols,
            a < b,
    ;
}

/// A drained rectangle is that of a marked tile, which is returned.
pub(crate) proof fn lemma_drained_rect_is_a_marked_tile(
    marked: Set<int>,
    width: int,
    height: int,
    k: int,
) -> (tile: int)
    requires
        0 <= k < rects_of(marked, width, height).len(),
    ensures
        marked.contains(tile),
        0 <= tile < tile_count(width, height),
        rects_of(marked, width, height)[k] == tile_rect(width, height, tile),
{
    lemma_ascending(marked, tile_count(width, height));
    ascending(marked, tile_count(width, height))[k]
}

/// The drained rectangle of a tile holds the pixels of the screen that lie in the tile.
pub(crate) proof fn lemma_drained_rect_holds_its_tile(
    marked: Set<int>,
    width: int,
    height: int,
    k: int,
    tile: int,
    px: int,
    py: int,
)
    requires
        width <= 65536,
        height <= 65536,
        0 <= px < width,
        0 <= py < height,
        tile_of_pixel(width, px, py) == tile,
        0 <= tile < tile_count(width, height),
        rects_of(marked, width, height)[k] == tile_rect(width, height, tile),
    ensures
        rects_of(marked, width, height)[k].holds(px, py),
{
    lemma_tile_rect_holds(width, height, tile, px, py);
}

} // verus!
