use kmsvnc::frame_diff::{DirtyRect, DirtyTiles, TILE_SIZE};

fn rect(x: u16, y: u16, width: u16, height: u16) -> DirtyRect {
    DirtyRect { x, y, width, height }
}

#[test]
fn tile_size_is_64() {
    assert_eq!(TILE_SIZE, 64);
}

#[test]
fn new_accumulator_has_nothing_to_drain() {
    let mut tiles = DirtyTiles::new(1920, 1080);
    assert!(tiles.drain_to_rects().is_empty());
}

#[test]
fn edge_tiles_are_cut_off_at_the_screen() {
    // 130x70: three columns, two rows.
    let mut tiles = DirtyTiles::new(130, 70);
    tiles.set(0);
    tiles.set(2);
    tiles.set(5);
    assert_eq!(
        tiles.drain_to_rects(),
        vec![rect(0, 0, 64, 64), rect(128, 0, 2, 64), rect(128, 64, 2, 6)]
    );
}

#[test]
fn rects_come_row_by_row_and_once() {
    let mut tiles = DirtyTiles::new(128, 128);
    tiles.set(3);
    tiles.set(1);
    tiles.set(3);
    assert_eq!(tiles.drain_to_rects(), vec![rect(64, 0, 64, 64), rect(64, 64, 64, 64)]);
}

#[test]
fn set_all_covers_every_pixel_exactly_once() {
    let (w, h) = (200usize, 137usize);
    let mut tiles = DirtyTiles::new(w as u32, h as u32);
    tiles.set_all();
    let mut seen = vec![0u8; w * h];
    for r in tiles.drain_to_rects() {
        for y in r.y as usize..(r.y + r.height) as usize {
            for x in r.x as usize..(r.x + r.width) as usize {
                seen[y * w + x] += 1;
            }
        }
    }
    assert!(seen.iter().all(|n| *n == 1));
}

#[test]
fn set_all_with_more_than_one_word() {
    // 1920x1080: 30 x 17 = 510 tiles.
    let mut tiles = DirtyTiles::new(1920, 1080);
    tiles.set_all();
    assert_eq!(tiles.drain_to_rects().len(), 510);
}

#[test]
fn set_all_with_whole_words() {
    // 512x512: 64 tiles.
    let mut tiles = DirtyTiles::new(512, 512);
    tiles.set_all();
    assert_eq!(tiles.drain_to_rects().len(), 64);
}

#[test]
fn second_drain_is_empty() {
    let mut tiles = DirtyTiles::new(640, 480);
    tiles.set_all();
    assert_eq!(tiles.drain_to_rects().len(), 80);
    assert!(tiles.drain_to_rects().is_empty());
}

#[test]
fn position_past_the_last_tile_is_not_reported() {
    let mut tiles = DirtyTiles::new(64, 64);
    tiles.set(63);
    assert!(tiles.drain_to_rects().is_empty());
}

#[test]
fn empty_screen_has_no_tiles() {
    let mut tiles = DirtyTiles::new(0, 100);
    tiles.set_all();
    assert!(tiles.drain_to_rects().is_empty());
}

#[test]
fn coordinates_wrap_at_sixteen_bits() {
    let mut tiles = DirtyTiles::new(65600, 64);
    tiles.set(1024);
    assert_eq!(tiles.drain_to_rects(), vec![rect(0, 0, 64, 64)]);
}
