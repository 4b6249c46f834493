use glass::data_types::Rect;
use glass::graphics::{Bitmap, BitmapRGBA8, Texture2D, Window};

const FILL: u32 = 0xFF000000;

/// A distinct value for each source coordinate, so tests can tell which
/// pixel landed where.
fn tag(x: u32, y: u32) -> u32 {
    0x0100_0000 + y * 1000 + x
}

#[test]
fn bitmap_new_is_opaque_black() {
    let b = BitmapRGBA8::new(3, 2);
    for y in 0..2 {
        for x in 0..3 {
            assert_eq!(b.read(x, y), Some(FILL));
        }
    }
}

#[test]
fn bitmap_pitch_is_width() {
    let b = BitmapRGBA8::new(7, 2);
    assert_eq!(b.pitch(), 7);
}

#[test]
fn bitmap_read_out_of_range_is_absent() {
    let b = BitmapRGBA8::new(4, 4);
    assert_eq!(b.read(4, 0), None);
    assert_eq!(b.read(0, 4), None);
    assert_eq!(b.read(usize::MAX, 0), None);
    assert_eq!(b.read(0, usize::MAX), None);
    assert_eq!(b.read(3, 3), Some(FILL));
}

#[test]
fn bitmap_zero_sized_always_absent() {
    let b = BitmapRGBA8::new(0, 0);
    assert_eq!(b.read(0, 0), None);
    let b = BitmapRGBA8::new(0, 5);
    assert_eq!(b.read(0, 0), None);
    let b = BitmapRGBA8::new(5, 0);
    assert_eq!(b.read(0, 0), None);
}

#[test]
fn bitmap_write_then_read() {
    let mut b = BitmapRGBA8::new(4, 4);
    b.write(2, 1, 0xAABBCCDD);
    assert_eq!(b.read(2, 1), Some(0xAABBCCDD));
    assert_eq!(b.read(1, 2), Some(FILL));
}

#[test]
fn bitmap_write_out_of_range_is_noop() {
    let mut b = BitmapRGBA8::new(4, 4);
    b.write(4, 0, 0xAABBCCDD);
    b.write(0, 4, 0xAABBCCDD);
    for y in 0..4 {
        for x in 0..4 {
            assert_eq!(b.read(x, y), Some(FILL));
        }
    }
}

#[test]
fn texture_new_is_blank() {
    let t = Texture2D::<BitmapRGBA8>::new(5, 4);
    for y in 0..4 {
        for x in 0..5 {
            assert_eq!(t.read_pixel(x, y), Some(FILL));
        }
    }
    assert_eq!(t.read_pixel(5, 0), None);
    assert_eq!(t.read_pixel(0, 4), None);
}

#[test]
fn texture_resize_discards_contents() {
    let mut t = Texture2D::<BitmapRGBA8>::new(4, 4);
    for y in 0..4 {
        for x in 0..4 {
            t.write_pixel(x, y, tag(x, y));
        }
    }
    let grown = t.resize(6, 6);
    for y in 0..6 {
        for x in 0..6 {
            assert_eq!(grown.read_pixel(x, y), Some(FILL));
        }
    }
    let shrunk = t.resize(2, 2);
    for y in 0..2 {
        for x in 0..2 {
            assert_eq!(shrunk.read_pixel(x, y), Some(FILL));
        }
    }
}

#[test]
fn blit_fully_contained_copies_every_pixel_once() {
    let mut src = Texture2D::<BitmapRGBA8>::new(8, 8);
    for y in 0..8 {
        for x in 0..8 {
            src.write_pixel(x, y, tag(x, y));
        }
    }
    let mut dst = Texture2D::<BitmapRGBA8>::new(10, 10);
    src.blit_to(
        &mut dst,
        Rect::new(1isize, 2isize, 3isize, 4isize),
        Rect::new(5isize, 6isize, 3isize, 4isize),
    );
    for y in 0..10u32 {
        for x in 0..10u32 {
            let expected = if (5..8).contains(&x) && (6..10).contains(&y) {
                tag(x - 5 + 1, y - 6 + 2)
            } else {
                FILL
            };
            assert_eq!(dst.read_pixel(x, y), Some(expected));
        }
    }
}

#[test]
fn blit_negative_origin_copies_in_bounds_portion() {
    let mut src = Texture2D::<BitmapRGBA8>::new(30, 30);
    for y in 0..30 {
        for x in 0..30 {
            src.write_pixel(x, y, tag(x, y));
        }
    }
    let mut dst = Texture2D::<BitmapRGBA8>::new(20, 20);
    src.blit_to(
        &mut dst,
        Rect::new(-5isize, -5isize, 10isize, 10isize),
        Rect::new(0isize, 0isize, 10isize, 10isize),
    );
    // Only the 5x5 in-bounds portion of the source rectangle is copied,
    // landing at destination (0, 0).
    for y in 0..20u32 {
        for x in 0..20u32 {
            let expected = if x < 5 && y < 5 { tag(x, y) } else { FILL };
            assert_eq!(dst.read_pixel(x, y), Some(expected));
        }
    }
}

#[test]
fn blit_entirely_outside_copies_nothing() {
    let mut src = Texture2D::<BitmapRGBA8>::new(8, 8);
    for y in 0..8 {
        for x in 0..8 {
            src.write_pixel(x, y, tag(x, y));
        }
    }
    let mut dst = Texture2D::<BitmapRGBA8>::new(8, 8);
    dst.write_pixel(3, 3, 0xDEADBEEF);
    src.blit_to(
        &mut dst,
        Rect::new(100isize, 100isize, 4isize, 4isize),
        Rect::new(-50isize, -50isize, 4isize, 4isize),
    );
    for y in 0..8u32 {
        for x in 0..8u32 {
            let expected = if x == 3 && y == 3 { 0xDEADBEEF } else { FILL };
            assert_eq!(dst.read_pixel(x, y), Some(expected));
        }
    }
}

#[test]
fn blit_degenerate_rectangles_copy_nothing() {
    let src = Texture2D::<BitmapRGBA8>::new(8, 8);
    let mut dst = Texture2D::<BitmapRGBA8>::new(8, 8);
    src.blit_to(
        &mut dst,
        Rect::new(2isize, 2isize, -5isize, 3isize),
        Rect::new(1isize, 1isize, 3isize, 3isize),
    );
    src.blit_to(
        &mut dst,
        Rect::new(2isize, 2isize, 0isize, 0isize),
        Rect::new(1isize, 1isize, 3isize, 3isize),
    );
    for y in 0..8u32 {
        for x in 0..8u32 {
            assert_eq!(dst.read_pixel(x, y), Some(FILL));
        }
    }
}

#[test]
fn blit_clips_source_and_target_independently() {
    let mut src = Texture2D::<BitmapRGBA8>::new(4, 4);
    for y in 0..4 {
        for x in 0..4 {
            src.write_pixel(x, y, tag(x, y));
        }
    }
    let mut dst = Texture2D::<BitmapRGBA8>::new(4, 4);
    // Source spills past the right edge (clipped to width 2), target spills
    // past the bottom (clipped to height 3): the copy is 2 wide, 3 tall.
    src.blit_to(
        &mut dst,
        Rect::new(2isize, 0isize, 4isize, 4isize),
        Rect::new(0isize, 1isize, 4isize, 4isize),
    );
    for y in 0..4u32 {
        for x in 0..4u32 {
            let expected = if x < 2 && (1..4).contains(&y) {
                tag(x + 2, y - 1)
            } else {
                FILL
            };
            assert_eq!(dst.read_pixel(x, y), Some(expected));
        }
    }
}

#[test]
fn window_new_has_blank_canvas() {
    let w = Window::new("demo", 6, 3);
    assert_eq!(w.title, "demo");
    assert_eq!(w.width, 6);
    assert_eq!(w.height, 3);
    for y in 0..3 {
        for x in 0..6 {
            assert_eq!(w.canvas.read_pixel(x, y), Some(FILL));
        }
    }
    assert_eq!(w.canvas.read_pixel(6, 0), None);
}

#[test]
fn window_resize_blanks_canvas() {
    let mut w = Window::new("demo", 4, 4);
    w.canvas.write_pixel(0, 0, 0xDEADBEEF);
    w.resize(5, 2);
    assert_eq!(w.width, 5);
    assert_eq!(w.height, 2);
    for y in 0..2 {
        for x in 0..5 {
            assert_eq!(w.canvas.read_pixel(x, y), Some(FILL));
        }
    }
    assert_eq!(w.canvas.read_pixel(0, 2), None);
}
