use chio::{Framebuffer, Keypad, Row};

#[test]
fn blank_screen_has_no_lit_pixel() {
    let fb = Framebuffer::new();
    for y in 0..32u8 {
        for x in 0..64u8 {
            assert!(!fb.get(x, y));
        }
    }
}

#[test]
fn draw_digit_zero_then_again_self_erases() {
    // The digit-0 font glyph: no collision on a blank screen, then a
    // second identical draw collides and erases every pixel.
    let glyph = [0xF0u8, 0x90, 0x90, 0x90, 0xF0];
    let mut fb = Framebuffer::new();
    let collision = fb.draw((0, 0), &glyph);
    assert!(!collision);
    // Top row of the glyph: columns 0..=3 lit, 4..=7 dark.
    for x in 0..4u8 {
        assert!(fb.get(x, 0));
    }
    for x in 4..8u8 {
        assert!(!fb.get(x, 0));
    }
    // Middle rows: only columns 0 and 3 lit.
    for y in 1..4u8 {
        assert!(fb.get(0, y));
        assert!(!fb.get(1, y));
        assert!(!fb.get(2, y));
        assert!(fb.get(3, y));
    }
    let collision = fb.draw((0, 0), &glyph);
    assert!(collision);
    for y in 0..32u8 {
        for x in 0..64u8 {
            assert!(!fb.get(x, y));
        }
    }
}

#[test]
fn draw_wraps_horizontally() {
    // A full byte at x = 60 lights columns 60..=63 and wraps into 0..=3.
    let mut fb = Framebuffer::new();
    let collision = fb.draw((60, 0), &[0xFF]);
    assert!(!collision);
    for x in 0..64u8 {
        let expected = (60..64).contains(&x) || (0..4).contains(&x);
        assert_eq!(fb.get(x, 0), expected, "column {}", x);
    }
    for y in 1..32u8 {
        for x in 0..64u8 {
            assert!(!fb.get(x, y));
        }
    }
}

#[test]
fn draw_wraps_vertically() {
    // A two-byte sprite at y = 31 writes rows 31 and 0.
    let mut fb = Framebuffer::new();
    let collision = fb.draw((0, 31), &[0xFF, 0xFF]);
    assert!(!collision);
    for x in 0..8u8 {
        assert!(fb.get(x, 31));
        assert!(fb.get(x, 0));
    }
    for y in 1..31u8 {
        for x in 0..64u8 {
            assert!(!fb.get(x, y));
        }
    }
}

#[test]
fn draw_x_coordinate_wraps_modulo_64() {
    let mut fb = Framebuffer::new();
    fb.draw((64, 0), &[0x80]);
    assert!(fb.get(0, 0));
}

#[test]
fn collision_is_reported_per_overlapping_pixel() {
    let mut fb = Framebuffer::new();
    fb.draw((0, 0), &[0x80]);
    // Disjoint pixels: no collision.
    assert!(!fb.draw((1, 0), &[0x80]));
    // Overlapping pixel: collision, pixel goes dark.
    assert!(fb.draw((0, 0), &[0x80]));
    assert!(!fb.get(0, 0));
}

#[test]
fn clear_turns_every_pixel_off() {
    let mut fb = Framebuffer::new();
    fb.draw((10, 10), &[0xFF, 0xFF]);
    fb.clear();
    for y in 0..32u8 {
        for x in 0..64u8 {
            assert!(!fb.get(x, y));
        }
    }
}

#[test]
fn row_cursor_yields_exactly_64_pixels() {
    let mut fb = Framebuffer::new();
    fb.draw((0, 0), &[0xA0]);
    let rows = fb.rows();
    let mut row = rows[0];
    let mut bits = Vec::new();
    while let Some(bit) = row.next() {
        bits.push(bit);
    }
    assert_eq!(bits.len(), 64);
    assert!(bits[0]);
    assert!(!bits[1]);
    assert!(bits[2]);
    for k in 3..64 {
        assert!(!bits[k]);
    }
}

#[test]
fn row_from_u64_starts_at_column_zero() {
    let mut row = Row::from(1u64 << 63);
    assert_eq!(row.next(), Some(true));
    assert_eq!(row.next(), Some(false));
}

#[test]
fn keypad_first_pressed_key_returns_lowest() {
    let mut kp = Keypad::new();
    assert_eq!(kp.first_pressed_key(), None);
    kp.set_key(9, true);
    kp.set_key(5, true);
    assert_eq!(kp.first_pressed_key(), Some(5));
    kp.set_key(0, true);
    assert_eq!(kp.first_pressed_key(), Some(0));
    kp.set_key(0, false);
    kp.set_key(5, false);
    assert_eq!(kp.first_pressed_key(), Some(9));
    assert!(kp.key(9));
    assert!(!kp.key(8));
}
