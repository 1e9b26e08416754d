use ab1024_ega::dither::Dither;

fn pack(r: u8, g: u8, b: u8) -> u32 {
    ((r as u32) << 16) | ((g as u32) << 8) | b as u32
}

#[test]
fn uniform_palette_colour_has_no_error() {
    let (w, h) = (5isize, 4isize);
    for (px, code) in [
        (pack(0x10, 0xcb, 0x10), 2usize),
        (pack(0xff, 0xff, 0xff), 1),
        (pack(0xf0, 0x70, 0x20), 6),
    ] {
        let mut d = Dither::new();
        for j in 0..h {
            for i in 0..w {
                assert_eq!(d.pending_error(), (0, 0, 0));
                assert_eq!(d.dither_get_pixel(px, i, j, w), code);
            }
        }
        assert_eq!(d.pending_error(), (0, 0, 0));
    }
}

#[test]
fn residual_goes_right_by_seven_sixteenths() {
    let mut d = Dither::new();
    // Grey quantizes to orange (0xf0, 0x70, 0x20); residual (-112, 16, 96).
    assert_eq!(d.dither_get_pixel(pack(0x80, 0x80, 0x80), 0, 0, 3), 6);
    assert_eq!(d.pending_error(), (-49, 7, 42));
}

#[test]
fn error_changes_the_next_choice() {
    // Alone, (0x60, 0x60, 0x60) is nearest to green; with grey's error
    // (-49, 7, 42) pushed into it, it becomes (47, 103, 138), nearest to blue.
    let mut plain = Dither::new();
    let alone = plain.dither_get_pixel(pack(0x60, 0x60, 0x60), 0, 0, 2);
    let mut d = Dither::new();
    d.dither_get_pixel(pack(0x80, 0x80, 0x80), 0, 0, 2);
    let after = d.dither_get_pixel(pack(0x60, 0x60, 0x60), 1, 0, 2);
    assert_eq!(alone, 2);
    assert_eq!(after, 3);
}

#[test]
fn next_row_gets_the_lower_shares() {
    // Width one: nothing goes right or diagonally; 5/16 goes straight down.
    let mut d = Dither::new();
    assert_eq!(d.dither_get_pixel(pack(0x80, 0x80, 0x80), 0, 0, 1), 6);
    // Residual (-112, 16, 96): 5/16 of each, rounded toward zero.
    assert_eq!(d.pending_error(), (-35, 5, 30));
}

#[test]
fn rows_wrap_through_the_window() {
    let mut d = Dither::new();
    let w = 3isize;
    for j in 0..20isize {
        for i in 0..w {
            let c = d.dither_get_pixel(pack(0x40, 0x90, 0xd0), i, j, w);
            assert!(c < 7);
        }
    }
}
