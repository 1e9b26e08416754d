use ab1024_ega::color::{Color, Rgb};
use ab1024_ega::display::Display;
use ab1024_ega::error::Error;
use ab1024_ega::framebuffer::{Framebuffer, OutOfBounds, BUFFER_LEN};
use ab1024_ega::{HEIGHT, WIDTH};

#[test]
fn test_set_pixel() {
    let mut epd = Display::new();

    assert_eq!(epd.buffer(), &[0b00010001; WIDTH * HEIGHT / 2][..]);
    epd.set_pixel(0, 0, Color::BLACK).unwrap();
    epd.set_pixel(1, 0, Color::WHITE).unwrap();
    epd.set_pixel(2, 0, Color::GREEN).unwrap();
    epd.set_pixel(3, 0, Color::BLUE).unwrap();
    epd.set_pixel(4, 0, Color::RED).unwrap();
    epd.set_pixel(5, 0, Color::YELLOW).unwrap();
    epd.set_pixel(6, 0, Color::ORANGE).unwrap();
    assert_eq!(
        epd.buffer()[0..4],
        [0b00000001, 0b00100011, 0b01000101, 0b01100001]
    );
}

#[test]
fn buffer_has_one_byte_per_two_pixels() {
    assert_eq!(BUFFER_LEN, 134400);
    assert_eq!(Display::new().buffer().len(), WIDTH * HEIGHT / 2);
}

#[test]
fn black_white_pair_packs_high_then_low() {
    let mut d = Display::new();
    d.set_pixel(0, 0, Color::BLACK).unwrap();
    d.set_pixel(1, 0, Color::WHITE).unwrap();
    assert_eq!(d.buffer()[0], (0 << 4) | 1);
    assert_eq!(d.buffer()[1], 0x11);
}

#[test]
fn set_pixel_reads_back_and_spares_neighbour() {
    let mut d = Display::new();
    d.set_pixel(101, 7, Color::BLUE).unwrap();
    assert_eq!(d.get_pixel(101, 7), Some(3));
    assert_eq!(d.get_pixel(100, 7), Some(1));
    d.set_pixel(100, 7, Color::ORANGE).unwrap();
    assert_eq!(d.get_pixel(100, 7), Some(6));
    assert_eq!(d.get_pixel(101, 7), Some(3));
    assert_eq!(d.buffer()[50 + 7 * 300], 0x63);
}

#[test]
fn last_pixel_is_last_low_nibble() {
    let mut d = Display::new();
    d.set_pixel(WIDTH - 1, HEIGHT - 1, Color::GREEN).unwrap();
    assert_eq!(d.buffer()[BUFFER_LEN - 1], 0x12);
    assert_eq!(d.get_pixel(WIDTH - 1, HEIGHT - 1), Some(2));
}

#[test]
fn out_of_bounds_is_refused_without_change() {
    let mut d = Display::new();
    d.set_pixel(3, 3, Color::RED).unwrap();
    let before = d.buffer().to_vec();
    assert_eq!(d.set_pixel(WIDTH, 0, Color::BLACK), Err(OutOfBounds));
    assert_eq!(d.set_pixel(0, HEIGHT, Color::BLACK), Err(OutOfBounds));
    assert_eq!(d.set_pixel(usize::MAX, usize::MAX, Color::BLACK), Err(OutOfBounds));
    assert_eq!(d.set_pixel_rgb(WIDTH + 10, 2, Rgb::new(1, 2, 3)), Err(OutOfBounds));
    assert_eq!(d.buffer(), &before[..]);
    assert_eq!(d.get_pixel(WIDTH, 0), None);
    assert_eq!(d.get_pixel(0, HEIGHT), None);
}

#[test]
fn clear_makes_every_pixel_white() {
    let mut d = Display::new();
    for x in 0..10 {
        d.set_pixel(x, x, Color::BLACK).unwrap();
    }
    d.set_pixel(WIDTH - 1, HEIGHT - 1, Color::RED).unwrap();
    d.clear();
    assert!(d.buffer().iter().all(|b| *b == 0x11));
    for (x, y) in [(0, 0), (1, 1), (9, 9), (WIDTH - 1, HEIGHT - 1)] {
        assert_eq!(d.get_pixel(x, y), Some(1));
    }
}

#[test]
fn framebuffer_alone_packs_the_same_way() {
    let mut fb = Framebuffer::new();
    fb.set_pixel(2, 1, Color::YELLOW).unwrap();
    assert_eq!(fb.as_bytes()[1 + 300], 0x51);
    assert_eq!(fb.get_pixel(2, 1), Some(5));
    fb.clear();
    assert_eq!(fb.get_pixel(2, 1), Some(1));
}

#[test]
fn set_pixel_rgb_quantizes() {
    let mut d = Display::new();
    d.set_pixel_rgb(0, 0, Rgb::new(250, 40, 30)).unwrap();
    d.set_pixel_rgb(1, 0, Rgb::new(10, 10, 10)).unwrap();
    assert_eq!(d.buffer()[0], 0x40);
}

#[test]
fn out_of_bounds_converts_to_driver_error() {
    let e: Error<(), (), (), ()> = Error::from(OutOfBounds);
    assert_eq!(e, Error::PixelOutOfBounds);
}
