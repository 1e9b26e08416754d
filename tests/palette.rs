use ab1024_ega::color::{Color, Rgb, PALETTE_LEN};

const ALL: [Color; 7] = [
    Color::BLACK,
    Color::WHITE,
    Color::GREEN,
    Color::BLUE,
    Color::RED,
    Color::YELLOW,
    Color::ORANGE,
];

#[test]
fn codes_are_declaration_order() {
    for (i, c) in ALL.iter().enumerate() {
        assert_eq!(c.to_code() as usize, i);
        assert_eq!(Color::from_code(i as u8), Some(*c));
    }
    assert_eq!(PALETTE_LEN, 7);
}

#[test]
fn codes_from_seven_name_no_colour() {
    for code in 7..=255u8 {
        assert_eq!(Color::from_code(code), None);
    }
}

#[test]
fn representative_colours() {
    assert_eq!(Color::BLACK.to_rgb(), Rgb::new(0x00, 0x00, 0x00));
    assert_eq!(Color::WHITE.to_rgb(), Rgb::new(0xFF, 0xFF, 0xFF));
    assert_eq!(Color::GREEN.to_rgb(), Rgb::new(0x10, 0xcb, 0x10));
    assert_eq!(Color::BLUE.to_rgb(), Rgb::new(0x20, 0x20, 0xff));
    assert_eq!(Color::RED.to_rgb(), Rgb::new(0xff, 0x30, 0x20));
    assert_eq!(Color::YELLOW.to_rgb(), Rgb::new(0xff, 0xff, 0x50));
    assert_eq!(Color::ORANGE.to_rgb(), Rgb::new(0xf0, 0x70, 0x20));
}

#[test]
fn each_entry_maps_to_itself() {
    for c in ALL {
        assert_eq!(Color::nearest(c.to_rgb()), c);
    }
}

#[test]
fn nearest_examples() {
    assert_eq!(Color::nearest(Rgb::new(0x80, 0x80, 0x80)), Color::ORANGE);
    assert_eq!(Color::nearest(Rgb::new(10, 10, 10)), Color::BLACK);
    assert_eq!(Color::nearest(Rgb::new(250, 250, 250)), Color::WHITE);
    assert_eq!(Color::nearest(Rgb::new(0, 255, 0)), Color::GREEN);
    assert_eq!(Color::nearest(Rgb::new(0, 0, 200)), Color::BLUE);
    assert_eq!(Color::nearest(Rgb::new(200, 0, 0)), Color::RED);
}

#[test]
fn nearest_agrees_with_a_linear_scan() {
    // The entry of least squared distance, the first declared among equals.
    let d = |a: Rgb, b: Rgb| {
        let f = |x: u8, y: u8| (x as i32 - y as i32).pow(2);
        f(a.r, b.r) + f(a.g, b.g) + f(a.b, b.b)
    };
    for r in (0..=255u8).step_by(5) {
        for g in (0..=255u8).step_by(5) {
            for b in (0..=255u8).step_by(15) {
                let p = Rgb::new(r, g, b);
                let best = ALL.iter().map(|k| d(p, k.to_rgb())).min().unwrap();
                let first = ALL.iter().find(|k| d(p, k.to_rgb()) == best).unwrap();
                assert_eq!(Color::nearest(p), *first);
            }
        }
    }
}

#[test]
fn quantizing_twice_changes_nothing() {
    for p in [
        Rgb::new(1, 2, 3),
        Rgb::new(0x80, 0x80, 0x80),
        Rgb::new(200, 100, 50),
        Rgb::new(30, 200, 40),
        Rgb::new(255, 0, 255),
    ] {
        let k = Color::nearest(p);
        assert_eq!(Color::nearest(k.to_rgb()), k);
    }
}

#[test]
fn default_colour_is_black() {
    assert_eq!(Color::default(), Color::BLACK);
}
