//! The panel's native palette and nearest-colour mapping.
use vstd::prelude::*;

verus! {

/// One of the seven colours the panel can show. The wire code of each is
/// given by [`Color::code`].
#[derive(Clone, Copy, Debug, PartialEq, Eq, Structural, Hash)]
pub enum Color {
    BLACK,
    WHITE,
    GREEN,
    BLUE,
    RED,
    YELLOW,
    ORANGE,
}

impl Default for Color {
    fn default() -> (r: Color)
        ensures
            r == Color::BLACK,
    {
        Color::BLACK
    }
}

/// A colour as 8-bit red, green and blue channels.
#[derive(Clone, Copy, Debug, PartialEq, Eq, Structural, Hash)]
pub struct Rgb {
    pub r: u8,
    pub g: u8,
    pub b: u8,
}

/// Number of palette entries.
pub const PALETTE_LEN: u8 = 7;

impl Rgb {
    pub open spec fn spec_new(r: u8, g: u8, b: u8) -> Rgb {
        Rgb { r, g, b }
    }

    pub fn new(r: u8, g: u8, b: u8) -> (c: Rgb)
        ensures
            c == Rgb::spec_new(r, g, b),
    {
        Rgb { r, g, b }
    }
}

/// The colour whose wire code is `code`, for codes below seven.
pub open spec fn color_of_code(code: int) -> Color {
    if code == 0 {
        Color::BLACK
    } else if code == 1 {
        Color::WHITE
    } else if code == 2 {
        Color::GREEN
    } else if code == 3 {
        Color::BLUE
    } else if code == 4 {
        Color::RED
    } else if code == 5 {
        Color::YELLOW
    } else {
        Color::ORANGE
    }
}

pub open spec fn square(x: int) -> int {
    x * x
}

/// Squared Euclidean distance between two colours in RGB space.
pub open spec fn distance(a: Rgb, b: Rgb) -> int {
    square(a.r - b.r) + square(a.g - b.g) + square(a.b - b.b)
}

/// `k` is the palette entry closest to `c`; among equally close entries it
/// is the one declared first.
pub open spec fn is_nearest(c: Rgb, k: Color) -> bool {
    forall|o: Color|
        {
            &&& distance(c, k.rgb()) <= #[trigger] distance(c, o.rgb())
            &&& o.code() < k.code() ==> distance(c, k.rgb()) < distance(c, o.rgb())
        }
}

impl Color {
    /// The 4-bit code that the panel expects for this colour.
    pub open spec fn code(self) -> u8 {
        match self {
            Color::BLACK => 0,
            Color::WHITE => 1,
            Color::GREEN => 2,
            Color::BLUE => 3,
            Color::RED => 4,
            Color::YELLOW => 5,
            Color::ORANGE => 6,
        }
    }

    /// The representative RGB value of this colour.
    pub open spec fn rgb(self) -> Rgb {
        match self {
            Color::BLACK => Rgb { r: 0x00, g: 0x00, b: 0x00 },
            Color::WHITE => Rgb { r: 0xff, g: 0xff, b: 0xff },
            Color::GREEN => Rgb { r: 0x10, g: 0xcb, b: 0x10 },
            Color::BLUE => Rgb { r: 0x20, g: 0x20, b: 0xff },
            Color::RED => Rgb { r: 0xff, g: 0x30, b: 0x20 },
            Color::YELLOW => Rgb { r: 0xff, g: 0xff, b: 0x50 },
            Color::ORANGE => Rgb { r: 0xf0, g: 0x70, b: 0x20 },
        }
    }

    /// The wire code of this colour.
    pub fn to_code(self) -> (r: u8)
        ensures
            r == self.code(),
            r < PALETTE_LEN,
            color_of_code(r as int) == self,
    {
        match self {
            Color::BLACK => 0,
            Color::WHITE => 1,
            Color::GREEN => 2,
            Color::BLUE => 3,
            Color::RED => 4,
            Color::YELLOW => 5,
            Color::ORANGE => 6,
        }
    }

    /// The colour with wire code `code`; codes from seven up name no colour.
    pub fn from_code(code: u8) -> (r: Option<Color>)
        ensures
            code < PALETTE_LEN ==> r == Some(color_of_code(code as int)),
            code < PALETTE_LEN ==> r.unwrap().code() == code,
            code >= PALETTE_LEN ==> r.is_none(),
    {
        match code {
            0 => Some(Color::BLACK),
            1 => Some(Color::WHITE),
            2 => Some(Color::GREEN),
            3 => Some(Color::BLUE),
            4 => Some(Color::RED),
            5 => Some(Color::YELLOW),
            6 => Some(Color::ORANGE),
            _ => None,
        }
    }

    /// The representative RGB value of this colour.
    pub fn to_rgb(self) -> (r: Rgb)
        ensures
            r == self.rgb(),
    {
        match self {
            Color::BLACK => Rgb { r: 0x00, g: 0x00, b: 0x00 },
            Color::WHITE => Rgb { r: 0xff, g: 0xff, b: 0xff },
            Color::GREEN => Rgb { r: 0x10, g: 0xcb, b: 0x10 },
            Color::BLUE => Rgb { r: 0x20, g: 0x20, b: 0xff },
            Color::RED => Rgb { r: 0xff, g: 0x30, b: 0x20 },
            Color::YELLOW => Rgb { r: 0xff, g: 0xff, b: 0x50 },
            Color::ORANGE => Rgb { r: 0xf0, g: 0x70, b: 0x20 },
        }
    }

    /// The palette entry closest to `c` in squared RGB distance; ties go to
    /// the entry declared first.
    pub fn nearest(c: Rgb) -> (k: Color)
        ensures
            is_nearest(c, k),
    {
        let mut best = Color::BLACK;
        let mut best_d = channel_distance(c, best.to_rgb());
        let mut code: u8 = 1;
        while code < PALETTE_LEN
            invariant
                1 <= code <= PALETTE_LEN,
                best.code() < code,
                best_d == distance(c, best.rgb()),
                forall|o: Color|
                    #![trigger distance(c, o.rgb())]
                    o.code() < code ==> {
                        &&& best_d <= distance(c, o.rgb())
                        &&& o.code() < best.code() ==> best_d < distance(c, o.rgb())
                    },
            decreases PALETTE_LEN - code,
        {
            let cand = Color::from_code(code).unwrap();
            let d = channel_distance(c, cand.to_rgb());
            if d < best_d {
                best = cand;
                best_d = d;
            }
            code = code + 1;
        }
        assert forall|o: Color| #[trigger] distance(c, o.rgb()) >= 0 by {
            lemma_distance_nonneg(c, o.rgb());
        }
        best
    }
}

proof fn lemma_distance_nonneg(a: Rgb, b: Rgb)
    ensures
        distance(a, b) >= 0,
        distance(a, b) == 0 <==> a == b,
{
    assert(square(a.r - b.r) >= 0) by (nonlinear_arith);
    assert(square(a.g - b.g) >= 0) by (nonlinear_arith);
    assert(square(a.b - b.b) >= 0) by (nonlinear_arith);
    assert(square(a.r - b.r) == 0 ==> a.r == b.r) by (nonlinear_arith);
    assert(square(a.g - b.g) == 0 ==> a.g == b.g) by (nonlinear_arith);
    assert(square(a.b - b.b) == 0 ==> a.b == b.b) by (nonlinear_arith);
    if distance(a, b) == 0 {
        assert(a.r == b.r && a.g == b.g && a.b == b.b);
    }
    if a == b {
        assert(square(0) == 0);
    }
}

/// At most one palette entry is nearest to a given colour.
pub proof fn lemma_nearest_unique(c: Rgb, k1: Color, k2: Color)
    requires
        is_nearest(c, k1),
        is_nearest(c, k2),
    ensures
        k1 == k2,
{
    assert(distance(c, k1.rgb()) <= distance(c, k2.rgb()));
    assert(distance(c, k2.rgb()) <= distance(c, k1.rgb()));
}

/// The representative RGB value of a palette entry maps back to that entry.
pub proof fn lemma_nearest_of_entry(k: Color)
    ensures
        is_nearest(k.rgb(), k),
{
    lemma_distance_nonneg(k.rgb(), k.rgb());
    assert forall|o: Color|
        {
            &&& distance(k.rgb(), k.rgb()) <= #[trigger] distance(k.rgb(), o.rgb())
            &&& o.code() < k.code() ==> distance(k.rgb(), k.rgb()) < distance(
                k.rgb(),
                o.rgb(),
            )
        } by {
        lemma_distance_nonneg(k.rgb(), o.rgb());
        if o != k {
            assert(o.rgb() != k.rgb());
        }
    }
}

/// Quantizing is idempotent: quantizing the representative of the entry
/// nearest to `c` gives that same entry again.
pub proof fn lemma_nearest_idempotent(c: Rgb, k: Color, k2: Color)
    requires
        is_nearest(c, k),
        is_nearest(k.rgb(), k2),
    ensures
        k2 == k,
{
    lemma_nearest_of_entry(k);
    lemma_nearest_unique(k.rgb(), k, k2);
}

/// Squared difference of two channel values.
fn channel_square(a: u8, b: u8) -> (r: u32)
    ensures
        r == square(a - b),
        r <= 255 * 255,
{
    let d: u32 = if a >= b {
        (a - b) as u32
    } else {
        (b - a) as u32
    };
    assert(d * d <= 255 * 255) by (nonlinear_arith)
        requires
            d <= 255,
    ;
    assert(d * d == square(a - b)) by (nonlinear_arith)
        requires
            d == a - b || d == b - a,
    ;
    d * d
}

/// Squared RGB distance, computed without overflow.
fn channel_distance(a: Rgb, b: Rgb) -> (r: u32)
    ensures
        r == distance(a, b),
{
    channel_square(a.r, b.r) + channel_square(a.g, b.g) + channel_square(a.b, b.b)
}

} // verus!
