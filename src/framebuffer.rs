//! The in-memory image: two 4-bit palette codes packed into each byte.
use vstd::prelude::*;

use crate::color::{Color, PALETTE_LEN};
use crate::{HEIGHT, WIDTH};

verus! {

/// Bytes in a full frame: one byte for each pair of columns.
pub const BUFFER_LEN: usize = 134400;

/// Fill byte of a blank frame: both pixels WHITE.
pub const BLANK_BYTE: u8 = 0x11;

/// A write to a pixel outside the panel.
#[derive(Clone, Copy, Debug, PartialEq, Eq, Structural)]
pub struct OutOfBounds;

/// Index of the byte that holds pixel `(x, y)`.
pub open spec fn byte_index(x: int, y: int) -> int {
    x / 2 + y * (WIDTH / 2)
}

/// `(x, y)` lies on the panel.
pub open spec fn in_bounds(x: int, y: int) -> bool {
    0 <= x < WIDTH && 0 <= y < HEIGHT
}

/// The code of the pixel in column `x` stored in `byte`: even columns use the
/// high nibble, odd columns the low one.
pub open spec fn nibble_of(byte: u8, x: int) -> u8 {
    if x % 2 == 0 {
        byte >> 4
    } else {
        byte & 0x0f
    }
}

/// `byte` with the nibble of column `x` replaced by `code`.
pub open spec fn with_nibble(byte: u8, x: int, code: u8) -> u8 {
    if x % 2 == 0 {
        (byte & 0x0f) | ((code << 4) as u8)
    } else {
        (byte & 0xf0) | code
    }
}

/// The packed pixel data of a whole panel.
pub struct Framebuffer {
    bytes: Vec<u8>,
}

impl View for Framebuffer {
    type V = Seq<u8>;

    closed spec fn view(&self) -> Seq<u8> {
        self.bytes@
    }
}

impl Framebuffer {
    /// The buffer holds exactly one frame.
    pub open spec fn wf(&self) -> bool {
        self@.len() == BUFFER_LEN
    }

    /// The palette code stored for pixel `(x, y)`.
    pub open spec fn pixel(&self, x: int, y: int) -> u8 {
        nibble_of(self@[byte_index(x, y)], x)
    }

    /// A blank frame: every pixel WHITE.
    pub fn new() -> (fb: Framebuffer)
        ensures
            fb.wf(),
            fb@ == Seq::new(BUFFER_LEN as nat, |i: int| BLANK_BYTE),
            forall|x: int, y: int| in_bounds(x, y) ==> #[trigger] fb.pixel(x, y) == Color::WHITE.code(),
    {
        let mut bytes: Vec<u8> = Vec::with_capacity(BUFFER_LEN);
        let mut i: usize = 0;
        while i < BUFFER_LEN
            invariant
                i <= BUFFER_LEN,
                bytes@.len() == i,
                forall|k: int| 0 <= k < i ==> bytes@[k] == BLANK_BYTE,
            decreases BUFFER_LEN - i,
        {
            bytes.push(BLANK_BYTE);
            i = i + 1;
        }
        let fb = Framebuffer { bytes };
        assert(fb@ =~= Seq::new(BUFFER_LEN as nat, |i: int| BLANK_BYTE));
        proof {
            lemma_blank_pixels(fb@);
        }
        fb
    }

    /// The packed bytes, in the order the panel receives them.
    pub fn as_bytes(&self) -> (r: &[u8])
        ensures
            r@ == self@,
    {
        self.bytes.as_slice()
    }

    /// Stores `color` for pixel `(x, y)`, leaving every other pixel as it was.
    pub fn set_pixel(&mut self, x: usize, y: usize, color: Color) -> (r: Result<(), OutOfBounds>)
        requires
            old(self).wf(),
        ensures
            final(self).wf(),
            in_bounds(x as int, y as int) ==> {
                &&& r is Ok
                &&& final(self)@ == old(self)@.update(
                    byte_index(x as int, y as int),
                    with_nibble(old(self)@[byte_index(x as int, y as int)], x as int, color.code()),
                )
                &&& final(self).pixel(x as int, y as int) == color.code()
                &&& forall|x2: int, y2: int|
                    in_bounds(x2, y2) && (x2 != x || y2 != y)
                        ==> #[trigger] final(self).pixel(x2, y2) == old(self).pixel(x2, y2)
            },
            !in_bounds(x as int, y as int) ==> r == Err::<(), OutOfBounds>(OutOfBounds),
            !in_bounds(x as int, y as int) ==> final(self)@ == old(self)@,
    {
        if x >= WIDTH || y >= HEIGHT {
            return Err(OutOfBounds);
        }
        let code = color.to_code();
        assert(x >> 1 == x / 2) by (bit_vector);
        assert(y * (WIDTH / 2) <= (HEIGHT - 1) * (WIDTH / 2)) by (nonlinear_arith)
            requires
                y < HEIGHT,
        ;
        let idx = (x >> 1) + y * (WIDTH / 2);
        let old_byte = self.bytes[idx];
        let new_byte = if x % 2 == 0 {
            (old_byte & 0x0f) | (code << 4)
        } else {
            (old_byte & 0xf0) | code
        };
        proof {
            lemma_nibble_write(old_byte, code);
        }
        self.bytes.set(idx, new_byte);
        proof {
            let ghost xi = x as int;
            let ghost yi = y as int;
            assert forall|x2: int, y2: int|
                in_bounds(x2, y2) && (x2 != xi || y2 != yi) implies #[trigger] self.pixel(x2, y2)
                == old(self).pixel(x2, y2) by {
                if byte_index(x2, y2) == byte_index(xi, yi) {
                    let ghost a = x2 / 2;
                    let ghost b = xi / 2;
                    assert(0 <= a < 300 && 0 <= b < 300);
                    assert(a + y2 * 300 == b + yi * 300);
                    assert(y2 == yi) by (nonlinear_arith)
                        requires
                            0 <= a < 300,
                            0 <= b < 300,
                            a + y2 * 300 == b + yi * 300,
                    ;
                    assert(x2 / 2 == xi / 2);
                    assert(x2 % 2 != xi % 2);
                }
            }
        }
        Ok(())
    }

    /// The palette code stored for pixel `(x, y)`, if it lies on the panel.
    pub fn get_pixel(&self, x: usize, y: usize) -> (r: Option<u8>)
        requires
            self.wf(),
        ensures
            in_bounds(x as int, y as int) ==> r == Some(self.pixel(x as int, y as int)),
            !in_bounds(x as int, y as int) ==> r.is_none(),
    {
        if x >= WIDTH || y >= HEIGHT {
            return None;
        }
        assert(x >> 1 == x / 2) by (bit_vector);
        assert(y * (WIDTH / 2) <= (HEIGHT - 1) * (WIDTH / 2)) by (nonlinear_arith)
            requires
                y < HEIGHT,
        ;
        let byte = self.bytes[(x >> 1) + y * (WIDTH / 2)];
        if x % 2 == 0 {
            Some(byte >> 4)
        } else {
            Some(byte & 0x0f)
        }
    }

    /// Sets every pixel to WHITE.
    pub fn clear(&mut self)
        requires
            old(self).wf(),
        ensures
            final(self).wf(),
            final(self)@ == Seq::new(BUFFER_LEN as nat, |i: int| BLANK_BYTE),
            forall|x: int, y: int|
                in_bounds(x, y) ==> #[trigger] final(self).pixel(x, y) == Color::WHITE.code(),
    {
        let mut i: usize = 0;
        while i < BUFFER_LEN
            invariant
                i <= BUFFER_LEN,
                self.bytes@.len() == BUFFER_LEN,
                forall|k: int| 0 <= k < i ==> self.bytes@[k] == BLANK_BYTE,
            decreases BUFFER_LEN - i,
        {
            self.bytes.set(i, BLANK_BYTE);
            i = i + 1;
        }
        assert(self@ =~= Seq::new(BUFFER_LEN as nat, |i: int| BLANK_BYTE));
        proof {
            lemma_blank_pixels(self@);
        }
    }
}

/// Every pixel of a blank frame is WHITE.
proof fn lemma_blank_pixels(bytes: Seq<u8>)
    requires
        bytes == Seq::new(BUFFER_LEN as nat, |i: int| BLANK_BYTE),
    ensures
        forall|x: int, y: int|
            in_bounds(x, y) ==> #[trigger] nibble_of(bytes[byte_index(x, y)], x)
                == Color::WHITE.code(),
{
    lemma_blank_is_white();
    assert forall|x: int, y: int| in_bounds(x, y) implies #[trigger] nibble_of(
        bytes[byte_index(x, y)],
        x,
    ) == Color::WHITE.code() by {
        assert(0 <= x / 2 < 300);
        assert(0 <= y * 300 <= 447 * 300) by (nonlinear_arith)
            requires
                0 <= y < 448,
        ;
        assert(0 <= byte_index(x, y) < BUFFER_LEN);
    }
}

proof fn lemma_blank_is_white()
    ensures
        nibble_of(BLANK_BYTE, 0) == 1,
        nibble_of(BLANK_BYTE, 1) == 1,
        forall|x: int| #[trigger] nibble_of(BLANK_BYTE, x) == 1,
{
    assert((0x11u8 >> 4u8) == 1u8) by (bit_vector);
    assert((0x11u8 & 0x0fu8) == 1u8) by (bit_vector);
}

proof fn lemma_nibble_write(b: u8, c: u8)
    requires
        c < PALETTE_LEN,
    ensures
        ((b & 0x0f) | ((c << 4) as u8)) >> 4 == c,
        ((b & 0x0f) | ((c << 4) as u8)) & 0x0f == b & 0x0f,
        ((b & 0xf0) | c) & 0x0f == c,
        ((b & 0xf0) | c) >> 4 == b >> 4,
{
    assert(((b & 0x0f) | ((c << 4) as u8)) >> 4 == c) by (bit_vector)
        requires
            c < 7,
    ;
    assert(((b & 0x0f) | ((c << 4) as u8)) & 0x0f == b & 0x0f) by (bit_vector)
        requires
            c < 7,
    ;
    assert(((b & 0xf0) | c) & 0x0f == c) by (bit_vector)
        requires
            c < 7,
    ;
    assert(((b & 0xf0) | c) >> 4 == b >> 4) by (bit_vector)
        requires
            c < 7,
    ;
}

} // verus!
