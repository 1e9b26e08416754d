//! The driver's public surface: a framebuffer and the sequences that show it.
use vstd::prelude::*;

use crate::color::{color_of_code, is_nearest, Color, Rgb};
use crate::framebuffer::{
    byte_index, in_bounds, nibble_of, Framebuffer, OutOfBounds, BLANK_BYTE, BUFFER_LEN,
};
use crate::protocol::{display_ops, init_ops, Session};

verus! {

/// A seven-colour panel's framebuffer together with the command sequences
/// that send it to the panel.
///
/// [`Display::display`] is self-contained: its session wakes the panel,
/// transfers the frame, refreshes and puts the panel back to sleep.
pub struct Display {
    frame: Framebuffer,
}

impl View for Display {
    type V = Seq<u8>;

    closed spec fn view(&self) -> Seq<u8> {
        self.frame@
    }
}

impl Display {
    pub open spec fn wf(&self) -> bool {
        self@.len() == BUFFER_LEN
    }

    /// The palette code stored for pixel `(x, y)`.
    pub open spec fn pixel(&self, x: int, y: int) -> u8 {
        nibble_of(self@[byte_index(x, y)], x)
    }

    proof fn lemma_pixels_of_frame(&self)
        ensures
            forall|x: int, y: int| #[trigger] self.pixel(x, y) == self.frame.pixel(x, y),
    {
    }

    /// A display whose frame is blank (every pixel WHITE); nothing is sent.
    pub fn new() -> (d: Display)
        ensures
            d.wf(),
            d@ == Seq::new(BUFFER_LEN as nat, |i: int| BLANK_BYTE),
            forall|x: int, y: int| in_bounds(x, y) ==> #[trigger] d.pixel(x, y) == Color::WHITE.code(),
    {
        let d = Display { frame: Framebuffer::new() };
        proof {
            d.lemma_pixels_of_frame();
        }
        d
    }

    /// Sets pixel `(x, y)` to `color`; a pixel off the panel is refused and
    /// nothing changes.
    pub fn set_pixel(&mut self, x: usize, y: usize, color: Color) -> (r: Result<(), OutOfBounds>)
        requires
            old(self).wf(),
        ensures
            final(self).wf(),
            in_bounds(x as int, y as int) ==> r is Ok && final(self).pixel(x as int, y as int)
                == color.code(),
            in_bounds(x as int, y as int) ==> forall|x2: int, y2: int|
                in_bounds(x2, y2) && (x2 != x || y2 != y) ==> #[trigger] final(self).pixel(x2, y2)
                    == old(self).pixel(x2, y2),
            !in_bounds(x as int, y as int) ==> r == Err::<(), OutOfBounds>(OutOfBounds),
            !in_bounds(x as int, y as int) ==> final(self)@ == old(self)@,
    {
        let ghost before = *self;
        let r = self.frame.set_pixel(x, y, color);
        proof {
            self.lemma_pixels_of_frame();
            before.lemma_pixels_of_frame();
        }
        r
    }

    /// Sets pixel `(x, y)` to the palette entry nearest to `c`.
    pub fn set_pixel_rgb(&mut self, x: usize, y: usize, c: Rgb) -> (r: Result<(), OutOfBounds>)
        requires
            old(self).wf(),
        ensures
            final(self).wf(),
            in_bounds(x as int, y as int) ==> r is Ok && is_nearest(
                c,
                color_of_code(final(self).pixel(x as int, y as int) as int),
            ),
            in_bounds(x as int, y as int) ==> forall|x2: int, y2: int|
                in_bounds(x2, y2) && (x2 != x || y2 != y) ==> #[trigger] final(self).pixel(x2, y2)
                    == old(self).pixel(x2, y2),
            !in_bounds(x as int, y as int) ==> r == Err::<(), OutOfBounds>(OutOfBounds),
            !in_bounds(x as int, y as int) ==> final(self)@ == old(self)@,
    {
        let k = Color::nearest(c);
        assert(color_of_code(k.code() as int) == k);
        let ghost before = *self;
        let r = self.frame.set_pixel(x, y, k);
        proof {
            self.lemma_pixels_of_frame();
            before.lemma_pixels_of_frame();
        }
        r
    }

    /// The palette code of pixel `(x, y)`, if it lies on the panel.
    pub fn get_pixel(&self, x: usize, y: usize) -> (r: Option<u8>)
        requires
            self.wf(),
        ensures
            in_bounds(x as int, y as int) ==> r == Some(self.pixel(x as int, y as int)),
            !in_bounds(x as int, y as int) ==> r.is_none(),
    {
        self.frame.get_pixel(x, y)
    }

    /// Sets every pixel to WHITE.
    pub fn clear(&mut self)
        requires
            old(self).wf(),
        ensures
            final(self).wf(),
            final(self)@ == Seq::new(BUFFER_LEN as nat, |i: int| BLANK_BYTE),
            forall|x: int, y: int|
                in_bounds(x, y) ==> #[trigger] final(self).pixel(x, y) == Color::WHITE.code(),
    {
        self.frame.clear();
        proof {
            self.lemma_pixels_of_frame();
        }
    }

    /// The packed frame, as the panel receives it.
    pub fn buffer(&self) -> (r: &[u8])
        ensures
            r@ == self@,
    {
        self.frame.as_bytes()
    }

    /// The presence check: a session that wakes the panel and puts it back to
    /// sleep.
    pub fn init(&self) -> (s: Session)
        ensures
            s.wf(),
            s.ops() == init_ops(),
            s.pc() == 0,
            !s.aborted(),
    {
        Session::init()
    }

    /// A full refresh: a session that wakes the panel, sends this frame,
    /// refreshes and puts the panel back to sleep.
    pub fn display(&self) -> (s: Session)
        ensures
            s.wf(),
            s.ops() == display_ops(),
            s.pc() == 0,
            !s.aborted(),
    {
        Session::display()
    }
}

} // verus!
