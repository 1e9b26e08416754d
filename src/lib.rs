//! Driver logic for a seven-colour e-paper panel: palette mapping, error
//! diffusion, the packed framebuffer and the panel's command sequences.
use vstd::prelude::*;

pub mod color;
pub mod display;
pub mod dither;
pub mod error;
pub mod framebuffer;
pub mod protocol;
pub mod registers;

verus! {

/// Panel width in pixels.
pub const WIDTH: usize = 600;

/// Panel height in pixels.
pub const HEIGHT: usize = 448;

} // verus!
