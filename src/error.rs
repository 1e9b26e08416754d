//! Errors of the driver.
use vstd::prelude::*;

use crate::framebuffer::OutOfBounds;

verus! {

/// An error of the driver: a fault of one of the lines or of the wire, each
/// carrying that line's own error, or a pixel written outside the panel.
#[derive(Debug, PartialEq)]
pub enum Error<BUSY, RST, DC, S> {
    BusyPin(BUSY),
    DataCommandPin(DC),
    ResetPin(RST),
    Spi(S),
    PixelOutOfBounds,
}

impl<BUSY, RST, DC, S> From<OutOfBounds> for Error<BUSY, RST, DC, S> {
    fn from(e: OutOfBounds) -> (r: Self) {
        Error::PixelOutOfBounds
    }
}

impl<BUSY, RST, DC, S> vstd::std_specs::convert::FromSpecImpl<OutOfBounds> for Error<BUSY, RST, DC, S> {
    open spec fn obeys_from_spec() -> bool {
        true
    }

    open spec fn from_spec(v: OutOfBounds) -> Self {
        Error::PixelOutOfBounds
    }
}

} // verus!
