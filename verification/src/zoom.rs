//! The magnification at which a decoded image is shown.

use vstd::prelude::*;

verus! {

/// A magnification step, from life size to four times life size in halves.
#[derive(Copy, Clone, Debug, PartialEq, Eq, Structural)]
pub enum Zoom {
    X1,
    X1p5,
    X2,
    X2p5,
    X3,
    X3p5,
    X4,
}

impl Zoom {
    /// Twice the magnification factor, so that every step is a whole number:
    /// `2` for life size up to `8` for four times.
    pub open spec fn spec_halves(self) -> u8 {
        match self {
            Zoom::X1 => 2,
            Zoom::X1p5 => 3,
            Zoom::X2 => 4,
            Zoom::X2p5 => 5,
            Zoom::X3 => 6,
            Zoom::X3p5 => 7,
            Zoom::X4 => 8,
        }
    }

    /// Twice the magnification factor: `2` for life size up to `8` for four
    /// times.
    #[verifier::when_used_as_spec(spec_halves)]
    pub fn halves(self) -> (h: u8)
        ensures
            h == self.spec_halves(),
    {
        match self {
            Zoom::X1 => 2,
            Zoom::X1p5 => 3,
            Zoom::X2 => 4,
            Zoom::X2p5 => 5,
            Zoom::X3 => 6,
            Zoom::X3p5 => 7,
            Zoom::X4 => 8,
        }
    }
}

impl Default for Zoom {
    fn default() -> (z: Self)
        ensures
            z == Zoom::X1,
    {
        Zoom::X1
    }
}

/// What the viewer remembers between two drawings of an image.
#[derive(Clone, Debug)]
pub struct State {
    zoom: Zoom,
}

impl State {
    /// The current magnification.
    pub closed spec fn spec_zoom(&self) -> Zoom {
        self.zoom
    }

    /// The current magnification.
    #[verifier::when_used_as_spec(spec_zoom)]
    pub fn zoom(&self) -> (z: Zoom)
        ensures
            z == self.spec_zoom(),
    {
        self.zoom
    }

    /// Goes one step up. Returns whether there was a step to take: at four
    /// times life size nothing changes.
    pub fn zoom_in(&mut self) -> (zoomed: bool)
        ensures
            zoomed == (old(self).zoom() != Zoom::X4),
            final(self).zoom().halves() == old(self).zoom().halves() + if zoomed {
                1int
            } else {
                0int
            },
    {
        let mut zoomed = true;
        self.zoom = match self.zoom {
            Zoom::X1 => Zoom::X1p5,
            Zoom::X1p5 => Zoom::X2,
            Zoom::X2 => Zoom::X2p5,
            Zoom::X2p5 => Zoom::X3,
            Zoom::X3 => Zoom::X3p5,
            Zoom::X3p5 => Zoom::X4,
            Zoom::X4 => {
                zoomed = false;
                Zoom::X4
            },
        };
        zoomed
    }

    /// Goes one step down. Returns whether there was a step to take: at life
    /// size nothing changes.
    pub fn zoom_out(&mut self) -> (zoomed: bool)
        ensures
            zoomed == (old(self).zoom() != Zoom::X1),
            final(self).zoom().halves() == old(self).zoom().halves() - if zoomed {
                1int
            } else {
                0int
            },
    {
        let mut zoomed = true;
        self.zoom = match self.zoom {
            Zoom::X1 => {
                zoomed = false;
                Zoom::X1
            },
            Zoom::X1p5 => Zoom::X1,
            Zoom::X2 => Zoom::X1p5,
            Zoom::X2p5 => Zoom::X2,
            Zoom::X3 => Zoom::X2p5,
            Zoom::X3p5 => Zoom::X3,
            Zoom::X4 => Zoom::X3p5,
        };
        zoomed
    }

    /// Jumps to four times life size, or back to life size from there.
    pub fn zoom_toggle(&mut self)
        ensures
            final(self).zoom() == if old(self).zoom() == Zoom::X4 {
                Zoom::X1
            } else {
                Zoom::X4
            },
    {
        self.zoom = match self.zoom {
            Zoom::X1 | Zoom::X1p5 | Zoom::X2 | Zoom::X2p5 | Zoom::X3 | Zoom::X3p5 => Zoom::X4,
            Zoom::X4 => Zoom::X1,
        };
    }
}

impl Default for State {
    fn default() -> (s: Self)
        ensures
            s.zoom() == Zoom::X1,
    {
        State { zoom: Zoom::X1 }
    }
}

} // verus!
