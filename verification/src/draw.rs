//! The per-frame draw list: the engine's only output.  Each tick produces
//! an ordered list of coloured axis-aligned quads, in world coordinates
//! already shifted by the camera; the host uploads them however it likes.

use vstd::prelude::*;
use crate::objects::Color;

verus! {

/// One coloured axis-aligned rectangle to draw.
#[derive(Clone, Copy, PartialEq, Eq, Structural, Debug)]
pub struct Quad {
    pub x: i64,
    pub y: i64,
    pub width: i64,
    pub height: i64,
    pub color: Color,
}

/// The quads of one frame, in draw order.
pub struct DrawList {
    pub quads: Vec<Quad>,
}

impl DrawList {
    pub open spec fn view(self) -> Seq<Quad> {
        self.quads@
    }

    pub fn new() -> (r: DrawList)
        ensures
            r@ =~= Seq::<Quad>::empty(),
    {
        DrawList { quads: Vec::new() }
    }

    /// Append one quad.
    pub fn add_rect(&mut self, x: i64, y: i64, width: i64, height: i64, color: Color)
        ensures
            final(self)@ == old(self)@.push(Quad { x, y, width, height, color }),
    {
        self.quads.push(Quad { x, y, width, height, color });
    }
}

} // verus!
