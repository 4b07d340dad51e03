//! Interfaces for screen elements a front end may implement.

use vstd::prelude::*;

verus! {

/// A screen element that can draw itself at a tile coordinate. Front ends
/// implement this outside the library; the core only defines the shape.
pub trait DrawableWidget {
    fn draw(&self, x: u32, y: u32);
}

} // verus!
