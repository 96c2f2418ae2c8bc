//! Physical positions and sizes, in pixels.

use vstd::prelude::*;

verus! {

/// A position in physical pixels.
#[derive(Clone, Copy, Debug, PartialEq, Eq, Hash)]
pub struct PhysicalPosition<P> {
    pub x: P,
    pub y: P,
}

impl<P> PhysicalPosition<P> {
    pub fn new(x: P, y: P) -> (r: Self)
        ensures
            r.x == x,
            r.y == y,
    {
        PhysicalPosition { x, y }
    }
}

/// A size in physical pixels.
#[derive(Clone, Copy, Debug, PartialEq, Eq, Hash)]
pub struct PhysicalSize<P> {
    pub width: P,
    pub height: P,
}

impl<P> PhysicalSize<P> {
    pub fn new(width: P, height: P) -> (r: Self)
        ensures
            r.width == width,
            r.height == height,
    {
        PhysicalSize { width, height }
    }
}

impl Default for PhysicalSize<u32> {
    fn default() -> (r: Self)
        ensures
            r.width == 0,
            r.height == 0,
    {
        PhysicalSize { width: 0, height: 0 }
    }
}

} // verus!
