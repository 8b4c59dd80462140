//! Axis-aligned geometric containers: a value per side, per axis, or per point.

use vstd::prelude::*;

verus! {

/// A value for each of the four sides of a box.
#[derive(Clone, Copy, Debug, PartialEq, Eq, Structural)]
pub struct Rect<T> {
    pub left: T,
    pub right: T,
    pub top: T,
    pub bottom: T,
}

/// A width and a height.
#[derive(Clone, Copy, Debug, PartialEq, Eq, Structural)]
pub struct Size<T> {
    pub width: T,
    pub height: T,
}

/// A value per axis of a point.
#[derive(Clone, Copy, Debug, PartialEq, Eq, Structural)]
pub struct Point<T> {
    pub x: T,
    pub y: T,
}

impl<T: Copy> Rect<T> {
    /// The rectangle with the same value on every side.
    pub fn splat(v: T) -> (r: Rect<T>)
        ensures
            r == (Rect { left: v, right: v, top: v, bottom: v }),
    {
        Rect { left: v, right: v, top: v, bottom: v }
    }
}

impl<T: Copy> Size<T> {
    /// The size with the same value on both axes.
    pub fn splat(v: T) -> (r: Size<T>)
        ensures
            r == (Size { width: v, height: v }),
    {
        Size { width: v, height: v }
    }
}

} // verus!
