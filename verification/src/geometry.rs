//! Basic geometry value types, generic over the length type `L` in which
//! coordinates and extents are measured (logical pixels in practice).

use vstd::prelude::*;

verus! {

/// A width and height pair.
#[derive(Debug, Clone, Copy, PartialEq)]
pub struct Size<L> {
    pub w: L,
    pub h: L,
}

impl<L> Size<L> {
    pub fn new(w: L, h: L) -> (s: Size<L>)
        ensures
            s.w == w,
            s.h == h,
    {
        Size { w, h }
    }
}

/// A point in the coordinate space, with the origin at the top left.
#[derive(Debug, Clone, Copy, PartialEq)]
pub struct Point<L> {
    pub x: L,
    pub y: L,
}

impl<L> Point<L> {
    pub fn new(x: L, y: L) -> (p: Point<L>)
        ensures
            p.x == x,
            p.y == y,
    {
        Point { x, y }
    }
}

/// An axis aligned rectangle. This is the computed border box of a node,
/// meaning it includes the node border and padding but excludes its margin.
#[derive(Debug, Clone, Copy, PartialEq)]
pub struct Rect<L> {
    pub x: L,
    pub y: L,
    pub w: L,
    pub h: L,
}

impl<L> Rect<L> {
    pub fn new(x: L, y: L, w: L, h: L) -> (r: Rect<L>)
        ensures
            r.x == x,
            r.y == y,
            r.w == w,
            r.h == h,
    {
        Rect { x, y, w, h }
    }
}

} // verus!
