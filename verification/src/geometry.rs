//! Integer device-pixel geometry: points, sizes and rectangles, with the
//! spec-level overlap and containment relations the atlas invariants use.

use vstd::prelude::*;

verus! {

/// A length in physical device pixels.
#[derive(Clone, Copy, Debug, PartialEq, Eq, Hash, Structural)]
pub struct DevicePixels(pub i32);

/// A position in device pixels.
#[derive(Clone, Copy, Debug, PartialEq, Eq, Hash, Structural)]
pub struct Point {
    pub x: DevicePixels,
    pub y: DevicePixels,
}

/// An extent in device pixels.
#[derive(Clone, Copy, Debug, PartialEq, Eq, Hash, Structural)]
pub struct Size {
    pub width: DevicePixels,
    pub height: DevicePixels,
}

/// An axis-aligned rectangle in device pixels.
#[derive(Clone, Copy, Debug, PartialEq, Eq, Hash, Structural)]
pub struct Bounds {
    pub origin: Point,
    pub size: Size,
}

impl Size {
    /// The component-wise maximum of two sizes.
    pub fn max(&self, other: &Size) -> (r: Size)
        ensures
            r.width.0 == if self.width.0 >= other.width.0 {
                self.width.0
            } else {
                other.width.0
            },
            r.height.0 == if self.height.0 >= other.height.0 {
                self.height.0
            } else {
                other.height.0
            },
    {
        Size {
            width: if self.width.0 >= other.width.0 {
                self.width
            } else {
                other.width
            },
            height: if self.height.0 >= other.height.0 {
                self.height
            } else {
                other.height
            },
        }
    }
}

/// A rectangle given by its edges, used by the spec-level atlas model;
/// `x0 <= x < x1` and `y0 <= y < y1` are the covered pixels.
pub ghost struct GridRect {
    pub x0: int,
    pub y0: int,
    pub x1: int,
    pub y1: int,
}

impl GridRect {
    /// True when the rectangle covers at least one pixel.
    pub open spec fn nonempty(self) -> bool {
        self.x0 < self.x1 && self.y0 < self.y1
    }

    /// True when `self` lies inside `outer`.
    pub open spec fn inside(self, outer: GridRect) -> bool {
        outer.x0 <= self.x0 && self.x1 <= outer.x1 && outer.y0 <= self.y0 && self.y1 <= outer.y1
    }

    /// True when the two rectangles share at least one pixel.
    pub open spec fn overlaps(self, other: GridRect) -> bool {
        self.x0 < other.x1 && other.x0 < self.x1 && self.y0 < other.y1 && other.y0 < self.y1
    }
}

impl Bounds {
    /// The rectangle covered by these bounds.
    pub open spec fn rect(self) -> GridRect {
        GridRect {
            x0: self.origin.x.0 as int,
            y0: self.origin.y.0 as int,
            x1: self.origin.x.0 + self.size.width.0,
            y1: self.origin.y.0 + self.size.height.0,
        }
    }
}

/// Rectangles inside disjoint rectangles are themselves disjoint.
pub proof fn lemma_inside_preserves_disjoint(a: GridRect, b: GridRect, oa: GridRect, ob: GridRect)
    requires
        a.inside(oa),
        b.inside(ob),
        !oa.overlaps(ob),
    ensures
        !a.overlaps(b),
{
}

} // verus!
