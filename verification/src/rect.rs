//! Rectangles and the layout they assemble into.

use vstd::prelude::*;

verus! {

/// A mathematical rectangle: origin and extent as unbounded integers. Used
/// in specifications to describe both emitted cells and screen regions.
pub ghost struct Region {
    pub x: int,
    pub y: int,
    pub width: int,
    pub height: int,
}

/// One emitted window cell. The origin is signed because intermediate
/// computation may reference positions right of or below the canvas origin.
#[derive(Clone, Copy, Debug)]
pub struct Rectangle {
    /// The x position of the top left corner, relative to the display
    pub x: i32,
    /// The y position of the top left corner, relative to the display
    pub y: i32,
    /// The width of the cell in pixels
    pub width: u32,
    /// The height of the cell in pixels
    pub height: u32,
}

impl View for Rectangle {
    type V = Region;

    open spec fn view(&self) -> Region {
        Region {
            x: self.x as int,
            y: self.y as int,
            width: self.width as int,
            height: self.height as int,
        }
    }
}

/// The abstract content of a list of cells.
pub open spec fn rects_of(v: Seq<Rectangle>) -> Seq<Region> {
    v.map_values(|r: Rectangle| r@)
}

/// `r` lies entirely inside `g`.
pub open spec fn rect_in_region(r: Region, g: Region) -> bool {
    &&& g.x <= r.x
    &&& r.x + r.width <= g.x + g.width
    &&& g.y <= r.y
    &&& r.y + r.height <= g.y + g.height
}

/// `a` and `b` share no point: they are separated along at least one axis.
pub open spec fn rects_disjoint(a: Region, b: Region) -> bool {
    ||| a.x + a.width <= b.x
    ||| b.x + b.width <= a.x
    ||| a.y + a.height <= b.y
    ||| b.y + b.height <= a.y
}

/// The pixel at `(px, py)` lies inside `r`.
pub open spec fn region_contains_point(r: Region, px: int, py: int) -> bool {
    r.x <= px < r.x + r.width && r.y <= py < r.y + r.height
}

/// The area of `r`, in pixels.
pub open spec fn area(r: Region) -> int {
    r.width * r.height
}

/// The summed area of a sequence of regions.
pub open spec fn total_area(s: Seq<Region>) -> int
    decreases s.len(),
{
    if s.len() == 0 {
        0
    } else {
        total_area(s.drop_last()) + area(s.last())
    }
}

/// An ordered list of cells, one per view, produced by one generation call.
/// Position `i` in the list corresponds to the `i`-th view in the host's
/// current view ordering.
pub struct GeneratedLayout {
    /// The name the layout advertises to the host
    pub layout_name: String,
    /// The generated cells, in view order
    pub views: Vec<Rectangle>,
}

} // verus!
