//! The display list: the ordered rectangles layout hands to the
//! painter, and the pre-order pass that emits them, culled by a dirty
//! rectangle.

use vstd::prelude::*;

use crate::geometry::Point2D;
use crate::geometry::Rect;
use crate::geometry::RectV;
use crate::geometry::point_add;
use crate::geometry::rects_intersect;

verus! {

/// One paintable rectangle.
#[derive(Clone, Copy, PartialEq, Eq, Structural, Debug)]
pub struct DisplayItem {
    pub bounds: Rect,
}

/// The ordered list of paintable rectangles.
pub struct DisplayList {
    pub items: Vec<DisplayItem>,
}

/// Mirror of a display list: the bounds, in paint order.
pub open spec fn dl_view(l: DisplayList) -> Seq<RectV> {
    Seq::new(l.items@.len(), |i: int| l.items@[i].bounds@)
}

impl DisplayList {
    pub fn new() -> (r: DisplayList)
        ensures
            dl_view(r) == Seq::<RectV>::empty(),
    {
        let r = DisplayList { items: Vec::new() };
        proof {
            assert(dl_view(r) =~= Seq::<RectV>::empty());
        }
        r
    }

    pub fn len(&self) -> (r: usize)
        ensures
            r == dl_view(*self).len(),
    {
        self.items.len()
    }
}

/// Context the display-list pass carries; the culling rectangle is
/// passed separately, so nothing else is needed yet.
pub struct DisplayListBuilder {}

impl DisplayListBuilder {
    pub fn new() -> (r: DisplayListBuilder) {
        DisplayListBuilder {}
    }
}

/// What one box contributes: its border box at the given absolute
/// offset, if it meets the dirty rectangle.
pub open spec fn box_paint_model(b: crate::box_model::BoxV, offset: crate::geometry::PointV, dirty: RectV, list: Seq<RectV>) -> Seq<
    RectV,
> {
    let bounds = RectV { origin: point_add(offset, b.position.origin), size: b.position.size };
    if rects_intersect(bounds, dirty) {
        list.push(bounds)
    } else {
        list
    }
}

impl crate::box_model::LayoutBox {
    /// Emits this box's border box at the given absolute offset, culled
    /// by the dirty rectangle.
    pub fn build_display_list(
        &self,
        builder: &DisplayListBuilder,
        dirty: &Rect,
        offset: Point2D,
        list: &mut DisplayList,
    )
        requires
            crate::flow::wide_range(offset@.x),
            crate::flow::wide_range(offset@.y),
            crate::flow::in_solve_range(self@.position.origin.x),
            crate::flow::in_solve_range(self@.position.origin.y),
        ensures
            dl_view(*final(list)) == box_paint_model(self@, offset@, dirty@, dl_view(*old(list))),
    {
        let _ = builder;
        let bounds = Rect {
            origin: Point2D {
                x: crate::geometry::Au(offset.x.0 + self.position.origin.x.0),
                y: crate::geometry::Au(offset.y.0 + self.position.origin.y.0),
            },
            size: self.position.size,
        };
        let ghost before = *list;
        if bounds.intersects(dirty) {
            list.items.push(DisplayItem { bounds });
            proof {
                assert(dl_view(*list) =~= dl_view(before).push(bounds@));
            }
        }
    }
}

} // verus!
