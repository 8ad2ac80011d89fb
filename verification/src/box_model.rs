//! The principal box of a laid-out element: computed style plus the
//! geometry the passes fill in (margins, borders, padding, border-box
//! position).

use vstd::prelude::*;

use crate::geometry::Au;
use crate::geometry::MAX_AU;
use crate::geometry::OffsetsV;
use crate::geometry::Rect;
use crate::geometry::RectV;
use crate::geometry::SideOffsets2D;
use crate::model::MaybeAuto;
use crate::model::specified;
use crate::model::specified_or;
use crate::model::specified_spec;
use crate::model::from_style_spec;
use crate::style::ClearType;
use crate::style::ComputedValues;
use crate::style::wf_style;

verus! {

/// The border box of one element. Borders and padding are set during the
/// width pass and not changed afterwards; margins are rewritten during
/// the height pass to record collapsed values; the position is written
/// by the width pass (x, width) and the height pass (y, height).
pub struct LayoutBox {
    pub style: ComputedValues,
    pub position: Rect,
    pub margin: SideOffsets2D,
    pub border: SideOffsets2D,
    pub padding: SideOffsets2D,
}

/// Mathematical mirror of `LayoutBox`.
pub ghost struct BoxV {
    pub style: ComputedValues,
    pub position: RectV,
    pub margin: OffsetsV,
    pub border: OffsetsV,
    pub padding: OffsetsV,
}

impl View for LayoutBox {
    type V = BoxV;

    open spec fn view(&self) -> BoxV {
        BoxV {
            style: self.style,
            position: self.position@,
            margin: self.margin@,
            border: self.border@,
            padding: self.padding@,
        }
    }
}

/// The box's own contribution to intrinsic widths: its specified width
/// (percentages resolve against nothing at this point) plus its border
/// widths, which depend on style alone.
pub open spec fn box_intrinsic_width(style: ComputedValues) -> int {
    specified_or(from_style_spec(style.width, 0), 0) + style.border_left@ + style.border_right@
}

/// The borders a box gets from its style.
pub open spec fn style_border(style: ComputedValues) -> OffsetsV {
    OffsetsV {
        top: style.border_top@,
        right: style.border_right@,
        bottom: style.border_bottom@,
        left: style.border_left@,
    }
}

/// The padding a box gets from its style, resolved against a containing
/// width.
pub open spec fn style_padding(style: ComputedValues, containing: int) -> OffsetsV {
    OffsetsV {
        top: specified_spec(style.padding_top, containing),
        right: specified_spec(style.padding_right, containing),
        bottom: specified_spec(style.padding_bottom, containing),
        left: specified_spec(style.padding_left, containing),
    }
}

/// The box's own intrinsic width lies within a small multiple of the
/// global bound.
pub proof fn lemma_box_intrinsic_bounds(style: ComputedValues)
    requires
        wf_style(style),
    ensures
        0 <= box_intrinsic_width(style) <= 3 * MAX_AU,
{
    match style.width {
        crate::model::LengthOrPercentageOrAuto::Length(_) => {},
        crate::model::LengthOrPercentageOrAuto::Percentage(p) => {
            assert(crate::model::resolve_percent(0, p as int) == 0) by {
                assert(0 * (p as int) == 0) by (nonlinear_arith);
            }
        },
        crate::model::LengthOrPercentageOrAuto::Auto => {},
    }
}

impl LayoutBox {
    /// A fresh box for an element: style attached, all geometry zero.
    pub fn new(style: ComputedValues) -> (r: LayoutBox)
        ensures
            r@ == (BoxV {
                style,
                position: (RectV {
                    origin: crate::geometry::PointV { x: 0, y: 0 },
                    size: crate::geometry::SizeV { width: 0, height: 0 },
                }),
                margin: (OffsetsV { top: 0, right: 0, bottom: 0, left: 0 }),
                border: (OffsetsV { top: 0, right: 0, bottom: 0, left: 0 }),
                padding: (OffsetsV { top: 0, right: 0, bottom: 0, left: 0 }),
            }),
    {
        LayoutBox {
            style,
            position: Rect {
                origin: crate::geometry::Point2D { x: Au(0), y: Au(0) },
                size: crate::geometry::Size2D { width: Au(0), height: Au(0) },
            },
            margin: SideOffsets2D::zero(),
            border: SideOffsets2D::zero(),
            padding: SideOffsets2D::zero(),
        }
    }

    /// The `clear` property of the element.
    pub fn clear(&self) -> (r: Option<ClearType>)
        ensures
            r == self.style.clear,
    {
        self.style.clear
    }

    /// Fills in the border widths, which depend only on style.
    pub fn compute_borders_if_necessary(&mut self)
        ensures
            final(self)@ == (BoxV { border: style_border(old(self).style), ..old(self)@ }),
    {
        self.border = SideOffsets2D {
            top: self.style.border_top,
            right: self.style.border_right,
            bottom: self.style.border_bottom,
            left: self.style.border_left,
        };
    }

    /// Resolves the padding against the containing width and stores it.
    pub fn compute_padding(&mut self, containing: Au)
        requires
            wf_style(old(self).style),
            -4 * MAX_AU <= containing@ <= 4 * MAX_AU,
        ensures
            final(self)@ == (BoxV {
                padding: style_padding(old(self).style, containing@),
                ..old(self)@
            }),
    {
        self.padding = SideOffsets2D {
            top: specified(self.style.padding_top, containing),
            right: specified(self.style.padding_right, containing),
            bottom: specified(self.style.padding_bottom, containing),
            left: specified(self.style.padding_left, containing),
        };
    }

    /// The box's own minimum and preferred intrinsic widths; equal, since
    /// text measurement lives outside this subsystem.
    pub fn minimum_and_preferred_widths(&self) -> (r: (Au, Au))
        requires
            wf_style(self.style),
        ensures
            r.0@ == box_intrinsic_width(self.style),
            r.1@ == box_intrinsic_width(self.style),
    {
        let w = MaybeAuto::from_style(self.style.width, Au(0)).specified_or_zero();
        let total = Au(w.0 + self.style.border_left.0 + self.style.border_right.0);
        (total, total)
    }

    /// Borders plus padding on the left and right sides.
    pub fn noncontent_width(&self) -> (r: Au)
        requires
            -8 * MAX_AU <= self@.padding.left <= 8 * MAX_AU,
            -8 * MAX_AU <= self@.padding.right <= 8 * MAX_AU,
            -8 * MAX_AU <= self@.border.left <= 8 * MAX_AU,
            -8 * MAX_AU <= self@.border.right <= 8 * MAX_AU,
        ensures
            r@ == self@.padding.left + self@.padding.right + self@.border.left
                + self@.border.right,
    {
        Au(self.padding.left.0 + self.padding.right.0 + self.border.left.0 + self.border.right.0)
    }

    /// Border plus padding above the content.
    pub fn noncontent_top(&self) -> (r: Au)
        requires
            -8 * MAX_AU <= self@.border.top <= 8 * MAX_AU,
            -8 * MAX_AU <= self@.padding.top <= 8 * MAX_AU,
        ensures
            r@ == self@.border.top + self@.padding.top,
    {
        Au(self.border.top.0 + self.padding.top.0)
    }

    /// Border plus padding below the content.
    pub fn noncontent_bottom(&self) -> (r: Au)
        requires
            -8 * MAX_AU <= self@.border.bottom <= 8 * MAX_AU,
            -8 * MAX_AU <= self@.padding.bottom <= 8 * MAX_AU,
        ensures
            r@ == self@.border.bottom + self@.padding.bottom,
    {
        Au(self.border.bottom.0 + self.padding.bottom.0)
    }

    /// How far the content is from the left edge of the margin box.
    pub fn offset(&self) -> (r: Au)
        requires
            -8 * MAX_AU <= self@.margin.left <= 8 * MAX_AU,
            -8 * MAX_AU <= self@.border.left <= 8 * MAX_AU,
            -8 * MAX_AU <= self@.padding.left <= 8 * MAX_AU,
        ensures
            r@ == self@.margin.left + self@.border.left + self@.padding.left,
    {
        Au(self.margin.left.0 + self.border.left.0 + self.padding.left.0)
    }

    /// For a fixed box, its x position and width come from the `left`
    /// offset resolved against the screen; any other box keeps the
    /// offset and width the caller computed.
    pub fn get_x_coord_and_new_width_if_fixed(
        &self,
        screen_width: Au,
        screen_height: Au,
        width: Au,
        static_x: Au,
        is_fixed: bool,
    ) -> (r: (Au, Au))
        requires
            wf_style(self.style),
            -4 * MAX_AU <= screen_width@ <= 4 * MAX_AU,
        ensures
            is_fixed ==> r.0@ == specified_or(
                from_style_spec(self.style.position_left, screen_width@),
                0,
            ) && r.1 == width,
            !is_fixed ==> r == (static_x, width),
    {
        let _ = screen_height;
        if is_fixed {
            let x = MaybeAuto::from_style(self.style.position_left, screen_width)
                .specified_or_zero();
            (x, width)
        } else {
            (static_x, width)
        }
    }

    /// For a fixed box, its y position comes from the `top` offset
    /// resolved against the screen; any other box keeps the static
    /// position. The height passes through unchanged either way.
    pub fn get_y_coord_and_new_height_if_fixed(
        &self,
        screen_height: Au,
        height: Au,
        static_y: Au,
        is_fixed: bool,
    ) -> (r: (Au, Au))
        requires
            wf_style(self.style),
            -4 * MAX_AU <= screen_height@ <= 4 * MAX_AU,
        ensures
            is_fixed ==> r.0@ == specified_or(
                from_style_spec(self.style.position_top, screen_height@),
                0,
            ) && r.1 == height,
            !is_fixed ==> r == (static_y, height),
    {
        if is_fixed {
            let y = MaybeAuto::from_style(self.style.position_top, screen_height)
                .specified_or_zero();
            (y, height)
        } else {
            (static_y, height)
        }
    }
}

} // verus!
