//! The computed style a flow's box carries: the immutable per-element
//! inputs of the layout passes.

use vstd::prelude::*;

use crate::geometry::Au;
use crate::geometry::MAX_AU;
use crate::model::LengthOrPercentage;
use crate::model::LengthOrPercentageOrAuto;
use crate::model::LengthOrPercentageOrNone;
use crate::model::lp_ok;
use crate::model::lpa_ok;
use crate::model::lpn_ok;

verus! {

#[derive(Clone, Copy, PartialEq, Eq, Structural, Debug)]
pub enum TextAlign {
    AlignLeft,
    AlignCenter,
    AlignRight,
    AlignJustify,
}

#[derive(Clone, Copy, PartialEq, Eq, Structural, Debug)]
pub enum TextDecoration {
    NoDecoration,
    Underline,
    Overline,
    LineThrough,
}

#[derive(Clone, Copy, PartialEq, Eq, Structural, Debug)]
pub enum TableLayout {
    AutoLayout,
    FixedLayout,
}

/// The `clear` property: which floats a block must move below.
#[derive(Clone, Copy, PartialEq, Eq, Structural, Debug)]
pub enum ClearType {
    ClearLeft,
    ClearRight,
    ClearBoth,
}

/// The computed values of the one element a box belongs to. Immutable
/// during layout; everything the four passes read of an element's style
/// is here.
#[derive(Clone, Copy, PartialEq, Eq, Structural, Debug)]
pub struct ComputedValues {
    pub width: LengthOrPercentageOrAuto,
    pub height: LengthOrPercentageOrAuto,
    pub min_width: LengthOrPercentage,
    pub max_width: LengthOrPercentageOrNone,
    pub margin_top: LengthOrPercentageOrAuto,
    pub margin_right: LengthOrPercentageOrAuto,
    pub margin_bottom: LengthOrPercentageOrAuto,
    pub margin_left: LengthOrPercentageOrAuto,
    pub padding_top: LengthOrPercentage,
    pub padding_right: LengthOrPercentage,
    pub padding_bottom: LengthOrPercentage,
    pub padding_left: LengthOrPercentage,
    pub border_top: Au,
    pub border_right: Au,
    pub border_bottom: Au,
    pub border_left: Au,
    /// Offsets of a `position: fixed` box from the screen edges.
    pub position_top: LengthOrPercentageOrAuto,
    pub position_left: LengthOrPercentageOrAuto,
    pub text_align: TextAlign,
    pub text_decoration: TextDecoration,
    pub table_layout: TableLayout,
    pub clear: Option<ClearType>,
}

/// Style inputs the layout passes accept: every length within the global
/// bound, and the properties CSS forbids to be negative nonnegative.
/// Margins, alone among the properties, may be negative, as lengths or
/// as percentages.
pub open spec fn wf_style(s: ComputedValues) -> bool {
    &&& lpa_ok(s.width)
    &&& lpa_ok(s.height)
    &&& (s.width matches LengthOrPercentageOrAuto::Length(a) ==> a@ >= 0)
    &&& (s.height matches LengthOrPercentageOrAuto::Length(a) ==> a@ >= 0)
    &&& (s.width matches LengthOrPercentageOrAuto::Percentage(p) ==> p >= 0)
    &&& (s.height matches LengthOrPercentageOrAuto::Percentage(p) ==> p >= 0)
    &&& (s.min_width matches LengthOrPercentage::Percentage(p) ==> p >= 0)
    &&& (s.max_width matches LengthOrPercentageOrNone::Percentage(p) ==> p >= 0)
    &&& (s.padding_top matches LengthOrPercentage::Percentage(p) ==> p >= 0)
    &&& (s.padding_right matches LengthOrPercentage::Percentage(p) ==> p >= 0)
    &&& (s.padding_bottom matches LengthOrPercentage::Percentage(p) ==> p >= 0)
    &&& (s.padding_left matches LengthOrPercentage::Percentage(p) ==> p >= 0)
    &&& lp_ok(s.min_width)
    &&& lpn_ok(s.max_width)
    &&& lpa_ok(s.margin_top)
    &&& lpa_ok(s.margin_right)
    &&& lpa_ok(s.margin_bottom)
    &&& lpa_ok(s.margin_left)
    &&& lp_ok(s.padding_top)
    &&& lp_ok(s.padding_right)
    &&& lp_ok(s.padding_bottom)
    &&& lp_ok(s.padding_left)
    &&& 0 <= s.border_top@ <= MAX_AU
    &&& 0 <= s.border_right@ <= MAX_AU
    &&& 0 <= s.border_bottom@ <= MAX_AU
    &&& 0 <= s.border_left@ <= MAX_AU
    &&& lpa_ok(s.position_top)
    &&& lpa_ok(s.position_left)
}

impl ComputedValues {
    /// The initial value of every property: `auto` sizes, zero margins,
    /// padding and borders, left-aligned undecorated text, automatic
    /// table layout, no clearing.
    pub fn initial() -> (r: ComputedValues)
        ensures
            wf_style(r),
            r.width == LengthOrPercentageOrAuto::Auto,
            r.height == LengthOrPercentageOrAuto::Auto,
            r.min_width == LengthOrPercentage::Length(Au(0)),
            r.max_width == LengthOrPercentageOrNone::NoLimit,
            r.margin_top == LengthOrPercentageOrAuto::Length(Au(0)),
            r.margin_right == LengthOrPercentageOrAuto::Length(Au(0)),
            r.margin_bottom == LengthOrPercentageOrAuto::Length(Au(0)),
            r.margin_left == LengthOrPercentageOrAuto::Length(Au(0)),
            r.padding_top == LengthOrPercentage::Length(Au(0)),
            r.padding_right == LengthOrPercentage::Length(Au(0)),
            r.padding_bottom == LengthOrPercentage::Length(Au(0)),
            r.padding_left == LengthOrPercentage::Length(Au(0)),
            r.border_top@ == 0 && r.border_right@ == 0 && r.border_bottom@ == 0 && r.border_left@
                == 0,
            r.position_top == LengthOrPercentageOrAuto::Length(Au(0)),
            r.position_left == LengthOrPercentageOrAuto::Length(Au(0)),
            r.text_align == TextAlign::AlignLeft,
            r.text_decoration == TextDecoration::NoDecoration,
            r.table_layout == TableLayout::AutoLayout,
            r.clear is None,
    {
        ComputedValues {
            width: LengthOrPercentageOrAuto::Auto,
            height: LengthOrPercentageOrAuto::Auto,
            min_width: LengthOrPercentage::Length(Au(0)),
            max_width: LengthOrPercentageOrNone::NoLimit,
            margin_top: LengthOrPercentageOrAuto::Length(Au(0)),
            margin_right: LengthOrPercentageOrAuto::Length(Au(0)),
            margin_bottom: LengthOrPercentageOrAuto::Length(Au(0)),
            margin_left: LengthOrPercentageOrAuto::Length(Au(0)),
            padding_top: LengthOrPercentage::Length(Au(0)),
            padding_right: LengthOrPercentage::Length(Au(0)),
            padding_bottom: LengthOrPercentage::Length(Au(0)),
            padding_left: LengthOrPercentage::Length(Au(0)),
            border_top: Au(0),
            border_right: Au(0),
            border_bottom: Au(0),
            border_left: Au(0),
            position_top: LengthOrPercentageOrAuto::Length(Au(0)),
            position_left: LengthOrPercentageOrAuto::Length(Au(0)),
            text_align: TextAlign::AlignLeft,
            text_decoration: TextDecoration::NoDecoration,
            table_layout: TableLayout::AutoLayout,
            clear: None,
        }
    }
}

} // verus!
