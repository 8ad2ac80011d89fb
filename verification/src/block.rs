//! CSS block formatting contexts: the default block container, the root,
//! fixed-position blocks and floated blocks.

use vstd::prelude::*;

use crate::box_model::BoxV;
use crate::box_model::LayoutBox;
use crate::box_model::box_intrinsic_width;
use crate::box_model::lemma_box_intrinsic_bounds;
use crate::box_model::style_border;
use crate::float_context::FloatType;
use crate::flow::BaseFlow;
use crate::flow::BaseV;
use crate::flow::Flow;
use crate::flow::FlowV;
use crate::flow::FloatInfoV;
use crate::flow::block_view;
use crate::flow::flow_view;
use crate::flow::fv_base;
use crate::flow::fv_box;
use crate::flow::kids_float_sum;
use crate::flow::kids_min_max;
use crate::flow::kids_pref_max;
use crate::flow::kids_seq_view;
use crate::flow::kids_stats_ok;
use crate::flow::lemma_fv_base;
use crate::flow::lemma_kids_seq_view;
use crate::flow::lemma_kids_stats;
use crate::flow::lemma_kids_stats_prefix;
use crate::flow::FlagsInfo;
use crate::flow::LayoutContext;
use crate::float_context::FloatContext;
use crate::float_context::FloatContextV;
use crate::flow::has_inorder_spec;
use crate::flow::opt_cols_view;
use crate::flow::prop_scan_ok;
use crate::flow::propagate_children;
use crate::flow::propagate_scan;
use crate::flow::base_view;
use crate::flow::block_float_view;
use crate::flow::build_display_list_base;
use crate::flow::dl_extra;
use crate::flow::dlist_model;
use crate::flow::dlist_ok;
use crate::flow::opt_box_view;
use crate::geometry::Au;
use crate::geometry::MAX_AU;
use crate::geometry::MAX_COUNT;
use crate::geometry::OffsetsV;
use crate::geometry::Point2D;
use crate::geometry::PointV;
use crate::geometry::Rect;
use crate::geometry::RectV;
use crate::geometry::Size2D;
use crate::geometry::SizeV;
use crate::geometry::SideOffsets2D;
use crate::horizontal::SOLVE_LIMIT;
use crate::horizontal::box_widths_model;
use crate::horizontal::css_margins;
use crate::horizontal::css_margins_spec;
use crate::horizontal::float_margins;
use crate::horizontal::float_margins_spec;
use crate::horizontal::horiz_solve;
use crate::horizontal::horiz_spec;
use crate::model::MaybeAuto;
use crate::model::from_style_spec;
use crate::model::specified_or_none_spec;
use crate::model::specified_spec;
use crate::style::wf_style;

verus! {

/// Information specific to floated blocks.
pub struct FloatedBlockInfo {
    /// Width of the containing block, set at the start of the width pass.
    pub containing_width: Au,
    /// Offset relative to where the parent tried to position this flow.
    pub rel_pos: Point2D,
    /// Index into the box list for inline floats.
    pub index: Option<usize>,
    /// Number of floated children.
    pub floated_children: usize,
    /// Left or right?
    pub float_type: FloatType,
}

/// A freshly made floated-block info: zeroed, with the given side.
pub open spec fn fresh_block_float(f: FloatedBlockInfo, float_type: FloatType) -> bool {
    &&& f.containing_width == Au(0)
    &&& f.rel_pos == (Point2D { x: Au(0), y: Au(0) })
    &&& f.index is None
    &&& f.floated_children == 0
    &&& f.float_type == float_type
}

impl FloatedBlockInfo {
    pub fn new(float_type: FloatType) -> (r: FloatedBlockInfo)
        ensures
            fresh_block_float(r, float_type),
    {
        FloatedBlockInfo {
            containing_width: Au(0),
            rel_pos: Point2D { x: Au(0), y: Au(0) },
            index: None,
            floated_children: 0,
            float_type,
        }
    }
}

/// What the bottom-up width pass computes for a block whose children
/// are already bubbled: maxima of the children's intrinsic widths plus
/// the box's own contribution, borders filled in, float counts
/// accumulated.
pub open spec fn block_bubble_model(fv: FlowV) -> FlowV
    recommends
        fv is Block,
{
    match fv {
        FlowV::Block { box_, is_root, is_fixed, float, base } => {
            let km = kids_min_max(base.children);
            let kp = kids_pref_max(base.children);
            let nf = kids_float_sum(base.children);
            let new_box = match box_ {
                Some(b) => Some(BoxV { border: style_border(b.style), ..b }),
                None => None,
            };
            let intrinsic = match box_ {
                Some(b) => box_intrinsic_width(b.style),
                None => 0,
            };
            let numf = if float is Some {
                1
            } else {
                nf
            };
            let new_float = match float {
                Some(fi) => Some(FloatInfoV { floated_children: nf, ..fi }),
                None => float,
            };
            FlowV::Block {
                box_: new_box,
                is_root,
                is_fixed,
                float: new_float,
                base: BaseV {
                    min_width: km + intrinsic,
                    pref_width: kp + intrinsic,
                    num_floats: numf,
                    ..base
                },
            }
        },
        _ => fv,
    }
}

/// What the width pass needs of a block node: bubbled children within
/// the global bound, a well-formed style, and a float count that fits.
pub open spec fn block_bubble_ok(fv: FlowV) -> bool {
    &&& fv is Block
    &&& kids_stats_ok(fv_base(fv).children)
    &&& kids_float_sum(fv_base(fv).children) <= MAX_COUNT
    &&& (fv_box(fv) matches Some(b) ==> wf_style(b.style))
}


/// What the top-down width pass computes for a block: the root takes the
/// screen width and a fresh float context; a float records its containing
/// width; the box gains padding, margins and its border-box position; the
/// children receive their positions and inherited properties.
pub open spec fn block_widths_model(fv: FlowV, screen: SizeV) -> FlowV
    recommends
        fv is Block,
{
    match fv {
        FlowV::Block { box_, is_root, is_fixed, float, base } => {
            let base1 = if is_root {
                BaseV {
                    position: RectV {
                        origin: PointV { x: 0, y: 0 },
                        size: SizeV { width: screen.width, height: base.position.size.height },
                    },
                    floats_in: FloatContextV::Present(Seq::empty()),
                    flags_info: FlagsInfo { inorder: false, ..base.flags_info },
                    ..base
                }
            } else {
                base
            };
            let remaining0 = base1.position.size.width;
            let float1 = match float {
                Some(fi) => Some(FloatInfoV { containing_width: remaining0, ..fi }),
                None => float,
            };
            let flags1 = if float is Some {
                FlagsInfo { inorder: false, ..base1.flags_info }
            } else {
                base1.flags_info
            };
            let step = block_box_step(box_, base, is_fixed, float is Some, remaining0, flags1, screen);
            let box1 = step.0;
            let x_offset = step.1;
            let remaining1 = step.2;
            let flags2 = step.3;
            let width2 = if float is Some {
                remaining1
            } else {
                remaining0
            };
            let hi = has_inorder_spec(float is Some, flags2.inorder, base.num_floats as int);
            let kids2 = propagate_scan(
                base1.children,
                (x_offset, remaining1),
                None,
                flags2,
                hi,
            ).0;
            FlowV::Block {
                box_: box1,
                is_root,
                is_fixed,
                float: float1,
                base: BaseV {
                    position: RectV {
                        origin: base1.position.origin,
                        size: SizeV { width: width2, height: base1.position.size.height },
                    },
                    flags_info: flags2,
                    children: kids2,
                    ..base1
                },
            }
        },
        _ => fv,
    }
}

/// The box part of the width pass: sizing, margin resolution, and the
/// border-box position; returns the new box, the children's x offset,
/// the remaining width and the flags.
pub open spec fn block_box_step(
    box_: Option<BoxV>,
    base: BaseV,
    is_fixed: bool,
    is_float: bool,
    remaining0: int,
    flags1: FlagsInfo,
    screen: SizeV,
) -> (Option<BoxV>, int, int, FlagsInfo) {
    match box_ {
        Some(b) => {
            let flags2 = FlagsInfo { text_align: b.style.text_align, ..flags1 };
            let t = box_widths_model(b, base.min_width, base.pref_width, is_float, remaining0);
            let b1 = t.0;
            let w = t.1;
            let offset = b1.margin.left + b1.border.left + b1.padding.left;
            let x0 = if is_fixed {
                crate::model::specified_or(from_style_spec(b.style.position_left, screen.width), 0)
            } else {
                offset
            };
            let border_x = if is_fixed {
                x0 + b1.margin.left
            } else {
                b1.margin.left
            };
            let x1 = if is_fixed {
                x0 + b1.padding.left
            } else {
                x0
            };
            let pb = b1.padding.left + b1.padding.right + b1.border.left + b1.border.right;
            let b2 = BoxV {
                position: RectV {
                    origin: PointV { x: border_x, y: b1.position.origin.y },
                    size: SizeV { width: w + pb, height: b1.position.size.height },
                },
                ..b1
            };
            (Some(b2), x1, w, flags2)
        },
        None => (box_, 0, remaining0, flags1),
    }
}

/// What the top-down width pass needs of a block node.
pub open spec fn block_widths_ok(fv: FlowV, screen: SizeV) -> bool {
    match fv {
        FlowV::Block { box_, is_root, is_fixed, float, base } => {
            let remaining0 = if is_root {
                screen.width
            } else {
                base.position.size.width
            };
            let flags1 = if float is Some || is_root {
                FlagsInfo { inorder: false, ..base.flags_info }
            } else {
                base.flags_info
            };
            let step = block_box_step(box_, base, is_fixed, float is Some, remaining0, flags1, screen);
            &&& -4 * MAX_AU <= screen.width <= 4 * MAX_AU
            &&& -4 * MAX_AU <= remaining0 <= 4 * MAX_AU
            &&& (box_ matches Some(b) ==> wf_style(b.style) && 0 <= b.border.left <= MAX_AU && 0
                <= b.border.right <= MAX_AU)
            &&& -SOLVE_LIMIT <= base.min_width <= SOLVE_LIMIT
            &&& -SOLVE_LIMIT <= base.pref_width <= SOLVE_LIMIT
            &&& prop_scan_ok(base.children, (step.1, step.2), None)
        },
        _ => false,
    }
}

/// A block formatting context.
pub struct BlockFlow {
    /// Data common to all flows.
    pub base: BaseFlow,
    /// The associated box.
    pub box_: Option<LayoutBox>,
    /// Whether this block flow is the root flow.
    pub is_root: bool,
    /// Whether this block is `position: fixed`.
    pub is_fixed: bool,
    /// Additional floating flow members.
    pub float: Option<FloatedBlockInfo>,
}

impl BlockFlow {
    pub fn new(base: BaseFlow) -> (r: BlockFlow)
        ensures
            r.base == base,
            r.box_ is None,
            !r.is_root,
            !r.is_fixed,
            r.float is None,
    {
        BlockFlow { base, box_: None, is_root: false, is_fixed: false, float: None }
    }

    pub fn from_box(base: BaseFlow, box_: LayoutBox, is_fixed: bool) -> (r: BlockFlow)
        ensures
            r.base == base,
            r.box_ == Some(box_),
            !r.is_root,
            r.is_fixed == is_fixed,
            r.float is None,
    {
        BlockFlow { base, box_: Some(box_), is_root: false, is_fixed, float: None }
    }

    pub fn float_from_box(base: BaseFlow, float_type: FloatType, box_: LayoutBox) -> (r: BlockFlow)
        ensures
            r.base == base,
            r.box_ == Some(box_),
            !r.is_root,
            !r.is_fixed,
            r.float matches Some(f) && fresh_block_float(f, float_type),
    {
        BlockFlow {
            base,
            box_: Some(box_),
            is_root: false,
            is_fixed: false,
            float: Some(FloatedBlockInfo::new(float_type)),
        }
    }

    pub fn new_root(base: BaseFlow) -> (r: BlockFlow)
        ensures
            r.base == base,
            r.box_ is None,
            r.is_root,
            !r.is_fixed,
            r.float is None,
    {
        BlockFlow { base, box_: None, is_root: true, is_fixed: false, float: None }
    }

    pub fn new_float(base: BaseFlow, float_type: FloatType) -> (r: BlockFlow)
        ensures
            r.base == base,
            r.box_ is None,
            !r.is_root,
            !r.is_fixed,
            r.float matches Some(f) && fresh_block_float(f, float_type),
    {
        BlockFlow {
            base,
            box_: None,
            is_root: false,
            is_fixed: false,
            float: Some(FloatedBlockInfo::new(float_type)),
        }
    }

    pub fn is_float(&self) -> (r: bool)
        ensures
            r == (self.float is Some),
    {
        self.float.is_some()
    }

    /// Computes left and right margins and width based on CSS 2.1
    /// § 10.3.3. Requires borders and padding to already be computed.
    /// Returns (width, margin-left, margin-right).
    pub fn compute_horiz(
        &self,
        width: MaybeAuto,
        left_margin: MaybeAuto,
        right_margin: MaybeAuto,
        available_width: Au,
    ) -> (r: (Au, Au, Au))
        requires
            width@ matches Some(w) ==> -SOLVE_LIMIT <= w <= SOLVE_LIMIT,
            left_margin@ matches Some(m) ==> -SOLVE_LIMIT <= m <= SOLVE_LIMIT,
            right_margin@ matches Some(m) ==> -SOLVE_LIMIT <= m <= SOLVE_LIMIT,
            -SOLVE_LIMIT <= available_width@ <= SOLVE_LIMIT,
        ensures
            (r.0@, r.1@, r.2@) == horiz_spec(width@, left_margin@, right_margin@, available_width@),
            width@ matches Some(w) ==> r.0@ == w,
            (width@ is Some && left_margin@ is Some && right_margin@ is Some) ==> r.1@ + r.0@
                + r.2@ == available_width@,
    {
        horiz_solve(width, left_margin, right_margin, available_width)
    }

    /// The used width and margins of this block per § 10.3.3, with the
    /// `max-width` and `min-width` clamps applied.
    pub fn compute_block_margins(&self, box_: &LayoutBox, remaining_width: Au, available_width: Au) -> (r: (
        Au,
        Au,
        Au,
    ))
        requires
            wf_style(box_.style),
            -4 * MAX_AU <= remaining_width@ <= 4 * MAX_AU,
            -SOLVE_LIMIT <= available_width@ <= SOLVE_LIMIT,
        ensures
            (r.0@, r.1@, r.2@) == css_margins_spec(box_.style, remaining_width@, available_width@),
            ({
                let mx = specified_or_none_spec(box_.style.max_width, remaining_width@);
                let mn = specified_spec(box_.style.min_width, remaining_width@);
                mx matches Some(m) && m < mn ==> r.0@ == mn
            }),
            (from_style_spec(box_.style.width, remaining_width@) is Some && from_style_spec(
                box_.style.margin_left,
                remaining_width@,
            ) is Some && from_style_spec(box_.style.margin_right, remaining_width@) is Some)
                ==> r.1@ + r.0@ + r.2@ == available_width@,
    {
        css_margins(&box_.style, remaining_width, available_width)
    }

    /// Shrink-to-fit sizing for a floated block: margins resolve to zero
    /// when `auto`; the width, unless specified, is
    /// `min(pref, max(min, remaining))`.
    pub fn compute_float_margins(&self, box_: &LayoutBox, remaining_width: Au) -> (r: (Au, Au, Au))
        requires
            wf_style(box_.style),
            -4 * MAX_AU <= remaining_width@ <= 4 * MAX_AU,
            -SOLVE_LIMIT <= self.base.min_width@ <= SOLVE_LIMIT,
            -SOLVE_LIMIT <= self.base.pref_width@ <= SOLVE_LIMIT,
        ensures
            (r.0@, r.1@, r.2@) == float_margins_spec(
                box_.style,
                self.base.min_width@,
                self.base.pref_width@,
                remaining_width@,
            ),
    {
        float_margins(&box_.style, self.base.min_width, self.base.pref_width, remaining_width)
    }

    /// Bottom-up intrinsic width computation for a block: the widest
    /// child determines both widths, the box adds its own contribution,
    /// and float counts are accumulated (a floated block counts as one
    /// float itself and records its children's count).
    #[verifier::rlimit(100)]
    pub fn bubble_widths(&mut self)
        requires
            block_bubble_ok(block_view(*old(self))),
        ensures
            block_view(*final(self)) == block_bubble_model(block_view(*old(self))),
    {
        let ghost fv0 = block_view(*old(self));
        let ghost kids = fv_base(fv0).children;
        proof {
            lemma_fv_base(Flow::Block(*old(self)));
            lemma_kids_seq_view(old(self).base.children@);
            lemma_kids_stats(kids);
        }
        let mut min_width = Au(0);
        let mut pref_width = Au(0);
        let mut num_floats: usize = 0;
        let n = self.base.children.len();
        let mut i: usize = 0;
        proof {
            assert(kids.subrange(0, 0) =~= Seq::<FlowV>::empty());
        }
        while i < n
            invariant
                0 <= i <= n,
                n == old(self).base.children@.len(),
                *self == *old(self),
                kids == kids_seq_view(old(self).base.children@),
                kids.len() == n,
                kids_stats_ok(kids),
                min_width@ == kids_min_max(kids.subrange(0, i as int)),
                pref_width@ == kids_pref_max(kids.subrange(0, i as int)),
                num_floats as int == kids_float_sum(kids.subrange(0, i as int)),
                0 <= min_width@ <= MAX_AU,
                0 <= pref_width@ <= MAX_AU,
                0 <= num_floats as int <= kids_float_sum(kids),
                kids_float_sum(kids) <= MAX_COUNT,
            decreases n - i,
        {
            let child = &self.base.children[i];
            let child_base = child.base();
            proof {
                lemma_kids_seq_view(old(self).base.children@);
                lemma_fv_base(old(self).base.children@[i as int]);
                assert(kids[i as int] == flow_view(old(self).base.children@[i as int]));
                assert(fv_base(kids[i as int]).min_width == child_base.min_width@);
                assert(kids.subrange(0, i + 1).drop_last() =~= kids.subrange(0, i as int));
                assert(kids.subrange(0, i + 1).last() == kids[i as int]);
                lemma_kids_stats_prefix(kids, i + 1);
                assert(num_floats as int + child_base.num_floats as int == kids_float_sum(
                    kids.subrange(0, i + 1),
                ));
                assert(num_floats as int + child_base.num_floats as int <= MAX_COUNT);
            }
            min_width = min_width.max(child_base.min_width);
            pref_width = pref_width.max(child_base.pref_width);
            num_floats = num_floats + child_base.num_floats;
            i = i + 1;
        }
        proof {
            assert(kids.subrange(0, n as int) =~= kids);
        }
        if self.float.is_some() {
            self.base.num_floats = 1;
            match &mut self.float {
                Some(fi) => {
                    fi.floated_children = num_floats;
                },
                None => {},
            }
        } else {
            self.base.num_floats = num_floats;
        }
        match &mut self.box_ {
            Some(bx) => {
                bx.compute_borders_if_necessary();
                let (this_min, this_pref) = bx.minimum_and_preferred_widths();
                proof {
                    lemma_box_intrinsic_bounds(bx.style);
                }
                min_width = min_width.add(this_min);
                pref_width = pref_width.add(this_pref);
            },
            None => {},
        }
        self.base.min_width = min_width;
        self.base.pref_width = pref_width;
        proof {
            lemma_fv_base(Flow::Block(*self));
            assert(kids_seq_view(self.base.children@) == kids);
            assert(block_view(*self) == block_bubble_model(fv0));
        }
    }

    /// In case of a float, initializes the containing width at the
    /// beginning of the width pass; floats are never in order.
    pub fn set_containing_width_if_float(&mut self, remaining_width: Au)
        ensures
            old(self).float is Some ==> *final(self) == (BlockFlow {
                float: Some(
                    FloatedBlockInfo {
                        containing_width: remaining_width,
                        ..old(self).float->0
                    },
                ),
                base: BaseFlow {
                    flags_info: FlagsInfo { inorder: false, ..old(self).base.flags_info },
                    ..old(self).base
                },
                ..*old(self)
            }),
            old(self).float is None ==> *final(self) == *old(self),
    {
        if self.float.is_some() {
            match &mut self.float {
                Some(fi) => {
                    fi.containing_width = remaining_width;
                },
                None => {},
            }
            self.base.flags_info.set_inorder(false);
        }
    }

    /// The position of the box is set with the given x and width.
    pub fn set_box_x_and_width(box_: &mut LayoutBox, border_x: Au, border_width: Au)
        ensures
            *final(box_) == (LayoutBox {
                position: Rect {
                    origin: Point2D { x: border_x, ..old(box_).position.origin },
                    size: Size2D { width: border_width, ..old(box_).position.size },
                },
                ..*old(box_)
            }),
    {
        box_.position.origin.x = border_x;
        box_.position.size.width = border_width;
    }

    /// Resolves the box's padding and margins against the containing
    /// width, choosing block or shrink-to-fit sizing, and returns the
    /// used content width per CSS 2.1 § 10.3.
    pub fn compute_padding_and_margin_if_exists(
        box_: &mut LayoutBox,
        min_width: Au,
        pref_width: Au,
        is_float: bool,
        remaining_width: Au,
    ) -> (r: Au)
        requires
            wf_style(old(box_).style),
            -4 * MAX_AU <= remaining_width@ <= 4 * MAX_AU,
            -SOLVE_LIMIT <= min_width@ <= SOLVE_LIMIT,
            -SOLVE_LIMIT <= pref_width@ <= SOLVE_LIMIT,
            0 <= old(box_)@.border.left <= MAX_AU,
            0 <= old(box_)@.border.right <= MAX_AU,
        ensures
            ({
                let t = box_widths_model(
                    old(box_)@,
                    min_width@,
                    pref_width@,
                    is_float,
                    remaining_width@,
                );
                final(box_)@ == t.0 && r@ == t.1
            }),
            -4 * SOLVE_LIMIT <= r@ <= 4 * SOLVE_LIMIT,
            -4 * SOLVE_LIMIT <= final(box_)@.margin.left <= 4 * SOLVE_LIMIT,
            -4 * SOLVE_LIMIT <= final(box_)@.margin.right <= 4 * SOLVE_LIMIT,
            -SOLVE_LIMIT <= final(box_)@.margin.top <= SOLVE_LIMIT,
            -SOLVE_LIMIT <= final(box_)@.margin.bottom <= SOLVE_LIMIT,
            -SOLVE_LIMIT <= final(box_)@.padding.left <= SOLVE_LIMIT,
            -SOLVE_LIMIT <= final(box_)@.padding.right <= SOLVE_LIMIT,
            -SOLVE_LIMIT <= final(box_)@.padding.top <= SOLVE_LIMIT,
            -SOLVE_LIMIT <= final(box_)@.padding.bottom <= SOLVE_LIMIT,
            final(box_)@.border == old(box_)@.border,
            final(box_)@.style == old(box_)@.style,
            final(box_)@.position == old(box_)@.position,
    {
        proof {
            crate::horizontal::lemma_resolved_in_limit(box_.style, remaining_width@);
        }
        box_.compute_padding(remaining_width);
        // Margins are zero right now, so the noncontent width is just
        // borders plus padding.
        let available_width = Au(
            remaining_width.0 - box_.padding.left.0 - box_.padding.right.0 - box_.border.left.0
                - box_.border.right.0,
        );
        // Top and bottom margins for blocks are zero when auto.
        let margin_top = MaybeAuto::from_style(
            box_.style.margin_top,
            remaining_width,
        ).specified_or_zero();
        let margin_bottom = MaybeAuto::from_style(
            box_.style.margin_bottom,
            remaining_width,
        ).specified_or_zero();
        let (width, margin_left, margin_right) = if is_float {
            float_margins(&box_.style, min_width, pref_width, remaining_width)
        } else {
            css_margins(&box_.style, remaining_width, available_width)
        };
        box_.margin = SideOffsets2D {
            top: margin_top,
            right: margin_right,
            bottom: margin_bottom,
            left: margin_left,
        };
        width
    }

    /// Assigns the computed x offset and width to the children; column
    /// widths are handed down to table children when given.
    pub fn propagate_assigned_width_to_children(
        &mut self,
        x_offset: Au,
        remaining_width: Au,
        opt_col_widths: Option<&Vec<Au>>,
    )
        requires
            prop_scan_ok(
                kids_seq_view(old(self).base.children@),
                (x_offset@, remaining_width@),
                opt_cols_view(opt_col_widths),
            ),
        ensures
            ({
                let hi = has_inorder_spec(
                    old(self).float is Some,
                    old(self).base.flags_info.inorder,
                    old(self).base.num_floats as int,
                );
                *final(self) == (BlockFlow {
                    base: BaseFlow { children: final(self).base.children, ..old(self).base },
                    ..*old(self)
                }) && final(self).base.children@.len() == old(self).base.children@.len()
                    && kids_seq_view(final(self).base.children@) == propagate_scan(
                    kids_seq_view(old(self).base.children@),
                    (x_offset@, remaining_width@),
                    opt_cols_view(opt_col_widths),
                    old(self).base.flags_info,
                    hi,
                ).0
            }),
    {
        let has_inorder_children = if self.float.is_some() {
            self.base.num_floats > 0
        } else {
            self.base.flags_info.inorder() || self.base.num_floats > 0
        };
        let flags_info = self.base.flags_info;
        propagate_children(
            &mut self.base.children,
            x_offset,
            remaining_width,
            opt_col_widths,
            &flags_info,
            has_inorder_children,
        );
    }


    /// Top-down width assignment for a block: the parent has set this
    /// flow's width; resolve the box's padding and margins against it,
    /// position the border box, and hand the children their widths.
    #[verifier::rlimit(100)]
    pub fn assign_widths(&mut self, ctx: &LayoutContext)
        requires
            block_widths_ok(block_view(*old(self)), ctx.screen_size@),
        ensures
            block_view(*final(self)) == block_widths_model(
                block_view(*old(self)),
                ctx.screen_size@,
            ),
    {
        let ghost fv0 = block_view(*old(self));
        let ghost screen = ctx.screen_size@;
        proof {
            lemma_fv_base(Flow::Block(*old(self)));
        }
        if self.is_root {
            self.base.position.origin = Point2D { x: Au(0), y: Au(0) };
            self.base.position.size.width = ctx.screen_size.width;
            self.base.floats_in = FloatContext::new(self.base.num_floats);
            self.base.flags_info.set_inorder(false);
        }
        let mut remaining_width = self.base.position.size.width;
        let mut x_offset = Au(0);
        self.set_containing_width_if_float(remaining_width);
        let is_float = self.float.is_some();
        let min_width = self.base.min_width;
        let pref_width = self.base.pref_width;
        match &mut self.box_ {
            Some(bx) => {
                // The text alignment of a block flow is the text
                // alignment of its box's style.
                self.base.flags_info.set_text_align(bx.style.text_align);
                proof {
                    crate::horizontal::lemma_resolved_in_limit(bx.style, ctx.screen_size@.width);
                }
                let width = BlockFlow::compute_padding_and_margin_if_exists(
                    bx,
                    min_width,
                    pref_width,
                    is_float,
                    remaining_width,
                );
                let offset = Au(bx.margin.left.0 + bx.border.left.0 + bx.padding.left.0);
                let (x, w) = bx.get_x_coord_and_new_width_if_fixed(
                    ctx.screen_size.width,
                    ctx.screen_size.height,
                    width,
                    offset,
                    self.is_fixed,
                );
                x_offset = x;
                remaining_width = w;
                let border_x = if self.is_fixed {
                    let border_x = Au(x_offset.0 + bx.margin.left.0);
                    x_offset = Au(x_offset.0 + bx.padding.left.0);
                    border_x
                } else {
                    bx.margin.left
                };
                let padding_and_borders = Au(
                    bx.padding.left.0 + bx.padding.right.0 + bx.border.left.0 + bx.border.right.0,
                );
                // The associated box is the border box of this flow.
                BlockFlow::set_box_x_and_width(
                    bx,
                    border_x,
                    Au(remaining_width.0 + padding_and_borders.0),
                );
            },
            None => {},
        }
        if self.float.is_some() {
            self.base.position.size.width = remaining_width;
        }
        self.propagate_assigned_width_to_children(x_offset, remaining_width, None);
        proof {
            lemma_fv_base(Flow::Block(*self));
            assert(block_view(*self) == block_widths_model(fv0, screen));
        }
    }


    /// Emits this flow's paintable rectangles, culled by the dirty
    /// rectangle, and gives the children their absolute positions. A
    /// fully clipped flow returns `true` and paints nothing.
    pub fn build_display_list_block(
        &mut self,
        builder: &crate::display_list::DisplayListBuilder,
        dirty: &Rect,
        list: &mut crate::display_list::DisplayList,
    ) -> (r: bool)
        requires
            dlist_ok(
                base_view(old(self).base, kids_seq_view(old(self).base.children@)),
                opt_box_view(old(self).box_),
                dl_extra(block_float_view(old(self).float)),
            ),
        ensures
            ({
                let m = dlist_model(
                    base_view(old(self).base, kids_seq_view(old(self).base.children@)),
                    opt_box_view(old(self).box_),
                    dl_extra(block_float_view(old(self).float)),
                    dirty@,
                    crate::display_list::dl_view(*old(list)),
                );
                &&& base_view(final(self).base, kids_seq_view(final(self).base.children@)) == m.0
                &&& crate::display_list::dl_view(*final(list)) == m.1
                &&& r == m.2
                &&& *final(self) == (BlockFlow { base: final(self).base, ..*old(self) })
            }),
    {
        let extra = match &self.float {
            Some(fi) => fi.rel_pos,
            None => Point2D { x: Au(0), y: Au(0) },
        };
        build_display_list_base(&mut self.base, &self.box_, extra, dirty, list)
    }

    /// Emits this flow's paintable rectangles, culled by the dirty
    /// rectangle, and gives the children their absolute positions. A
    /// fully clipped flow returns `true` and paints nothing.
    pub fn build_display_list_float(
        &mut self,
        builder: &crate::display_list::DisplayListBuilder,
        dirty: &Rect,
        list: &mut crate::display_list::DisplayList,
    ) -> (r: bool)
        requires
            dlist_ok(
                base_view(old(self).base, kids_seq_view(old(self).base.children@)),
                opt_box_view(old(self).box_),
                dl_extra(block_float_view(old(self).float)),
            ),
        ensures
            ({
                let m = dlist_model(
                    base_view(old(self).base, kids_seq_view(old(self).base.children@)),
                    opt_box_view(old(self).box_),
                    dl_extra(block_float_view(old(self).float)),
                    dirty@,
                    crate::display_list::dl_view(*old(list)),
                );
                &&& base_view(final(self).base, kids_seq_view(final(self).base.children@)) == m.0
                &&& crate::display_list::dl_view(*final(list)) == m.1
                &&& r == m.2
                &&& *final(self) == (BlockFlow { base: final(self).base, ..*old(self) })
            }),
    {
        let extra = match &self.float {
            Some(fi) => fi.rel_pos,
            None => Point2D { x: Au(0), y: Au(0) },
        };
        build_display_list_base(&mut self.base, &self.box_, extra, dirty, list)
    }

    /// Marks this block as the root flow.
    pub fn mark_as_root(&mut self)
        ensures
            *final(self) == (BlockFlow { is_root: true, ..*old(self) }),
    {
        self.is_root = true;
    }

    /// Drops the box and the floated info eagerly.
    pub fn teardown(&mut self)
        ensures
            final(self).base == old(self).base,
            final(self).box_ is None,
            final(self).float is None,
            final(self).is_root == old(self).is_root,
            final(self).is_fixed == old(self).is_fixed,
    {
        self.box_ = None;
        self.float = None;
    }
}

} // verus!
