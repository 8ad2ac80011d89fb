//! The height pass: post-order height assignment with vertical margin
//! collapsing (CSS 2.1 § 8.3.1), clearance, float placement, and the
//! in-order sub-traversal that threads the float context through the
//! children when floats are present.

use vstd::prelude::*;

use crate::block::BlockFlow;
use crate::box_model::BoxV;
use crate::box_model::LayoutBox;
use crate::float_context::FloatContext;
use crate::float_context::FloatContextV;
use crate::float_context::PlacedFloatV;
use crate::float_context::PlacementInfo;
use crate::float_context::PlacementInfoV;
use crate::float_context::clearance_of;
use crate::float_context::ctx_floats;
use crate::float_context::place_float_spec;
use crate::float_context::shift_float;
use crate::float_context::shift_floats;
use crate::float_context::wf_float;
use crate::float_context::wf_floats;
use crate::float_context::FLOAT_BOUND;
use crate::flow::BaseFlow;
use crate::flow::BaseV;
use crate::flow::Flow;
use crate::flow::FlowV;
use crate::flow::FloatInfoV;
use crate::flow::LayoutContext;
use crate::flow::fv_base;
use crate::flow::fv_box;
use crate::flow::flow_view;
use crate::flow::fv_size;
use crate::flow::fv_with_base;
use crate::flow::in_solve_range;
use crate::flow::kids_seq_view;
use crate::flow::kids_size;
use crate::flow::lemma_fv_base;
use crate::flow::lemma_fv_size_unfold;
use crate::flow::lemma_kids_seq_view;
use crate::flow::lemma_kids_size_congruent;
use crate::flow::lemma_kids_size_index;
use crate::flow::lemma_size_with_base;
use crate::flow::lemma_view_with_base;
use crate::flow::lemma_view_variant;
use crate::flow::spec_base;
use crate::flow::spec_with_base;
use crate::geometry::Au;
use crate::geometry::PointV;
use crate::geometry::RectV;
use crate::geometry::SizeV;
use crate::geometry::MAX_AU;
use crate::geometry::max_int;
use crate::geometry::min_int;
use crate::horizontal::SOLVE_LIMIT;
use crate::model::MaybeAuto;
use crate::model::from_style_spec;
use crate::model::specified_or;
use crate::style::wf_style;

verus! {

// ---------------------------------------------------------------------
// Accessors over the mirror used only by the height pass.
// ---------------------------------------------------------------------
/// The floated-flow info of a mirrored flow, for the kinds that can
/// float.
pub open spec fn fv_float(fv: FlowV) -> Option<FloatInfoV> {
    match fv {
        FlowV::Block { float, .. } => float,
        FlowV::TableWrapper { float, .. } => float,
        FlowV::TableRow { float, .. } => float,
        _ => None,
    }
}

pub open spec fn fv_is_float(fv: FlowV) -> bool {
    fv_float(fv) is Some
}

// ---------------------------------------------------------------------
// Margin collapsing (CSS 2.1 § 8.3.1).
// ---------------------------------------------------------------------
/// The running state of the parent's margin-collapse walk.
pub ghost struct CollapseSt {
    pub first: bool,
    pub margin_top: int,
    pub top_offset: int,
    pub collapsing: int,
    pub collapsible: int,
}

/// What one child's `collapse_margins` does to the walk: a floated child
/// breaks collapsing; a boxless child only ends the first-in-flow
/// window; a boxed child may slide a collapsible parent down to its own
/// larger top margin, then collapses the adjoining margins.
pub open spec fn collapse_step(kid: FlowV, top_collapsible: bool, st: CollapseSt) -> CollapseSt {
    if fv_is_float(kid) {
        CollapseSt { collapsing: 0, ..st }
    } else {
        match fv_box(kid) {
            None => CollapseSt { first: false, ..st },
            Some(b) => {
                let slide = st.first && top_collapsible && st.margin_top < b.margin.top;
                CollapseSt {
                    first: false,
                    margin_top: if slide {
                        b.margin.top
                    } else {
                        st.margin_top
                    },
                    top_offset: if slide {
                        st.top_offset + (b.margin.top - st.margin_top)
                    } else {
                        st.top_offset
                    },
                    collapsing: min_int(b.margin.top, st.collapsible),
                    collapsible: b.margin.bottom,
                }
            },
        }
    }
}

/// The parent's walk over its children: collapse, place each child at
/// the running y, and advance by the child's height. Returns the placed
/// children, the final state and the final y.
pub open spec fn collapse_scan(kids: Seq<FlowV>, top_collapsible: bool, st0: CollapseSt, cur_y0: int) -> (
    Seq<FlowV>,
    CollapseSt,
    int,
)
    decreases kids.len(),
{
    if kids.len() == 0 {
        (Seq::empty(), st0, cur_y0)
    } else {
        let t = collapse_scan(kids.drop_last(), top_collapsible, st0, cur_y0);
        let st = collapse_step(kids.last(), top_collapsible, t.1);
        let y = t.2 - st.collapsing;
        let b = fv_base(kids.last());
        let kid2 = fv_with_base(
            kids.last(),
            BaseV {
                position: RectV {
                    origin: PointV { x: b.position.origin.x, y },
                    size: b.position.size,
                },
                ..b
            },
        );
        (t.0.push(kid2), st, y + b.position.size.height)
    }
}

/// What the walk needs: every intermediate coordinate within range.
pub open spec fn collapse_scan_ok(
    kids: Seq<FlowV>,
    top_collapsible: bool,
    st0: CollapseSt,
    cur_y0: int,
) -> bool
    decreases kids.len(),
{
    if kids.len() == 0 {
        &&& in_solve_range(st0.margin_top)
        &&& in_solve_range(st0.top_offset)
        &&& in_solve_range(st0.collapsing)
        &&& in_solve_range(st0.collapsible)
        &&& in_solve_range(cur_y0)
    } else {
        let t = collapse_scan(kids.drop_last(), top_collapsible, st0, cur_y0);
        let st = collapse_step(kids.last(), top_collapsible, t.1);
        let b = fv_base(kids.last());
        &&& collapse_scan_ok(kids.drop_last(), top_collapsible, st0, cur_y0)
        &&& (fv_box(kids.last()) matches Some(bx) ==> in_solve_range(bx.margin.top)
            && in_solve_range(bx.margin.bottom))
        &&& in_solve_range(b.position.size.height)
        &&& in_solve_range(st.margin_top)
        &&& in_solve_range(st.top_offset)
        &&& in_solve_range(st.collapsing)
        &&& in_solve_range(st.collapsible)
        &&& in_solve_range(t.2 - st.collapsing)
        &&& in_solve_range(t.2 - st.collapsing + b.position.size.height)
    }
}

/// A prefix of an accepted walk is accepted.
pub proof fn lemma_collapse_scan_ok_prefix(
    kids: Seq<FlowV>,
    top_collapsible: bool,
    st0: CollapseSt,
    cur_y0: int,
    i: int,
)
    requires
        collapse_scan_ok(kids, top_collapsible, st0, cur_y0),
        0 <= i <= kids.len(),
    ensures
        collapse_scan_ok(kids.subrange(0, i), top_collapsible, st0, cur_y0),
    decreases kids.len(),
{
    if i == kids.len() {
        assert(kids.subrange(0, i) =~= kids);
    } else if kids.len() > 0 {
        assert(kids.drop_last().subrange(0, i) =~= kids.subrange(0, i));
        lemma_collapse_scan_ok_prefix(kids.drop_last(), top_collapsible, st0, cur_y0, i);
    }
}

// ---------------------------------------------------------------------
// Offsets and precomputed margins.
// ---------------------------------------------------------------------
/// (clearance, top_offset, bottom_offset, left_offset) for the box:
/// clearance against the inherited floats unless clearing is ignored;
/// the wrapper variant counts its margins into the vertical offsets.
pub open spec fn offsets_spec(
    box_: Option<BoxV>,
    fc: Seq<PlacedFloatV>,
    wrapper_style: bool,
    ignore_clear: bool,
) -> (int, int, int, int) {
    match box_ {
        None => (0, 0, 0, 0),
        Some(b) => {
            let clearance = match b.style.clear {
                Some(cl) => if ignore_clear {
                    0
                } else {
                    clearance_of(fc, cl)
                },
                None => 0,
            };
            let m_top = if wrapper_style {
                b.margin.top
            } else {
                0
            };
            let m_bot = if wrapper_style {
                b.margin.bottom
            } else {
                0
            };
            (
                clearance,
                clearance + m_top + b.border.top + b.padding.top,
                m_bot + b.border.bottom + b.padding.bottom,
                b.margin.left + b.border.left + b.padding.left,
            )
        },
    }
}

/// (margin_top, margin_bottom, top collapsible, bottom collapsible):
/// a margin is collapsible when the box is not the root's and has no
/// border and no padding on that side.
pub open spec fn precompute_spec(box_: Option<BoxV>, is_root: bool) -> (int, int, bool, bool) {
    match box_ {
        None => (0, 0, false, false),
        Some(b) => (
            b.margin.top,
            b.margin.bottom,
            !is_root && b.border.top == 0 && b.padding.top == 0,
            !is_root && b.border.bottom == 0 && b.padding.bottom == 0,
        ),
    }
}

/// Box geometry within the ranges the height pass computes with.
pub open spec fn box_vertical_ok(box_: Option<BoxV>) -> bool {
    match box_ {
        None => true,
        Some(b) => {
            &&& wf_style(b.style)
            &&& in_solve_range(b.margin.top)
            &&& in_solve_range(b.margin.bottom)
            &&& in_solve_range(b.margin.left)
            &&& in_solve_range(b.margin.right)
            &&& 0 <= b.border.top <= MAX_AU
            &&& 0 <= b.border.bottom <= MAX_AU
            &&& 0 <= b.border.left <= MAX_AU
            &&& 0 <= b.border.right <= MAX_AU
            &&& in_solve_range(b.padding.top)
            &&& in_solve_range(b.padding.bottom)
            &&& in_solve_range(b.padding.left)
            &&& in_solve_range(b.padding.right)
            &&& in_solve_range(b.position.origin.y)
            &&& in_solve_range(b.position.size.height)
        },
    }
}

// ---------------------------------------------------------------------
// The in-order sub-traversal: threading the float context.
// ---------------------------------------------------------------------
/// The children visited in order: each child inherits the floats the
/// previous one handed on, and hands on its own.
pub open spec fn thread_kids(kids: Seq<FlowV>, fc: Seq<PlacedFloatV>, screen: SizeV) -> (
    Seq<FlowV>,
    Seq<PlacedFloatV>,
)
    decreases kids, 9int,
{
    if kids.len() == 0 {
        (Seq::empty(), fc)
    } else {
        let t = thread_kids(kids.drop_last(), fc, screen);
        let kid2 = height_inorder_model(kids.last(), t.1, screen);
        (t.0.push(kid2), ctx_floats(fv_base(kid2).floats_out))
    }
}

// ---------------------------------------------------------------------
// The core of the block-like height computation (after the children are
// threaded): steps 3-8 of the block height algorithm.
// ---------------------------------------------------------------------
/// The state after the collapse walk and the bottom collapse.
pub open spec fn base_height_core(
    base: BaseV,
    box_: Option<BoxV>,
    fci: FloatContextV,
    kids2: Seq<FlowV>,
    fc_last: Seq<PlacedFloatV>,
    off: (int, int, int, int),
    is_root: bool,
    is_fixed: bool,
    wrapper_style: bool,
    inorder: bool,
    screen: SizeV,
) -> (BaseV, Option<BoxV>) {
    let pre = precompute_spec(box_, is_root);
    let st0 = CollapseSt {
        first: true,
        margin_top: pre.0,
        top_offset: off.1,
        collapsing: 0,
        collapsible: if pre.2 {
            pre.0
        } else {
            0
        },
    };
    let sc = collapse_scan(kids2, pre.2, st0, off.1);
    let kids3 = sc.0;
    let st = sc.1;
    let margin_bottom = if pre.3 && pre.1 < st.collapsible {
        st.collapsible
    } else {
        pre.1
    };
    let bottom_collapsing = if pre.3 {
        st.collapsible
    } else {
        0
    };
    let cur_y2 = if wrapper_style {
        sc.2
    } else {
        sc.2 - bottom_collapsing
    };
    let content_y = sc.2 - bottom_collapsing;
    let h0 = if is_root {
        max_int(screen.height, content_y)
    } else {
        content_y - st.top_offset
    };
    let h1 = match box_ {
        Some(b) => specified_or(from_style_spec(b.style.height, h0), h0),
        None => h0,
    };
    let bp = match box_ {
        Some(b) => b.padding.top + b.padding.bottom + b.border.top + b.border.bottom,
        None => 0,
    };
    let box_y = match box_ {
        Some(b) => if is_fixed {
            specified_or(from_style_spec(b.style.position_top, screen.height), 0)
        } else {
            off.0 + st.margin_top
        },
        None => 0,
    };
    let new_box = match box_ {
        Some(b) => Some(
            BoxV {
                position: RectV {
                    origin: PointV { x: b.position.origin.x, y: box_y },
                    size: SizeV {
                        width: b.position.size.width,
                        height: if is_fixed {
                            h1
                        } else {
                            h1 + bp
                        },
                    },
                },
                margin: crate::geometry::OffsetsV {
                    top: st.margin_top,
                    bottom: margin_bottom,
                    ..b.margin
                },
                ..b
            },
        ),
        None => None,
    };
    let noncontent = match box_ {
        Some(b) => bp + off.0 + st.margin_top + margin_bottom,
        None => 0,
    };
    let kids4 = if is_fixed && box_ is Some {
        Seq::new(
            kids3.len(),
            |i: int|
                fv_with_base(
                    kids3[i],
                    BaseV {
                        position: RectV {
                            origin: PointV {
                                x: fv_base(kids3[i]).position.origin.x,
                                y: box_y + st.top_offset,
                            },
                            size: fv_base(kids3[i]).position.size,
                        },
                        ..fv_base(kids3[i])
                    },
                ),
        )
    } else {
        kids3
    };
    let base_h = if is_fixed {
        h1
    } else {
        h1 + noncontent
    };
    let extra = h1 - (cur_y2 - st.top_offset) + off.2;
    let floats_out = if inorder {
        FloatContextV::Present(shift_floats(fc_last, PointV { x: off.3, y: -extra }))
    } else {
        fci
    };
    (
        BaseV {
            position: RectV {
                origin: base.position.origin,
                size: SizeV { width: base.position.size.width, height: base_h },
            },
            floats_in: fci,
            floats_out,
            children: kids4,
            ..base
        },
        new_box,
    )
}

/// The whole block-like height step for one node: offsets, the optional
/// in-order walk of the children, collapsing, height resolution and the
/// outgoing floats. The wrapper style counts margins into the offsets
/// and skips the bottom-collapse adjustment of the running y.
pub open spec fn block_like_height(
    base: BaseV,
    box_: Option<BoxV>,
    fci: FloatContextV,
    is_root: bool,
    is_fixed: bool,
    wrapper_style: bool,
    inorder: bool,
    screen: SizeV,
) -> (BaseV, Option<BoxV>)
    decreases base, 11int,
{
    let fc = ctx_floats(fci);
    let off = offsets_spec(box_, fc, wrapper_style, false);
    let tk = if inorder {
        thread_kids(base.children, shift_floats(fc, PointV { x: -off.3, y: -off.1 }), screen)
    } else {
        (base.children, Seq::<PlacedFloatV>::empty())
    };
    base_height_core(
        base,
        box_,
        fci,
        tk.0,
        tk.1,
        off,
        is_root,
        is_fixed,
        wrapper_style,
        inorder,
        screen,
    )
}

// ---------------------------------------------------------------------
// Float placement during the in-order pass, and the float's own height.
// ---------------------------------------------------------------------
/// The placement request a floated flow files for itself: its margin
/// box, below its own clearance, within its containing width.
pub open spec fn float_place_info(
    base: BaseV,
    box_: Option<BoxV>,
    fi: FloatInfoV,
    fc: Seq<PlacedFloatV>,
) -> PlacementInfoV {
    let height = match box_ {
        Some(b) => b.position.size.height,
        None => 0,
    };
    let clearance = match box_ {
        Some(b) => match b.style.clear {
            Some(cl) => clearance_of(fc, cl),
            None => 0,
        },
        None => 0,
    };
    let full_noncontent_width = match box_ {
        Some(b) => b.padding.left + b.padding.right + b.border.left + b.border.right + b.margin.left
            + b.margin.right,
        None => 0,
    };
    let margin_height = match box_ {
        Some(b) => b.margin.top + b.margin.bottom,
        None => 0,
    };
    PlacementInfoV {
        width: base.position.size.width + full_noncontent_width,
        height: height + margin_height,
        ceiling: clearance,
        max_width: fi.containing_width,
        f_type: fi.float_type,
    }
}

/// A floated flow during the in-order pass: it places itself into the
/// inherited float context and records where it landed.
pub open spec fn float_inorder_model(fv: FlowV, fc: Seq<PlacedFloatV>) -> FlowV {
    let base = fv_base(fv);
    let box_ = fv_box(fv);
    let fi = fv_float(fv)->0;
    let info = float_place_info(base, box_, fi, fc);
    let nf = place_float_spec(fc, info);
    let base2 = BaseV {
        floats_in: FloatContextV::Present(fc),
        floats_out: FloatContextV::Present(fc.push(nf)),
        ..base
    };
    let fi2 = FloatInfoV { rel_pos: nf.bounds.origin, ..fi };
    match fv {
        FlowV::Block { box_, is_root, is_fixed, base: _, float: _ } => FlowV::Block {
            box_,
            is_root,
            is_fixed,
            float: Some(fi2),
            base: base2,
        },
        FlowV::TableWrapper { box_, col_widths, is_fixed_layout, base: _, float: _ } => FlowV::TableWrapper {
            box_,
            float: Some(fi2),
            col_widths,
            is_fixed_layout,
            base: base2,
        },
        FlowV::TableRow {
            box_,
            is_fixed,
            col_widths,
            col_min_widths,
            col_pref_widths,
            base: _,
            float: _,
        } => FlowV::TableRow {
            box_,
            is_fixed,
            float: Some(fi2),
            col_widths,
            col_min_widths,
            col_pref_widths,
            base: base2,
        },
        _ => fv,
    }
}

/// Stacked placement of the children, for a float's own height pass.
pub open spec fn stack_scan(kids: Seq<FlowV>, cur0: int) -> (Seq<FlowV>, int)
    decreases kids.len(),
{
    if kids.len() == 0 {
        (Seq::empty(), cur0)
    } else {
        let t = stack_scan(kids.drop_last(), cur0);
        let b = fv_base(kids.last());
        let kid2 = fv_with_base(
            kids.last(),
            BaseV {
                position: RectV {
                    origin: PointV { x: b.position.origin.x, y: t.1 },
                    size: b.position.size,
                },
                ..b
            },
        );
        (t.0.push(kid2), t.1 + b.position.size.height)
    }
}

pub open spec fn stack_scan_ok(kids: Seq<FlowV>, cur0: int) -> bool
    decreases kids.len(),
{
    if kids.len() == 0 {
        in_solve_range(cur0)
    } else {
        let t = stack_scan(kids.drop_last(), cur0);
        &&& stack_scan_ok(kids.drop_last(), cur0)
        &&& in_solve_range(fv_base(kids.last()).position.size.height)
        &&& in_solve_range(t.1 + fv_base(kids.last()).position.size.height)
    }
}

pub proof fn lemma_stack_scan_ok_prefix(kids: Seq<FlowV>, cur0: int, i: int)
    requires
        stack_scan_ok(kids, cur0),
        0 <= i <= kids.len(),
    ensures
        stack_scan_ok(kids.subrange(0, i), cur0),
    decreases kids.len(),
{
    if i == kids.len() {
        assert(kids.subrange(0, i) =~= kids);
    } else if kids.len() > 0 {
        assert(kids.drop_last().subrange(0, i) =~= kids.subrange(0, i));
        lemma_stack_scan_ok_prefix(kids.drop_last(), cur0, i);
    }
}

/// A floated flow's own height pass, run after its width is known: it
/// threads a fresh float context through the children when floated
/// descendants exist, stacks the children, and sizes its own box from
/// the content and the `height` property. The wrapper and row variants
/// count the margin into the top offset.
pub open spec fn float_stack_model(
    base: BaseV,
    box_: Option<BoxV>,
    margin_in_top: bool,
    screen: SizeV,
) -> (BaseV, Option<BoxV>)
    decreases base, 11int,
{
    let kids2 = if base.num_floats > 0 {
        thread_kids(base.children, Seq::empty(), screen).0
    } else {
        base.children
    };
    let top_offset = match box_ {
        Some(b) => if margin_in_top {
            b.margin.top + b.border.top + b.padding.top
        } else {
            b.border.top + b.padding.top
        },
        None => 0,
    };
    let sc = stack_scan(kids2, top_offset);
    let h = sc.1 - top_offset;
    let new_box = match box_ {
        Some(b) => {
            let noncontent = b.padding.top + b.padding.bottom + b.border.top + b.border.bottom;
            let hp = specified_or(from_style_spec(b.style.height, 0), 0);
            Some(
                BoxV {
                    position: RectV {
                        origin: PointV { x: b.position.origin.x, y: b.margin.top },
                        size: SizeV {
                            width: b.position.size.width,
                            height: max_int(h, hp) + noncontent,
                        },
                    },
                    ..b
                },
            )
        },
        None => box_,
    };
    (BaseV { children: sc.0, ..base }, new_box)
}

// ---------------------------------------------------------------------
// The table row's height step.
// ---------------------------------------------------------------------
/// The largest height among the children.
pub open spec fn kids_height_max(kids: Seq<FlowV>) -> int
    decreases kids.len(),
{
    if kids.len() == 0 {
        0
    } else {
        max_int(kids_height_max(kids.drop_last()), fv_base(kids.last()).position.size.height)
    }
}

/// A row's cells after the row's height is chosen: every cell sits at
/// y = 0, its box is stretched to the row height, and its own recorded
/// height is the pre-property maximum.
pub open spec fn row_stretch_kids(kids: Seq<FlowV>, row_height: int, max_y: int) -> Seq<FlowV> {
    Seq::new(
        kids.len(),
        |i: int|
            {
                let b = fv_base(kids[i]);
                let kid1 = match kids[i] {
                    FlowV::TableCell { box_: Some(bx), base } => FlowV::TableCell {
                        box_: Some(
                            BoxV {
                                position: RectV {
                                    origin: bx.position.origin,
                                    size: SizeV {
                                        width: bx.position.size.width,
                                        height: row_height,
                                    },
                                },
                                ..bx
                            },
                        ),
                        base,
                    },
                    _ => kids[i],
                };
                fv_with_base(
                    kid1,
                    BaseV {
                        position: RectV {
                            origin: PointV { x: fv_base(kid1).position.origin.x, y: 0 },
                            size: SizeV {
                                width: fv_base(kid1).position.size.width,
                                height: max_y,
                            },
                        },
                        ..fv_base(kid1)
                    },
                )
            },
    )
}

/// A table row's height step: cells sit side by side at the same y; the
/// row is as tall as its tallest cell (or its `height` property); every
/// cell is then stretched to the row height, while each cell's recorded
/// flow height keeps the pre-property maximum.
pub open spec fn row_height_model(
    base: BaseV,
    box_: Option<BoxV>,
    fci: FloatContextV,
    is_fixed: bool,
    inorder: bool,
    screen: SizeV,
) -> (BaseV, Option<BoxV>)
    decreases base, 11int,
{
    let fc = ctx_floats(fci);
    let tk = if inorder {
        thread_kids(base.children, shift_floats(fc, PointV { x: 0, y: 0 }), screen)
    } else {
        (base.children, Seq::<PlacedFloatV>::empty())
    };
    let kids2 = tk.0;
    let max_y = kids_height_max(kids2);
    let h1 = match box_ {
        Some(b) => specified_or(from_style_spec(b.style.height, max_y), max_y),
        None => max_y,
    };
    let box_y = match box_ {
        Some(b) => if is_fixed {
            specified_or(from_style_spec(b.style.position_top, screen.height), 0)
        } else {
            0
        },
        None => 0,
    };
    let new_box = match box_ {
        Some(b) => Some(
            BoxV {
                position: RectV {
                    origin: PointV { x: b.position.origin.x, y: box_y },
                    size: SizeV { width: b.position.size.width, height: h1 },
                },
                ..b
            },
        ),
        None => None,
    };
    let kids3 = row_stretch_kids(kids2, h1, max_y);
    let cur_y = h1;
    let extra = h1 - cur_y;
    let floats_out = if inorder {
        FloatContextV::Present(shift_floats(tk.1, PointV { x: 0, y: -extra }))
    } else {
        fci
    };
    (
        BaseV {
            position: RectV {
                origin: base.position.origin,
                size: SizeV { width: base.position.size.width, height: h1 },
            },
            floats_in: fci,
            floats_out,
            children: kids3,
            ..base
        },
        new_box,
    )
}

// ---------------------------------------------------------------------
// The per-kind dispatch of the in-order height step.
// ---------------------------------------------------------------------
/// One node of the in-order height traversal, the floats it inherits
/// given alongside: a floated flow places itself; a block-like flow runs
/// the full collapse-and-height step, threading its children; a column
/// group passes the floats through untouched.
pub open spec fn height_inorder_model(fv: FlowV, fc: Seq<PlacedFloatV>, screen: SizeV) -> FlowV
    decreases fv, 12int,
{
    if fv_is_float(fv) {
        float_inorder_model(fv, fc)
    } else {
        match fv {
            FlowV::Block { box_, is_root, is_fixed, float, base } => {
                let t = block_like_height(
                    base,
                    box_,
                    FloatContextV::Present(fc),
                    is_root,
                    is_fixed,
                    false,
                    true,
                    screen,
                );
                FlowV::Block { box_: t.1, is_root, is_fixed, float, base: t.0 }
            },
            FlowV::TableWrapper { box_, float, col_widths, is_fixed_layout, base } => {
                let t = block_like_height(
                    base,
                    box_,
                    FloatContextV::Present(fc),
                    false,
                    false,
                    true,
                    true,
                    screen,
                );
                FlowV::TableWrapper {
                    box_: t.1,
                    float,
                    col_widths,
                    is_fixed_layout,
                    base: t.0,
                }
            },
            FlowV::Table { box_, col_widths, cell_min_widths, base } => {
                let t = block_like_height(
                    base,
                    box_,
                    FloatContextV::Present(fc),
                    false,
                    false,
                    false,
                    true,
                    screen,
                );
                FlowV::Table { box_: t.1, col_widths, cell_min_widths, base: t.0 }
            },
            FlowV::TableRowGroup { box_, col_widths, base } => {
                let t = block_like_height(
                    base,
                    box_,
                    FloatContextV::Present(fc),
                    false,
                    false,
                    false,
                    true,
                    screen,
                );
                FlowV::TableRowGroup { box_: t.1, col_widths, base: t.0 }
            },
            FlowV::TableRow {
                box_,
                is_fixed,
                float,
                col_widths,
                col_min_widths,
                col_pref_widths,
                base,
            } => {
                let t = row_height_model(
                    base,
                    box_,
                    FloatContextV::Present(fc),
                    is_fixed,
                    true,
                    screen,
                );
                FlowV::TableRow {
                    box_: t.1,
                    is_fixed,
                    float,
                    col_widths,
                    col_min_widths,
                    col_pref_widths,
                    base: t.0,
                }
            },
            FlowV::TableCell { box_, base } => {
                let t = block_like_height(
                    base,
                    box_,
                    FloatContextV::Present(fc),
                    false,
                    false,
                    false,
                    true,
                    screen,
                );
                FlowV::TableCell { box_: t.1, base: t.0 }
            },
            FlowV::TableColGroup { min_widths, base } => FlowV::TableColGroup {
                min_widths,
                base: BaseV {
                    floats_in: FloatContextV::Present(fc),
                    floats_out: FloatContextV::Present(fc),
                    ..base
                },
            },
        }
    }
}

// ---------------------------------------------------------------------
// What the height pass accepts: every intermediate value within range,
// float contexts present and well-formed where they are consumed.
// ---------------------------------------------------------------------
/// The collapse state the walk starts from.
pub open spec fn collapse_st0(box_: Option<BoxV>, is_root: bool, top_offset: int) -> CollapseSt {
    let pre = precompute_spec(box_, is_root);
    CollapseSt {
        first: true,
        margin_top: pre.0,
        top_offset,
        collapsing: 0,
        collapsible: if pre.2 {
            pre.0
        } else {
            0
        },
    }
}

pub open spec fn block_like_ok(
    children: Seq<FlowV>,
    box_: Option<BoxV>,
    fci: FloatContextV,
    is_root: bool,
    is_fixed: bool,
    wrapper_style: bool,
    inorder: bool,
    screen: SizeV,
) -> bool
    decreases children, 10int,
{
    let fc = ctx_floats(fci);
    let off = offsets_spec(box_, fc, wrapper_style, false);
    let delta_in = PointV { x: -off.3, y: -off.1 };
    let tk = if inorder {
        thread_kids(children, shift_floats(fc, delta_in), screen)
    } else {
        (children, Seq::<PlacedFloatV>::empty())
    };
    let pre = precompute_spec(box_, is_root);
    let st0 = collapse_st0(box_, is_root, off.1);
    let sc = collapse_scan(tk.0, pre.2, st0, off.1);
    let bottom_collapsing = if pre.3 {
        sc.1.collapsible
    } else {
        0
    };
    let content_y = sc.2 - bottom_collapsing;
    let cur_y2 = if wrapper_style {
        sc.2
    } else {
        content_y
    };
    let h0 = if is_root {
        max_int(screen.height, content_y)
    } else {
        content_y - sc.1.top_offset
    };
    let h1 = match box_ {
        Some(b) => specified_or(from_style_spec(b.style.height, h0), h0),
        None => h0,
    };
    let extra = h1 - (cur_y2 - sc.1.top_offset) + off.2;
    let delta_out = PointV { x: off.3, y: -extra };
    &&& box_vertical_ok(box_)
    &&& -4 * MAX_AU <= screen.height <= 4 * MAX_AU
    &&& (box_ matches Some(b) && b.style.clear is Some ==> fci is Present && wf_floats(fc))
    &&& (inorder ==> {
        &&& fci is Present
        &&& wf_floats(fc)
        &&& (forall|i: int|
            0 <= i < fc.len() ==> wf_float(shift_float(#[trigger] fc[i], delta_in)))
        &&& thread_ok(children, shift_floats(fc, delta_in), screen)
        &&& wf_floats(tk.1)
        &&& (forall|i: int|
            0 <= i < tk.1.len() ==> wf_float(shift_float(#[trigger] tk.1[i], delta_out)))
    })
    &&& collapse_scan_ok(tk.0, pre.2, st0, off.1)
    &&& -4 * MAX_AU <= h0 <= 4 * MAX_AU
    &&& -4 * MAX_AU <= h1 <= 4 * MAX_AU
}

pub open spec fn thread_ok(kids: Seq<FlowV>, fc: Seq<PlacedFloatV>, screen: SizeV) -> bool
    decreases kids, 9int,
{
    if kids.len() == 0 {
        wf_floats(fc)
    } else {
        let t = thread_kids(kids.drop_last(), fc, screen);
        let kid2 = height_inorder_model(kids.last(), t.1, screen);
        &&& thread_ok(kids.drop_last(), fc, screen)
        &&& height_inorder_ok(kids.last(), t.1, screen)
        &&& fv_base(kid2).floats_out is Present
        &&& wf_floats(ctx_floats(fv_base(kid2).floats_out))
    }
}

pub open spec fn float_inorder_ok(fv: FlowV, fc: Seq<PlacedFloatV>) -> bool {
    let base = fv_base(fv);
    let box_ = fv_box(fv);
    let fi = fv_float(fv)->0;
    let info = float_place_info(base, box_, fi, fc);
    &&& fv_is_float(fv)
    &&& wf_floats(fc)
    &&& box_vertical_ok(box_)
    &&& in_solve_range(base.position.size.width)
    &&& (box_ matches Some(b) ==> in_solve_range(b.position.size.width))
    &&& 0 <= info.width <= FLOAT_BOUND
    &&& 0 <= info.height <= FLOAT_BOUND
    &&& -FLOAT_BOUND <= info.max_width <= FLOAT_BOUND
}

pub open spec fn float_stack_ok(
    base: BaseV,
    box_: Option<BoxV>,
    margin_in_top: bool,
    screen: SizeV,
) -> bool
    decreases base, 11int,
{
    let kids2 = if base.num_floats > 0 {
        thread_kids(base.children, Seq::empty(), screen).0
    } else {
        base.children
    };
    let top_offset = match box_ {
        Some(b) => if margin_in_top {
            b.margin.top + b.border.top + b.padding.top
        } else {
            b.border.top + b.padding.top
        },
        None => 0,
    };
    &&& box_ is Some
    &&& box_vertical_ok(box_)
    &&& -4 * MAX_AU <= screen.height <= 4 * MAX_AU
    &&& (base.num_floats > 0 ==> thread_ok(base.children, Seq::empty(), screen))
    &&& stack_scan_ok(kids2, top_offset)
}

pub open spec fn row_height_ok(
    children: Seq<FlowV>,
    box_: Option<BoxV>,
    fci: FloatContextV,
    is_fixed: bool,
    inorder: bool,
    screen: SizeV,
) -> bool
    decreases children, 10int,
{
    let fc = ctx_floats(fci);
    let tk = if inorder {
        thread_kids(children, shift_floats(fc, PointV { x: 0, y: 0 }), screen)
    } else {
        (children, Seq::<PlacedFloatV>::empty())
    };
    let max_y = kids_height_max(tk.0);
    &&& box_vertical_ok(box_)
    &&& -4 * MAX_AU <= screen.height <= 4 * MAX_AU
    &&& (inorder ==> {
        &&& fci is Present
        &&& wf_floats(fc)
        &&& (forall|i: int|
            0 <= i < fc.len() ==> wf_float(shift_float(#[trigger] fc[i], PointV { x: 0, y: 0 })))
        &&& thread_ok(children, shift_floats(fc, PointV { x: 0, y: 0 }), screen)
        &&& wf_floats(tk.1)
    })
    &&& (forall|i: int|
        0 <= i < tk.0.len() ==> #[trigger] tk.0[i] is TableCell && in_solve_range(
            fv_base(tk.0[i]).position.size.height,
        ))
    &&& -4 * MAX_AU <= max_y <= 4 * MAX_AU
}

pub open spec fn height_inorder_ok(fv: FlowV, fc: Seq<PlacedFloatV>, screen: SizeV) -> bool
    decreases fv, 12int,
{
    if fv_is_float(fv) {
        float_inorder_ok(fv, fc)
    } else {
        match fv {
            FlowV::Block { box_, is_root, is_fixed, base, .. } => block_like_ok(
                base.children,
                box_,
                FloatContextV::Present(fc),
                is_root,
                is_fixed,
                false,
                true,
                screen,
            ),
            FlowV::TableWrapper { box_, base, .. } => block_like_ok(
                base.children,
                box_,
                FloatContextV::Present(fc),
                false,
                false,
                true,
                true,
                screen,
            ),
            FlowV::Table { box_, base, .. } => block_like_ok(
                base.children,
                box_,
                FloatContextV::Present(fc),
                false,
                false,
                false,
                true,
                screen,
            ),
            FlowV::TableRowGroup { box_, base, .. } => block_like_ok(
                base.children,
                box_,
                FloatContextV::Present(fc),
                false,
                false,
                false,
                true,
                screen,
            ),
            FlowV::TableRow { box_, is_fixed, base, .. } => row_height_ok(
                base.children,
                box_,
                FloatContextV::Present(fc),
                is_fixed,
                true,
                screen,
            ),
            FlowV::TableCell { box_, base } => block_like_ok(
                base.children,
                box_,
                FloatContextV::Present(fc),
                false,
                false,
                false,
                true,
                screen,
            ),
            FlowV::TableColGroup { .. } => true,
        }
    }
}

pub open spec fn height_ok(fv: FlowV, screen: SizeV) -> bool
    decreases fv, 13int,
{
    if fv_is_float(fv) {
        match fv {
            FlowV::Block { box_, base, .. } => float_stack_ok(base, box_, false, screen),
            FlowV::TableWrapper { box_, base, .. } => float_stack_ok(base, box_, true, screen),
            FlowV::TableRow { box_, base, .. } => float_stack_ok(base, box_, true, screen),
            _ => false,
        }
    } else {
        match fv {
            FlowV::Block { box_, is_root, is_fixed, base, .. } => {
                if is_root && base.num_floats > 0 {
                    &&& base.floats_in is Present
                    &&& height_inorder_ok(fv, ctx_floats(base.floats_in), screen)
                } else {
                    block_like_ok(
                        base.children,
                        box_,
                        base.floats_in,
                        is_root,
                        is_fixed,
                        false,
                        false,
                        screen,
                    )
                }
            },
            FlowV::TableWrapper { box_, base, .. } => block_like_ok(
                base.children,
                box_,
                base.floats_in,
                false,
                false,
                true,
                false,
                screen,
            ),
            FlowV::Table { box_, base, .. } => block_like_ok(
                base.children,
                box_,
                base.floats_in,
                false,
                false,
                false,
                false,
                screen,
            ),
            FlowV::TableRowGroup { box_, base, .. } => block_like_ok(
                base.children,
                box_,
                base.floats_in,
                false,
                false,
                false,
                false,
                screen,
            ),
            FlowV::TableRow { box_, is_fixed, base, .. } => row_height_ok(
                base.children,
                box_,
                base.floats_in,
                is_fixed,
                false,
                screen,
            ),
            FlowV::TableCell { box_, base } => block_like_ok(
                base.children,
                box_,
                base.floats_in,
                false,
                false,
                false,
                false,
                screen,
            ),
            FlowV::TableColGroup { .. } => true,
        }
    }
}

/// `block_like_height` and its acceptance read nothing of the stored
/// incoming float context: it arrives as a parameter.
#[verifier::rlimit(100)]
proof fn lemma_block_like_congruent(
    base: BaseV,
    fci0: FloatContextV,
    box_: Option<BoxV>,
    fci: FloatContextV,
    is_root: bool,
    is_fixed: bool,
    wrapper_style: bool,
    inorder: bool,
    screen: SizeV,
)
    ensures
        block_like_height(
            BaseV { floats_in: fci0, ..base },
            box_,
            fci,
            is_root,
            is_fixed,
            wrapper_style,
            inorder,
            screen,
        ) == block_like_height(base, box_, fci, is_root, is_fixed, wrapper_style, inorder, screen),
{
}

/// The same for the row's height step.
#[verifier::rlimit(100)]
proof fn lemma_row_congruent(
    base: BaseV,
    fci0: FloatContextV,
    box_: Option<BoxV>,
    fci: FloatContextV,
    is_fixed: bool,
    inorder: bool,
    screen: SizeV,
)
    ensures
        row_height_model(BaseV { floats_in: fci0, ..base }, box_, fci, is_fixed, inorder, screen)
            == row_height_model(base, box_, fci, is_fixed, inorder, screen),
{
}

/// The in-order step neither reads nor minds the stored incoming float
/// context: setting the field first (as the parent's walk does) changes
/// neither the result nor the acceptance.
#[verifier::rlimit(100)]
pub proof fn lemma_inorder_floats_in_irrelevant(
    fv: FlowV,
    fci: FloatContextV,
    fc: Seq<PlacedFloatV>,
    screen: SizeV,
)
    ensures
        height_inorder_model(
            fv_with_base(fv, BaseV { floats_in: fci, ..fv_base(fv) }),
            fc,
            screen,
        ) == height_inorder_model(fv, fc, screen),
        height_inorder_ok(fv_with_base(fv, BaseV { floats_in: fci, ..fv_base(fv) }), fc, screen)
            == height_inorder_ok(fv, fc, screen),
{
    let fv2 = fv_with_base(fv, BaseV { floats_in: fci, ..fv_base(fv) });
    assert(fv_is_float(fv2) == fv_is_float(fv)) by {
        match fv {
            FlowV::Block { .. } => {},
            FlowV::TableWrapper { .. } => {},
            FlowV::Table { .. } => {},
            FlowV::TableRowGroup { .. } => {},
            FlowV::TableRow { .. } => {},
            FlowV::TableCell { .. } => {},
            FlowV::TableColGroup { .. } => {},
        }
    }
    if fv_is_float(fv) {
        match fv {
            FlowV::Block { .. } => {
                assert(float_inorder_model(fv2, fc) == float_inorder_model(fv, fc));
                assert(float_inorder_ok(fv2, fc) == float_inorder_ok(fv, fc));
                assert(height_inorder_model(fv2, fc, screen) == height_inorder_model(
                    fv,
                    fc,
                    screen,
                ));
            },
            FlowV::TableWrapper { .. } => {
                assert(float_inorder_model(fv2, fc) == float_inorder_model(fv, fc));
                assert(float_inorder_ok(fv2, fc) == float_inorder_ok(fv, fc));
                assert(height_inorder_model(fv2, fc, screen) == height_inorder_model(
                    fv,
                    fc,
                    screen,
                ));
            },
            FlowV::TableRow { .. } => {
                assert(float_inorder_model(fv2, fc) == float_inorder_model(fv, fc));
                assert(float_inorder_ok(fv2, fc) == float_inorder_ok(fv, fc));
                assert(height_inorder_model(fv2, fc, screen) == height_inorder_model(
                    fv,
                    fc,
                    screen,
                ));
            },
            _ => {},
        }
    } else {
        match fv {
            FlowV::Block { box_, is_root, is_fixed, base, .. } => {
                lemma_block_like_congruent(
                    base,
                    fci,
                    box_,
                    FloatContextV::Present(fc),
                    is_root,
                    is_fixed,
                    false,
                    true,
                    screen,
                );
            },
            FlowV::TableWrapper { box_, base, .. } => {
                lemma_block_like_congruent(
                    base,
                    fci,
                    box_,
                    FloatContextV::Present(fc),
                    false,
                    false,
                    true,
                    true,
                    screen,
                );
            },
            FlowV::Table { box_, base, .. } => {
                lemma_block_like_congruent(
                    base,
                    fci,
                    box_,
                    FloatContextV::Present(fc),
                    false,
                    false,
                    false,
                    true,
                    screen,
                );
            },
            FlowV::TableRowGroup { box_, base, .. } => {
                lemma_block_like_congruent(
                    base,
                    fci,
                    box_,
                    FloatContextV::Present(fc),
                    false,
                    false,
                    false,
                    true,
                    screen,
                );
            },
            FlowV::TableRow { box_, is_fixed, base, .. } => {
                lemma_row_congruent(
                    base,
                    fci,
                    box_,
                    FloatContextV::Present(fc),
                    is_fixed,
                    true,
                    screen,
                );
            },
            FlowV::TableCell { box_, base } => {
                lemma_block_like_congruent(
                    base,
                    fci,
                    box_,
                    FloatContextV::Present(fc),
                    false,
                    false,
                    false,
                    true,
                    screen,
                );
            },
            FlowV::TableColGroup { .. } => {},
        }
    }
}

/// One node of the ordinary post-order height pass: a floated flow runs
/// its own stacking pass; the root upgrades to the in-order variant when
/// floats are present; everything else runs its block-like or row step
/// without float threading.
pub open spec fn height_model(fv: FlowV, screen: SizeV) -> FlowV
    decreases fv, 13int,
{
    if fv_is_float(fv) {
        match fv {
            FlowV::Block { box_, is_root, is_fixed, float, base } => {
                let t = float_stack_model(base, box_, false, screen);
                FlowV::Block { box_: t.1, is_root, is_fixed, float, base: t.0 }
            },
            FlowV::TableWrapper { box_, float, col_widths, is_fixed_layout, base } => {
                let t = float_stack_model(base, box_, true, screen);
                FlowV::TableWrapper {
                    box_: t.1,
                    float,
                    col_widths,
                    is_fixed_layout,
                    base: t.0,
                }
            },
            FlowV::TableRow {
                box_,
                is_fixed,
                float,
                col_widths,
                col_min_widths,
                col_pref_widths,
                base,
            } => {
                let t = float_stack_model(base, box_, true, screen);
                FlowV::TableRow {
                    box_: t.1,
                    is_fixed,
                    float,
                    col_widths,
                    col_min_widths,
                    col_pref_widths,
                    base: t.0,
                }
            },
            _ => fv,
        }
    } else {
        match fv {
            FlowV::Block { box_, is_root, is_fixed, float, base } => {
                if is_root && base.num_floats > 0 {
                    height_inorder_model(fv, ctx_floats(base.floats_in), screen)
                } else {
                    let t = block_like_height(
                        base,
                        box_,
                        base.floats_in,
                        is_root,
                        is_fixed,
                        false,
                        false,
                        screen,
                    );
                    FlowV::Block { box_: t.1, is_root, is_fixed, float, base: t.0 }
                }
            },
            FlowV::TableWrapper { box_, float, col_widths, is_fixed_layout, base } => {
                let t = block_like_height(
                    base,
                    box_,
                    base.floats_in,
                    false,
                    false,
                    true,
                    false,
                    screen,
                );
                FlowV::TableWrapper {
                    box_: t.1,
                    float,
                    col_widths,
                    is_fixed_layout,
                    base: t.0,
                }
            },
            FlowV::Table { box_, col_widths, cell_min_widths, base } => {
                let t = block_like_height(
                    base,
                    box_,
                    base.floats_in,
                    false,
                    false,
                    false,
                    false,
                    screen,
                );
                FlowV::Table { box_: t.1, col_widths, cell_min_widths, base: t.0 }
            },
            FlowV::TableRowGroup { box_, col_widths, base } => {
                let t = block_like_height(
                    base,
                    box_,
                    base.floats_in,
                    false,
                    false,
                    false,
                    false,
                    screen,
                );
                FlowV::TableRowGroup { box_: t.1, col_widths, base: t.0 }
            },
            FlowV::TableRow {
                box_,
                is_fixed,
                float,
                col_widths,
                col_min_widths,
                col_pref_widths,
                base,
            } => {
                let t = row_height_model(base, box_, base.floats_in, is_fixed, false, screen);
                FlowV::TableRow {
                    box_: t.1,
                    is_fixed,
                    float,
                    col_widths,
                    col_min_widths,
                    col_pref_widths,
                    base: t.0,
                }
            },
            FlowV::TableCell { box_, base } => {
                let t = block_like_height(
                    base,
                    box_,
                    base.floats_in,
                    false,
                    false,
                    false,
                    false,
                    screen,
                );
                FlowV::TableCell { box_: t.1, base: t.0 }
            },
            FlowV::TableColGroup { .. } => fv,
        }
    }
}

// ---------------------------------------------------------------------
// Executable pieces: per-child collapse, child placement, threading.
// ---------------------------------------------------------------------
/// Writes one child's vertical position.
#[verifier::rlimit(100)]
fn set_child_y(kid: &mut Flow, y: Au)
    ensures
        flow_view(*final(kid)) == fv_with_base(
            flow_view(*old(kid)),
            BaseV {
                position: RectV {
                    origin: PointV {
                        x: fv_base(flow_view(*old(kid))).position.origin.x,
                        y: y@,
                    },
                    size: fv_base(flow_view(*old(kid))).position.size,
                },
                ..fv_base(flow_view(*old(kid)))
            },
        ),
{
    let ghost kid0 = *old(kid);
    proof {
        lemma_fv_base(kid0);
    }
    let kb = kid.base_mut();
    kb.position.origin.y = y;
    proof {
        lemma_view_with_base(kid0, spec_base(*kid));
        lemma_fv_base(kid0);
    }
}

/// Hands one child the float context it inherits.
#[verifier::rlimit(100)]
fn set_kid_floats_in(kid: &mut Flow, fc: FloatContext)
    ensures
        flow_view(*final(kid)) == fv_with_base(
            flow_view(*old(kid)),
            BaseV { floats_in: fc@, ..fv_base(flow_view(*old(kid))) },
        ),
{
    let ghost kid0 = *old(kid);
    proof {
        lemma_fv_base(kid0);
    }
    let kb = kid.base_mut();
    kb.floats_in = fc;
    proof {
        lemma_view_with_base(kid0, spec_base(*kid));
        lemma_fv_base(kid0);
    }
}

impl Flow {
    /// One child's part in the parent's margin-collapse walk, per
    /// CSS 2.1 § 8.3.1: margins around a floated flow do not collapse;
    /// a collapsible parent slides down to its first in-flow child's
    /// larger top margin; adjoining vertical margins collapse to the
    /// smaller adjustment.
    pub fn collapse_margins(
        &self,
        top_margin_collapsible: bool,
        first_in_flow: &mut bool,
        margin_top: &mut Au,
        top_offset: &mut Au,
        collapsing: &mut Au,
        collapsible: &mut Au,
    )
        requires
            in_solve_range(old(margin_top)@),
            in_solve_range(old(top_offset)@),
            in_solve_range(old(collapsible)@),
            fv_box(flow_view(*self)) matches Some(b) ==> in_solve_range(b.margin.top)
                && in_solve_range(b.margin.bottom),
        ensures
            ({
                let st = collapse_step(
                    flow_view(*self),
                    top_margin_collapsible,
                    CollapseSt {
                        first: *old(first_in_flow),
                        margin_top: old(margin_top)@,
                        top_offset: old(top_offset)@,
                        collapsing: old(collapsing)@,
                        collapsible: old(collapsible)@,
                    },
                );
                &&& *final(first_in_flow) == st.first
                &&& final(margin_top)@ == st.margin_top
                &&& final(top_offset)@ == st.top_offset
                &&& final(collapsing)@ == st.collapsing
                &&& final(collapsible)@ == st.collapsible
            }),
    {
        let ghost fv = flow_view(*self);
        let is_floated = match self {
            Flow::Block(b) => b.float.is_some(),
            Flow::TableWrapper(w) => w.float.is_some(),
            Flow::TableRow(r) => r.float.is_some(),
            _ => false,
        };
        proof {
            match self {
                Flow::Block(_) => {},
                Flow::TableWrapper(_) => {},
                Flow::Table(_) => {},
                Flow::TableRowGroup(_) => {},
                Flow::TableRow(_) => {},
                Flow::TableCell(_) => {},
                Flow::TableColGroup(_) => {},
            }
            assert(is_floated == fv_is_float(fv));
        }
        if is_floated {
            // Margins between a floated box and any other box do not
            // collapse.
            *collapsing = Au(0);
            return ;
        }
        let box_ref: Option<&LayoutBox> = match self {
            Flow::Block(b) => b.box_.as_ref(),
            Flow::TableWrapper(w) => w.box_.as_ref(),
            Flow::Table(t) => t.box_.as_ref(),
            Flow::TableRowGroup(g) => g.box_.as_ref(),
            Flow::TableRow(r) => r.box_.as_ref(),
            Flow::TableCell(c) => c.box_.as_ref(),
            Flow::TableColGroup(_) => None,
        };
        proof {
            match self {
                Flow::Block(_) => {},
                Flow::TableWrapper(_) => {},
                Flow::Table(_) => {},
                Flow::TableRowGroup(_) => {},
                Flow::TableRow(_) => {},
                Flow::TableCell(_) => {},
                Flow::TableColGroup(_) => {},
            }
            assert(match box_ref {
                Some(b) => fv_box(fv) == Some(b@),
                None => fv_box(fv) is None,
            });
        }
        match box_ref {
            Some(bx) => {
                // The top margin collapses with the first in-flow
                // child's top margin if the parent has no top border and
                // no top padding; the parent box goes down until its top
                // is aligned with the child's.
                if *first_in_flow && top_margin_collapsible {
                    if margin_top.0 < bx.margin.top.0 {
                        let extra_margin = bx.margin.top.0 - margin_top.0;
                        *top_offset = Au(top_offset.0 + extra_margin);
                        *margin_top = bx.margin.top;
                    }
                }
                // The bottom margin of an in-flow block-level element
                // collapses with the top margin of its next in-flow
                // sibling.
                *collapsing = bx.margin.top.min(*collapsible);
                *collapsible = bx.margin.bottom;
            },
            None => {},
        }
        *first_in_flow = false;
    }
}

/// The parent's walk over its children: collapse against each child in
/// order and place it at the running y.
#[verifier::rlimit(100)]
pub fn collapse_children_loop(
    children: &mut Vec<Flow>,
    cur_y: &mut Au,
    top_offset: &mut Au,
    margin_top: &mut Au,
    collapsible: &mut Au,
    top_collapsible: bool,
)
    requires
        collapse_scan_ok(
            kids_seq_view(old(children)@),
            top_collapsible,
            CollapseSt {
                first: true,
                margin_top: old(margin_top)@,
                top_offset: old(top_offset)@,
                collapsing: 0,
                collapsible: old(collapsible)@,
            },
            old(cur_y)@,
        ),
    ensures
        ({
            let sc = collapse_scan(
                kids_seq_view(old(children)@),
                top_collapsible,
                CollapseSt {
                    first: true,
                    margin_top: old(margin_top)@,
                    top_offset: old(top_offset)@,
                    collapsing: 0,
                    collapsible: old(collapsible)@,
                },
                old(cur_y)@,
            );
            &&& final(children)@.len() == old(children)@.len()
            &&& kids_seq_view(final(children)@) == sc.0
            &&& final(margin_top)@ == sc.1.margin_top
            &&& final(top_offset)@ == sc.1.top_offset
            &&& final(collapsible)@ == sc.1.collapsible
            &&& final(cur_y)@ == sc.2
        }),
{
    let ghost kids0 = kids_seq_view(old(children)@);
    let ghost st0 = CollapseSt {
        first: true,
        margin_top: old(margin_top)@,
        top_offset: old(top_offset)@,
        collapsing: 0,
        collapsible: old(collapsible)@,
    };
    let ghost y0 = old(cur_y)@;
    proof {
        lemma_kids_seq_view(old(children)@);
        assert(kids0.subrange(0, 0) =~= Seq::<FlowV>::empty());
        lemma_collapse_scan_ok_prefix(kids0, top_collapsible, st0, y0, 0);
    }
    let mut first_in_flow = true;
    let mut collapsing = Au(0);
    let n = children.len();
    let mut i: usize = 0;
    while i < n
        invariant
            0 <= i <= n,
            n == old(children)@.len(),
            children@.len() == n,
            kids0 == kids_seq_view(old(children)@),
            kids0.len() == n,
            st0 == (CollapseSt {
                first: true,
                margin_top: old(margin_top)@,
                top_offset: old(top_offset)@,
                collapsing: 0,
                collapsible: old(collapsible)@,
            }),
            y0 == old(cur_y)@,
            collapse_scan_ok(kids0, top_collapsible, st0, y0),
            ({
                let t = collapse_scan(kids0.subrange(0, i as int), top_collapsible, st0, y0);
                &&& first_in_flow == t.1.first
                &&& margin_top@ == t.1.margin_top
                &&& top_offset@ == t.1.top_offset
                &&& collapsing@ == t.1.collapsing
                &&& collapsible@ == t.1.collapsible
                &&& cur_y@ == t.2
            }),
            in_solve_range(margin_top@),
            in_solve_range(top_offset@),
            in_solve_range(collapsing@),
            in_solve_range(collapsible@),
            in_solve_range(cur_y@),
            forall|j: int|
                0 <= j < i ==> flow_view(#[trigger] children@[j]) == collapse_scan(
                    kids0,
                    top_collapsible,
                    st0,
                    y0,
                ).0[j],
            forall|j: int| i <= j < n ==> #[trigger] children@[j] == old(children)@[j],
        decreases n - i,
    {
        proof {
            lemma_kids_seq_view(old(children)@);
            assert(kids0[i as int] == flow_view(old(children)@[i as int]));
            lemma_collapse_scan_ok_prefix(kids0, top_collapsible, st0, y0, i + 1);
            assert(kids0.subrange(0, i + 1).drop_last() =~= kids0.subrange(0, i as int));
            assert(kids0.subrange(0, i + 1).last() == kids0[i as int]);
            lemma_collapse_scan_index(kids0.subrange(0, i as int), top_collapsible, st0, y0);
            lemma_collapse_scan_index(kids0.subrange(0, i + 1), top_collapsible, st0, y0);
        }
        let kid = &children[i];
        proof {
            assert(*kid == old(children)@[i as int]);
        }
        kid.collapse_margins(
            top_collapsible,
            &mut first_in_flow,
            margin_top,
            top_offset,
            &mut collapsing,
            collapsible,
        );
        *cur_y = Au(cur_y.0 - collapsing.0);
        let kid_mut = &mut children[i];
        set_child_y(kid_mut, *cur_y);
        let kid_h = children[i].base().position.size.height;
        *cur_y = Au(cur_y.0 + kid_h.0);
        proof {
            assert(flow_view(children@[i as int]) == collapse_scan(
                kids0,
                top_collapsible,
                st0,
                y0,
            ).0[i as int]) by {
                lemma_collapse_scan_index(kids0, top_collapsible, st0, y0);
            }
        }
        i = i + 1;
    }
    proof {
        lemma_kids_seq_view(children@);
        assert(kids0.subrange(0, n as int) =~= kids0);
        lemma_collapse_scan_index(kids0, top_collapsible, st0, y0);
        assert(kids_seq_view(children@) =~= collapse_scan(kids0, top_collapsible, st0, y0).0);
    }
}

/// The placed children are the children placed, one for one, and a
/// prefix's state is the walk's state after that prefix.
pub proof fn lemma_collapse_scan_index(
    kids: Seq<FlowV>,
    top_collapsible: bool,
    st0: CollapseSt,
    cur_y0: int,
)
    ensures
        collapse_scan(kids, top_collapsible, st0, cur_y0).0.len() == kids.len(),
        forall|i: int|
            0 <= i < kids.len() ==> collapse_scan(kids, top_collapsible, st0, cur_y0).0[i]
                == collapse_scan(kids.subrange(0, i + 1), top_collapsible, st0, cur_y0).0[i],
    decreases kids.len(),
{
    if kids.len() > 0 {
        lemma_collapse_scan_index(kids.drop_last(), top_collapsible, st0, cur_y0);
        assert(forall|i: int| 0 <= i < kids.len() - 1 ==> kids.drop_last()[i] == kids[i]);
        assert(kids.last() == kids[kids.len() - 1]);
        assert(kids.subrange(0, kids.len() as int) =~= kids);
        assert forall|i: int| #![trigger kids.subrange(0, i + 1)] 0 <= i < kids.len() - 1 implies kids.drop_last().subrange(
            0,
            i + 1,
        ) =~= kids.subrange(0, i + 1) by {}
    }
}

} // verus!
