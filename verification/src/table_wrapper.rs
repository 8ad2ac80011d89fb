//! The anonymous wrapper introduced around a `display: table` element;
//! it owns the column widths distributed to its descendants.

use vstd::prelude::*;

use crate::block::FloatedBlockInfo;
use crate::box_model::BoxV;
use crate::box_model::LayoutBox;
use crate::box_model::box_intrinsic_width;
use crate::box_model::lemma_box_intrinsic_bounds;
use crate::box_model::style_border;
use crate::flow::BaseFlow;
use crate::flow::BaseV;
use crate::flow::Flow;
use crate::flow::FlowV;
use crate::flow::au_seq;
use crate::flow::flow_view;
use crate::flow::fv_base;
use crate::flow::fv_box;
use crate::flow::kids_seq_view;
use crate::flow::kids_stats_ok;
use crate::flow::lemma_fv_base;
use crate::flow::lemma_kids_seq_view;
use crate::flow::lemma_kids_stats;
use crate::flow::merge_zero;
use crate::flow::merge_zero_cols;
use crate::flow::pad_zero_cols;
use crate::flow::pad_zeros;
use crate::flow::push_all_au;
use crate::flow::wrapper_view;
use crate::flow::FlagsInfo;
use crate::flow::FloatInfoV;
use crate::flow::LayoutContext;
use crate::flow::has_inorder_spec;
use crate::flow::in_solve_range;
use crate::flow::lemma_view_variant;
use crate::flow::prop_child_update;
use crate::flow::copy_aus;
use crate::flow::base_view;
use crate::flow::block_float_view;
use crate::flow::build_display_list_base;
use crate::flow::dl_extra;
use crate::flow::dlist_model;
use crate::flow::dlist_ok;
use crate::flow::opt_box_view;
use crate::float_context::FloatContextV;
use crate::geometry::OffsetsV;
use crate::geometry::Point2D;
use crate::geometry::PointV;
use crate::geometry::Rect;
use crate::geometry::RectV;
use crate::geometry::Size2D;
use crate::geometry::SizeV;
use crate::geometry::SideOffsets2D;
use crate::geometry::div_trunc;
use crate::horizontal::box_widths_model;
use crate::model::specified_or;
use crate::geometry::Au;
use crate::geometry::MAX_AU;
use crate::geometry::max_int;
use crate::horizontal::SOLVE_LIMIT;
use crate::horizontal::css_margins;
use crate::horizontal::css_margins_spec;
use crate::horizontal::float_margins;
use crate::horizontal::float_margins_spec;
use crate::horizontal::horiz_solve;
use crate::horizontal::horiz_spec;
use crate::model::MaybeAuto;
use crate::model::from_style_spec;
use crate::model::specified_or_none_spec;
use crate::model::specified_spec;
use crate::style::TableLayout;
use crate::style::wf_style;

verus! {

/// One left-to-right scan of the wrapper's children: column groups
/// append their declared widths; the inner table may (under fixed
/// layout) donate widths for columns still zero and pads the column
/// list with zeros up to its own column count; every other child feeds
/// the usual intrinsic-width maxima. Returns (columns, min, pref).
pub open spec fn wrapper_scan(kids: Seq<FlowV>, init_cols: Seq<int>, fixed: bool) -> (
    Seq<int>,
    int,
    int,
)
    decreases kids.len(),
{
    if kids.len() == 0 {
        (init_cols, 0, 0)
    } else {
        let t = wrapper_scan(kids.drop_last(), init_cols, fixed);
        match kids.last() {
            FlowV::TableColGroup { min_widths, .. } => (t.0 + min_widths, t.1, t.2),
            FlowV::Table { col_widths, cell_min_widths, .. } => {
                let m = if fixed {
                    merge_zero(t.0, col_widths)
                } else {
                    t.0
                };
                (pad_zeros(m, cell_min_widths.len() as int), t.1, t.2)
            },
            other => (
                t.0,
                max_int(t.1, fv_base(other).min_width),
                max_int(t.2, fv_base(other).pref_width),
            ),
        }
    }
}

/// What the bottom-up width pass computes for a table wrapper: columns
/// collected from column groups and the inner table, intrinsic widths
/// from the remaining children plus the box's own contribution.
pub open spec fn wrapper_bubble_model(fv: FlowV) -> FlowV
    recommends
        fv is TableWrapper,
{
    match fv {
        FlowV::TableWrapper { box_, float, col_widths, is_fixed_layout, base } => {
            let t = wrapper_scan(base.children, col_widths, is_fixed_layout);
            let new_box = match box_ {
                Some(b) => Some(BoxV { border: style_border(b.style), ..b }),
                None => None,
            };
            let intrinsic = match box_ {
                Some(b) => box_intrinsic_width(b.style),
                None => 0,
            };
            FlowV::TableWrapper {
                box_: new_box,
                float,
                col_widths: t.0,
                is_fixed_layout,
                base: BaseV {
                    min_width: t.1 + intrinsic,
                    pref_width: t.2 + intrinsic,
                    ..base
                },
            }
        },
        _ => fv,
    }
}

/// What the width pass needs of a wrapper node: bubbled children within
/// the global bound and a well-formed style.
pub open spec fn wrapper_bubble_ok(fv: FlowV) -> bool {
    &&& fv is TableWrapper
    &&& kids_stats_ok(fv_base(fv).children)
    &&& (fv_box(fv) matches Some(b) ==> wf_style(b.style))
}


/// How many columns still have no width, and the total width of those
/// that do.
pub open spec fn col_stats(cols: Seq<int>) -> (int, int)
    decreases cols.len(),
{
    if cols.len() == 0 {
        (0, 0)
    } else {
        let t = col_stats(cols.drop_last());
        if cols.last() == 0 {
            (t.0 + 1, t.1)
        } else {
            (t.0, t.1 + cols.last())
        }
    }
}

/// A prefix of nonnegative columns contributes no more than the whole.
pub proof fn lemma_col_stats_prefix(cols: Seq<int>, i: int)
    requires
        forall|t: int| 0 <= t < cols.len() ==> 0 <= #[trigger] cols[t],
        0 <= i <= cols.len(),
    ensures
        0 <= col_stats(cols.subrange(0, i)).0 <= i,
        0 <= col_stats(cols.subrange(0, i)).1 <= col_stats(cols).1,
    decreases cols.len() - i,
{
    assert(forall|t: int|
        0 <= t < cols.subrange(0, i).len() ==> 0 <= #[trigger] cols.subrange(0, i)[t]);
    lemma_col_stats_bounds(cols.subrange(0, i));
    if i == cols.len() {
        assert(cols.subrange(0, i) =~= cols);
    } else {
        assert(cols.subrange(0, i + 1).drop_last() =~= cols.subrange(0, i));
        assert(cols.subrange(0, i + 1).last() == cols[i]);
        lemma_col_stats_prefix(cols, i + 1);
    }
}

proof fn lemma_col_stats_bounds(cols: Seq<int>)
    requires
        forall|t: int| 0 <= t < cols.len() ==> 0 <= #[trigger] cols[t],
    ensures
        0 <= col_stats(cols).0 <= cols.len(),
        0 <= col_stats(cols).1,
    decreases cols.len(),
{
    if cols.len() > 0 {
        assert(forall|t: int| 0 <= t < cols.len() - 1 ==> cols.drop_last()[t] == cols[t]);
        lemma_col_stats_bounds(cols.drop_last());
        assert(cols.last() == cols[cols.len() - 1]);
    }
}

/// The used column widths: declared widths stay; columns without one
/// get the shared default.
pub open spec fn distribute_cols(cols: Seq<int>, default: int) -> Seq<int> {
    Seq::new(
        cols.len(),
        |i: int|
            if cols[i] == 0 {
                default
            } else {
                cols[i]
            },
    )
}

/// The inner table receives the distributed column widths; other
/// children pass through.
pub open spec fn wrapper_kid_fix(kid: FlowV, dcols: Seq<int>) -> FlowV {
    match kid {
        FlowV::Table { box_, cell_min_widths, base, .. } => FlowV::Table {
            box_,
            col_widths: dcols,
            cell_min_widths,
            base,
        },
        _ => kid,
    }
}

/// All children after the wrapper's width pass.
pub open spec fn wrapper_kids(
    kids: Seq<FlowV>,
    x: int,
    w: int,
    dcols: Seq<int>,
    flags: FlagsInfo,
    hi: bool,
) -> Seq<FlowV>
    decreases kids.len(),
{
    if kids.len() == 0 {
        Seq::empty()
    } else {
        wrapper_kids(kids.drop_last(), x, w, dcols, flags, hi).push(
            crate::flow::prop_child_update(
                wrapper_kid_fix(kids.last(), dcols),
                (x, w),
                None,
                flags,
                hi,
            ),
        )
    }
}

pub proof fn lemma_wrapper_kids_index(
    kids: Seq<FlowV>,
    x: int,
    w: int,
    dcols: Seq<int>,
    flags: FlagsInfo,
    hi: bool,
)
    ensures
        wrapper_kids(kids, x, w, dcols, flags, hi).len() == kids.len(),
        forall|i: int|
            0 <= i < kids.len() ==> wrapper_kids(kids, x, w, dcols, flags, hi)[i]
                == crate::flow::prop_child_update(
                wrapper_kid_fix(#[trigger] kids[i], dcols),
                (x, w),
                None,
                flags,
                hi,
            ),
    decreases kids.len(),
{
    if kids.len() > 0 {
        lemma_wrapper_kids_index(kids.drop_last(), x, w, dcols, flags, hi);
        assert(forall|i: int| 0 <= i < kids.len() - 1 ==> kids.drop_last()[i] == kids[i]);
        assert(kids.last() == kids[kids.len() - 1]);
    }
}

/// What the top-down width pass computes for the wrapper.
pub open spec fn wrapper_widths_model(fv: FlowV, screen: SizeV) -> FlowV
    recommends
        fv is TableWrapper,
{
    match fv {
        FlowV::TableWrapper { box_, float, col_widths, is_fixed_layout, base } => {
            let remaining0 = base.position.size.width;
            let step = crate::block::block_box_step(
                box_,
                base,
                false,
                float is Some,
                remaining0,
                base.flags_info,
                screen,
            );
            let box1 = step.0;
            let x_offset = step.1;
            let remaining1 = step.2;
            let flags2 = step.3;
            let st = col_stats(col_widths);
            let default = if st.0 > 0 {
                div_trunc(remaining1 - st.1, st.0)
            } else {
                0
            };
            let dcols = distribute_cols(col_widths, default);
            let hi = has_inorder_spec(float is Some, flags2.inorder, base.num_floats as int);
            let kids2 = wrapper_kids(base.children, x_offset, remaining1, dcols, flags2, hi);
            FlowV::TableWrapper {
                box_: box1,
                float,
                col_widths,
                is_fixed_layout,
                base: BaseV { flags_info: flags2, children: kids2, ..base },
            }
        },
        _ => fv,
    }
}

/// What the top-down width pass needs of a wrapper node.
pub open spec fn wrapper_widths_ok(fv: FlowV, screen: SizeV) -> bool {
    match fv {
        FlowV::TableWrapper { box_, float, col_widths, base, .. } => {
            &&& -4 * MAX_AU <= screen.width <= 4 * MAX_AU
            &&& -4 * MAX_AU <= base.position.size.width <= 4 * MAX_AU
            &&& (box_ matches Some(b) ==> wf_style(b.style) && 0 <= b.border.left <= MAX_AU && 0
                <= b.border.right <= MAX_AU)
            &&& -SOLVE_LIMIT <= base.min_width <= SOLVE_LIMIT
            &&& -SOLVE_LIMIT <= base.pref_width <= SOLVE_LIMIT
            &&& forall|t: int| 0 <= t < col_widths.len() ==> 0 <= #[trigger] col_widths[t] <= 4 * MAX_AU
            &&& col_stats(col_widths).1 <= SOLVE_LIMIT
            &&& col_widths.len() <= crate::geometry::MAX_COUNT
        },
        _ => false,
    }
}

/// The wrapper around a table formatting context.
pub struct TableWrapperFlow {
    /// Data common to all flows.
    pub base: BaseFlow,
    /// The associated box.
    pub box_: Option<LayoutBox>,
    /// Additional floating flow members.
    pub float: Option<FloatedBlockInfo>,
    /// Column widths: declared by column groups, then distributed over
    /// the remaining width during the width pass.
    pub col_widths: Vec<Au>,
    /// Derived once from `table-layout: fixed`.
    pub is_fixed_layout: bool,
}

impl TableWrapperFlow {
    pub fn new(base: BaseFlow) -> (r: TableWrapperFlow)
        ensures
            r.base == base,
            r.box_ is None,
            r.float is None,
            r.col_widths@ == Seq::<Au>::empty(),
            !r.is_fixed_layout,
    {
        TableWrapperFlow {
            base,
            box_: None,
            float: None,
            col_widths: Vec::new(),
            is_fixed_layout: false,
        }
    }

    pub fn from_box(base: BaseFlow, box_: LayoutBox) -> (r: TableWrapperFlow)
        ensures
            r.base == base,
            r.box_ == Some(box_),
            r.float is None,
            r.col_widths@ == Seq::<Au>::empty(),
            r.is_fixed_layout == (box_.style.table_layout == TableLayout::FixedLayout),
    {
        let is_fixed_layout = match box_.style.table_layout {
            TableLayout::FixedLayout => true,
            TableLayout::AutoLayout => false,
        };
        TableWrapperFlow { base, box_: Some(box_), float: None, col_widths: Vec::new(), is_fixed_layout }
    }

    pub fn is_float(&self) -> (r: bool)
        ensures
            r == (self.float is Some),
    {
        self.float.is_some()
    }

    /// Computes left and right margins and width based on CSS 2.1
    /// § 10.3.3. Requires borders and padding to already be computed.
    /// Returns (width, margin-left, margin-right).
    pub fn compute_horiz(
        &self,
        width: MaybeAuto,
        left_margin: MaybeAuto,
        right_margin: MaybeAuto,
        available_width: Au,
    ) -> (r: (Au, Au, Au))
        requires
            width@ matches Some(w) ==> -SOLVE_LIMIT <= w <= SOLVE_LIMIT,
            left_margin@ matches Some(m) ==> -SOLVE_LIMIT <= m <= SOLVE_LIMIT,
            right_margin@ matches Some(m) ==> -SOLVE_LIMIT <= m <= SOLVE_LIMIT,
            -SOLVE_LIMIT <= available_width@ <= SOLVE_LIMIT,
        ensures
            (r.0@, r.1@, r.2@) == horiz_spec(width@, left_margin@, right_margin@, available_width@),
            width@ matches Some(w) ==> r.0@ == w,
            (width@ is Some && left_margin@ is Some && right_margin@ is Some) ==> r.1@ + r.0@
                + r.2@ == available_width@,
    {
        horiz_solve(width, left_margin, right_margin, available_width)
    }

    /// The used width and margins of the wrapper per § 10.3.3, with the
    /// `max-width` and `min-width` clamps applied.
    pub fn compute_table_margins(&self, box_: &LayoutBox, remaining_width: Au, available_width: Au) -> (r: (
        Au,
        Au,
        Au,
    ))
        requires
            wf_style(box_.style),
            -4 * MAX_AU <= remaining_width@ <= 4 * MAX_AU,
            -SOLVE_LIMIT <= available_width@ <= SOLVE_LIMIT,
        ensures
            (r.0@, r.1@, r.2@) == css_margins_spec(box_.style, remaining_width@, available_width@),
            ({
                let mx = specified_or_none_spec(box_.style.max_width, remaining_width@);
                let mn = specified_spec(box_.style.min_width, remaining_width@);
                mx matches Some(m) && m < mn ==> r.0@ == mn
            }),
            (from_style_spec(box_.style.width, remaining_width@) is Some && from_style_spec(
                box_.style.margin_left,
                remaining_width@,
            ) is Some && from_style_spec(box_.style.margin_right, remaining_width@) is Some)
                ==> r.1@ + r.0@ + r.2@ == available_width@,
    {
        css_margins(&box_.style, remaining_width, available_width)
    }

    /// Shrink-to-fit sizing for a floated table: margins resolve to zero
    /// when `auto`; the width, unless specified, is
    /// `min(pref, max(min, remaining))`.
    pub fn compute_float_margins(&self, box_: &LayoutBox, remaining_width: Au) -> (r: (Au, Au, Au))
        requires
            wf_style(box_.style),
            -4 * MAX_AU <= remaining_width@ <= 4 * MAX_AU,
            -SOLVE_LIMIT <= self.base.min_width@ <= SOLVE_LIMIT,
            -SOLVE_LIMIT <= self.base.pref_width@ <= SOLVE_LIMIT,
        ensures
            (r.0@, r.1@, r.2@) == float_margins_spec(
                box_.style,
                self.base.min_width@,
                self.base.pref_width@,
                remaining_width@,
            ),
    {
        float_margins(&box_.style, self.base.min_width, self.base.pref_width, remaining_width)
    }

    /// Bottom-up intrinsic width computation for the wrapper: collects
    /// column widths from column groups and the inner table, takes
    /// intrinsic-width maxima over the other children, and adds the
    /// box's own contribution.
    #[verifier::rlimit(100)]
    pub fn bubble_widths(&mut self)
        requires
            wrapper_bubble_ok(wrapper_view(*old(self))),
        ensures
            wrapper_view(*final(self)) == wrapper_bubble_model(wrapper_view(*old(self))),
    {
        let ghost fv0 = wrapper_view(*old(self));
        let ghost kids = fv_base(fv0).children;
        let ghost init_cols = au_seq(old(self).col_widths@);
        let ghost fixed = old(self).is_fixed_layout;
        proof {
            lemma_fv_base(Flow::TableWrapper(*old(self)));
            lemma_kids_seq_view(old(self).base.children@);
            lemma_kids_stats(kids);
            assert(kids.subrange(0, 0) =~= Seq::<FlowV>::empty());
        }
        let mut min_width = Au(0);
        let mut pref_width = Au(0);
        let n = self.base.children.len();
        let mut i: usize = 0;
        while i < n
            invariant
                0 <= i <= n,
                n == old(self).base.children@.len(),
                self.base == old(self).base,
                self.box_ == old(self).box_,
                self.float == old(self).float,
                self.is_fixed_layout == old(self).is_fixed_layout,
                fv0 == wrapper_view(*old(self)),
                wrapper_bubble_ok(fv0),
                kids == fv_base(fv0).children,
                kids == kids_seq_view(old(self).base.children@),
                kids.len() == n,
                init_cols == au_seq(old(self).col_widths@),
                fixed == old(self).is_fixed_layout,
                ({
                    let t = wrapper_scan(kids.subrange(0, i as int), init_cols, fixed);
                    &&& au_seq(self.col_widths@) == t.0
                    &&& min_width@ == t.1
                    &&& pref_width@ == t.2
                }),
                0 <= min_width@ <= MAX_AU,
                0 <= pref_width@ <= MAX_AU,
            decreases n - i,
        {
            proof {
                lemma_kids_seq_view(old(self).base.children@);
                assert(kids[i as int] == flow_view(old(self).base.children@[i as int]));
                lemma_view_variant(old(self).base.children@[i as int]);
                assert(kids.subrange(0, i + 1).drop_last() =~= kids.subrange(0, i as int));
                assert(kids.subrange(0, i + 1).last() == kids[i as int]);
                assert(kids_stats_ok(kids) ==> (0 <= fv_base(kids[i as int]).min_width <= MAX_AU
                    && 0 <= fv_base(kids[i as int]).pref_width <= MAX_AU));
            }
            let child = &self.base.children[i];
            proof {
                lemma_fv_base(*child);
            }
            match child {
                Flow::TableColGroup(g) => {
                    push_all_au(&mut self.col_widths, &g.min_widths);
                },
                Flow::Table(t) => {
                    if self.is_fixed_layout {
                        merge_zero_cols(&mut self.col_widths, &t.col_widths);
                    }
                    let num_child_cells = t.cell_min_widths.len();
                    pad_zero_cols(&mut self.col_widths, num_child_cells);
                },
                _ => {
                    let child_base = child.base();
                    min_width = min_width.max(child_base.min_width);
                    pref_width = pref_width.max(child_base.pref_width);
                },
            }
            i = i + 1;
        }
        proof {
            assert(kids.subrange(0, n as int) =~= kids);
        }
        match &mut self.box_ {
            Some(bx) => {
                bx.compute_borders_if_necessary();
                let (this_min, this_pref) = bx.minimum_and_preferred_widths();
                proof {
                    lemma_box_intrinsic_bounds(bx.style);
                }
                min_width = min_width.add(this_min);
                pref_width = pref_width.add(this_pref);
            },
            None => {},
        }
        self.base.min_width = min_width;
        self.base.pref_width = pref_width;
        proof {
            lemma_fv_base(Flow::TableWrapper(*self));
            assert(kids_seq_view(self.base.children@) == kids);
            assert(wrapper_view(*self) == wrapper_bubble_model(fv0));
        }
    }

    /// Top-down width assignment for the wrapper: size the box like a
    /// block (shrink-to-fit when floated), then distribute the remaining
    /// width over the columns — declared widths stay, columns without
    /// one share what is left evenly — and hand the result to the inner
    /// table. Children consume the full remaining width.
    #[verifier::rlimit(100)]
    pub fn assign_widths(&mut self, ctx: &LayoutContext)
        requires
            wrapper_widths_ok(wrapper_view(*old(self)), ctx.screen_size@),
        ensures
            wrapper_view(*final(self)) == wrapper_widths_model(
                wrapper_view(*old(self)),
                ctx.screen_size@,
            ),
    {
        let ghost fv0 = wrapper_view(*old(self));
        let ghost screen = ctx.screen_size@;
        let ghost colsv = au_seq(old(self).col_widths@);
        let ghost step0 = crate::block::block_box_step(
            crate::flow::opt_box_view(old(self).box_),
            fv_base(fv0),
            false,
            old(self).float is Some,
            old(self).base.position.size.width@,
            old(self).base.flags_info,
            ctx.screen_size@,
        );
        proof {
            lemma_fv_base(Flow::TableWrapper(*old(self)));
        }
        let mut remaining_width = self.base.position.size.width;
        let mut x_offset = Au(0);
        let is_float = self.float.is_some();
        let min_width = self.base.min_width;
        let pref_width = self.base.pref_width;
        match &mut self.box_ {
            Some(bx) => {
                // The text alignment of the wrapper is the text
                // alignment of its box's style.
                self.base.flags_info.set_text_align(bx.style.text_align);
                let width = crate::block::BlockFlow::compute_padding_and_margin_if_exists(
                    bx,
                    min_width,
                    pref_width,
                    is_float,
                    remaining_width,
                );
                x_offset = Au(bx.margin.left.0 + bx.border.left.0 + bx.padding.left.0);
                remaining_width = width;
                // The associated box is the border box of this flow.
                bx.position.origin.x = bx.margin.left;
                let padding_and_borders = Au(
                    bx.padding.left.0 + bx.padding.right.0 + bx.border.left.0 + bx.border.right.0,
                );
                bx.position.size.width = Au(remaining_width.0 + padding_and_borders.0);
            },
            None => {},
        }
        // Partition the columns into fixed and flexible and share the
        // remaining width among the flexible ones.
        let mut no_width_cnt: i64 = 0;
        let mut fix_cell_width: i64 = 0;
        let ncols = self.col_widths.len();
        let mut i: usize = 0;
        proof {
            assert(colsv.subrange(0, 0) =~= Seq::<int>::empty());
        }
        while i < ncols
            invariant
                0 <= i <= ncols,
                ncols == colsv.len(),
                colsv == au_seq(self.col_widths@),
                self.col_widths@.len() == ncols,
                forall|t: int| 0 <= t < colsv.len() ==> 0 <= #[trigger] colsv[t] <= 4 * MAX_AU,
                col_stats(colsv).1 <= SOLVE_LIMIT,
                colsv.len() <= crate::geometry::MAX_COUNT,
                (no_width_cnt as int, fix_cell_width as int) == col_stats(
                    colsv.subrange(0, i as int),
                ),
                0 <= no_width_cnt <= i,
                0 <= fix_cell_width <= SOLVE_LIMIT,
            decreases ncols - i,
        {
            proof {
                assert(colsv.subrange(0, i + 1).drop_last() =~= colsv.subrange(0, i as int));
                assert(colsv.subrange(0, i + 1).last() == colsv[i as int]);
                lemma_col_stats_prefix(colsv, i + 1);
            }
            if self.col_widths[i].0 == 0 {
                no_width_cnt = no_width_cnt + 1;
            } else {
                fix_cell_width = fix_cell_width + self.col_widths[i].0;
            }
            i = i + 1;
        }
        proof {
            assert(colsv.subrange(0, ncols as int) =~= colsv);
        }
        let default_cell_width = if no_width_cnt > 0 {
            Au(remaining_width.0 - fix_cell_width).div_by(Au(no_width_cnt))
        } else {
            Au(0)
        };
        let mut dcols: Vec<Au> = Vec::new();
        let mut k: usize = 0;
        while k < ncols
            invariant
                0 <= k <= ncols,
                ncols == colsv.len(),
                colsv == au_seq(self.col_widths@),
                self.col_widths@.len() == ncols,
                au_seq(dcols@) =~= distribute_cols(colsv, default_cell_width@).subrange(
                    0,
                    k as int,
                ),
            decreases ncols - k,
        {
            let v = self.col_widths[k];
            let ghost dprev = dcols@;
            if v.0 == 0 {
                dcols.push(default_cell_width);
                proof {
                    crate::flow::lemma_au_seq_push(dprev, default_cell_width);
                }
            } else {
                dcols.push(v);
                proof {
                    crate::flow::lemma_au_seq_push(dprev, v);
                }
            }
            proof {
                assert(au_seq(dcols@) =~= distribute_cols(colsv, default_cell_width@).subrange(
                    0,
                    k + 1,
                ));
            }
            k = k + 1;
        }
        proof {
            assert(distribute_cols(colsv, default_cell_width@).subrange(0, ncols as int)
                =~= distribute_cols(colsv, default_cell_width@));
        }
        let has_inorder_children = if is_float {
            self.base.num_floats > 0
        } else {
            self.base.flags_info.inorder() || self.base.num_floats > 0
        };
        let flags_info = self.base.flags_info;
        let ghost kids0 = kids_seq_view(old(self).base.children@);
        let ghost dcolsv = au_seq(dcols@);
        let ghost mid = *self;
        proof {
            lemma_kids_seq_view(old(self).base.children@);
        }
        let n = self.base.children.len();
        let mut j: usize = 0;
        while j < n
            invariant
                0 <= j <= n,
                n == old(self).base.children@.len(),
                self.base.children@.len() == n,
                self.box_ == mid.box_,
                self.float == mid.float,
                self.col_widths == mid.col_widths,
                self.is_fixed_layout == mid.is_fixed_layout,
                self.base == (BaseFlow { children: self.base.children, ..mid.base }),
                mid.base.children == old(self).base.children,
                kids0 == kids_seq_view(old(self).base.children@),
                kids0.len() == n,
                dcolsv == au_seq(dcols@),
                forall|t: int|
                    0 <= t < j ==> flow_view(#[trigger] self.base.children@[t])
                        == prop_child_update(
                        wrapper_kid_fix(kids0[t], dcolsv),
                        (x_offset@, remaining_width@),
                        None,
                        flags_info,
                        has_inorder_children,
                    ),
                forall|t: int|
                    j <= t < n ==> #[trigger] self.base.children@[t] == old(
                        self,
                    ).base.children@[t],
            decreases n - j,
        {
            proof {
                lemma_kids_seq_view(old(self).base.children@);
                assert(kids0[j as int] == flow_view(old(self).base.children@[j as int]));
                lemma_view_variant(old(self).base.children@[j as int]);
            }
            let kid = &mut self.base.children[j];
            proof {
                assert(*kid == old(self).base.children@[j as int]);
            }
            match &mut *kid {
                Flow::Table(t) => {
                    t.col_widths = copy_aus(&dcols);
                },
                _ => {},
            }
            proof {
                assert(flow_view(*kid) == wrapper_kid_fix(kids0[j as int], dcolsv));
            }
            crate::flow::prop_update_child(
                kid,
                x_offset,
                remaining_width,
                None,
                &flags_info,
                has_inorder_children,
            );
            j = j + 1;
        }
        proof {
            assert(crate::flow::opt_box_view(self.box_) == step0.0);
            assert(x_offset@ == step0.1);
            assert(remaining_width@ == step0.2);
            assert(self.base.flags_info == step0.3);
            lemma_fv_base(Flow::TableWrapper(*self));
            lemma_kids_seq_view(self.base.children@);
            lemma_wrapper_kids_index(
                kids0,
                x_offset@,
                remaining_width@,
                dcolsv,
                flags_info,
                has_inorder_children,
            );
            assert(kids_seq_view(self.base.children@) =~= wrapper_kids(
                kids0,
                x_offset@,
                remaining_width@,
                dcolsv,
                flags_info,
                has_inorder_children,
            ));
            assert(wrapper_view(*self) == wrapper_widths_model(fv0, screen));
        }
    }


    /// Emits this flow's paintable rectangles, culled by the dirty
    /// rectangle, and gives the children their absolute positions. A
    /// fully clipped flow returns `true` and paints nothing.
    pub fn build_display_list_table(
        &mut self,
        builder: &crate::display_list::DisplayListBuilder,
        dirty: &Rect,
        list: &mut crate::display_list::DisplayList,
    ) -> (r: bool)
        requires
            dlist_ok(
                base_view(old(self).base, kids_seq_view(old(self).base.children@)),
                opt_box_view(old(self).box_),
                dl_extra(block_float_view(old(self).float)),
            ),
        ensures
            ({
                let m = dlist_model(
                    base_view(old(self).base, kids_seq_view(old(self).base.children@)),
                    opt_box_view(old(self).box_),
                    dl_extra(block_float_view(old(self).float)),
                    dirty@,
                    crate::display_list::dl_view(*old(list)),
                );
                &&& base_view(final(self).base, kids_seq_view(final(self).base.children@)) == m.0
                &&& crate::display_list::dl_view(*final(list)) == m.1
                &&& r == m.2
                &&& *final(self) == (TableWrapperFlow { base: final(self).base, ..*old(self) })
            }),
    {
        let extra = match &self.float {
            Some(fi) => fi.rel_pos,
            None => Point2D { x: Au(0), y: Au(0) },
        };
        build_display_list_base(&mut self.base, &self.box_, extra, dirty, list)
    }

    /// Emits this flow's paintable rectangles, culled by the dirty
    /// rectangle, and gives the children their absolute positions. A
    /// fully clipped flow returns `true` and paints nothing.
    pub fn build_display_list_float(
        &mut self,
        builder: &crate::display_list::DisplayListBuilder,
        dirty: &Rect,
        list: &mut crate::display_list::DisplayList,
    ) -> (r: bool)
        requires
            dlist_ok(
                base_view(old(self).base, kids_seq_view(old(self).base.children@)),
                opt_box_view(old(self).box_),
                dl_extra(block_float_view(old(self).float)),
            ),
        ensures
            ({
                let m = dlist_model(
                    base_view(old(self).base, kids_seq_view(old(self).base.children@)),
                    opt_box_view(old(self).box_),
                    dl_extra(block_float_view(old(self).float)),
                    dirty@,
                    crate::display_list::dl_view(*old(list)),
                );
                &&& base_view(final(self).base, kids_seq_view(final(self).base.children@)) == m.0
                &&& crate::display_list::dl_view(*final(list)) == m.1
                &&& r == m.2
                &&& *final(self) == (TableWrapperFlow { base: final(self).base, ..*old(self) })
            }),
    {
        let extra = match &self.float {
            Some(fi) => fi.rel_pos,
            None => Point2D { x: Au(0), y: Au(0) },
        };
        build_display_list_base(&mut self.base, &self.box_, extra, dirty, list)
    }

    /// Drops the box and the floated info eagerly.
    pub fn teardown(&mut self)
        ensures
            final(self).base == old(self).base,
            final(self).box_ is None,
            final(self).float is None,
            final(self).col_widths == old(self).col_widths,
            final(self).is_fixed_layout == old(self).is_fixed_layout,
    {
        self.box_ = None;
        self.float = None;
    }
}

} // verus!
