//! The algorithmically thin table flows: the inner table, row groups,
//! cells and column groups. They mostly carry widths between the wrapper
//! and the rows.

use vstd::prelude::*;

use crate::box_model::BoxV;
use crate::box_model::LayoutBox;
use crate::box_model::box_intrinsic_width;
use crate::box_model::lemma_box_intrinsic_bounds;
use crate::box_model::style_border;
use crate::flow::BaseFlow;
use crate::flow::BaseV;
use crate::flow::Flow;
use crate::flow::FlowV;
use crate::flow::au_seq;
use crate::flow::cell_view;
use crate::flow::colwise_max;
use crate::flow::colwise_max_cols;
use crate::flow::flow_view;
use crate::flow::fv_base;
use crate::flow::fv_box;
use crate::flow::kids_float_sum;
use crate::flow::kids_min_max;
use crate::flow::kids_pref_max;
use crate::flow::kids_seq_view;
use crate::flow::kids_stats_ok;
use crate::flow::lemma_fv_base;
use crate::flow::lemma_kids_seq_view;
use crate::flow::lemma_kids_stats;
use crate::flow::lemma_kids_stats_prefix;
use crate::flow::lemma_view_variant;
use crate::flow::merge_zero;
use crate::flow::merge_zero_cols;
use crate::flow::pad_zero_cols;
use crate::flow::pad_zeros;
use crate::flow::rowgroup_view;
use crate::flow::table_view;
use crate::geometry::Au;
use crate::geometry::MAX_AU;
use crate::geometry::MAX_COUNT;
use crate::geometry::max_int;
use crate::style::wf_style;

verus! {

/// What the bottom-up width pass computes for a block-like container
/// (a table cell or a row group) whose children are already bubbled:
/// the widest child determines both intrinsic widths, the box adds its
/// own contribution, and float counts are accumulated.
pub open spec fn container_bubble(
    box_: Option<BoxV>,
    base: BaseV,
) -> (Option<BoxV>, int, int, int) {
    let km = kids_min_max(base.children);
    let kp = kids_pref_max(base.children);
    let nf = kids_float_sum(base.children);
    let new_box = match box_ {
        Some(b) => Some(BoxV { border: style_border(b.style), ..b }),
        None => None,
    };
    let intrinsic = match box_ {
        Some(b) => box_intrinsic_width(b.style),
        None => 0,
    };
    (new_box, km + intrinsic, kp + intrinsic, nf)
}

/// What the width pass needs of a block-like container node.
pub open spec fn container_bubble_ok(box_: Option<BoxV>, base: BaseV) -> bool {
    &&& kids_stats_ok(base.children)
    &&& kids_float_sum(base.children) <= MAX_COUNT
    &&& (box_ matches Some(b) ==> wf_style(b.style))
}

pub open spec fn cell_bubble_model(fv: FlowV) -> FlowV
    recommends
        fv is TableCell,
{
    match fv {
        FlowV::TableCell { box_, base } => {
            let t = container_bubble(box_, base);
            FlowV::TableCell {
                box_: t.0,
                base: BaseV { min_width: t.1, pref_width: t.2, num_floats: t.3, ..base },
            }
        },
        _ => fv,
    }
}

pub open spec fn rowgroup_bubble_model(fv: FlowV) -> FlowV
    recommends
        fv is TableRowGroup,
{
    match fv {
        FlowV::TableRowGroup { box_, col_widths, base } => {
            let t = container_bubble(box_, base);
            FlowV::TableRowGroup {
                box_: t.0,
                col_widths,
                base: BaseV { min_width: t.1, pref_width: t.2, num_floats: t.3, ..base },
            }
        },
        _ => fv,
    }
}

/// One left-to-right scan of a table's children. Rows donate their
/// columns: specified widths fill columns still zero, intrinsic minima
/// are raised columnwise; every child feeds the intrinsic maxima and
/// the float count. Returns (columns, column minima, min, pref, floats).
pub open spec fn table_scan(kids: Seq<FlowV>, init_cols: Seq<int>, init_mins: Seq<int>) -> (
    Seq<int>,
    Seq<int>,
    int,
    int,
    int,
)
    decreases kids.len(),
{
    if kids.len() == 0 {
        (init_cols, init_mins, 0, 0, 0)
    } else {
        let t = table_scan(kids.drop_last(), init_cols, init_mins);
        let b = fv_base(kids.last());
        let mn = max_int(t.2, b.min_width);
        let pf = max_int(t.3, b.pref_width);
        let nf = t.4 + b.num_floats;
        match kids.last() {
            FlowV::TableRow { col_widths, col_min_widths, .. } => (
                merge_zero(pad_zeros(t.0, col_widths.len() as int), col_widths),
                colwise_max(t.1, col_min_widths),
                mn,
                pf,
                nf,
            ),
            _ => (t.0, t.1, mn, pf, nf),
        }
    }
}

/// What the bottom-up width pass computes for the inner table.
pub open spec fn table_bubble_model(fv: FlowV) -> FlowV
    recommends
        fv is Table,
{
    match fv {
        FlowV::Table { box_, col_widths, cell_min_widths, base } => {
            let t = table_scan(base.children, col_widths, cell_min_widths);
            let new_box = match box_ {
                Some(b) => Some(BoxV { border: style_border(b.style), ..b }),
                None => None,
            };
            let intrinsic = match box_ {
                Some(b) => box_intrinsic_width(b.style),
                None => 0,
            };
            FlowV::Table {
                box_: new_box,
                col_widths: t.0,
                cell_min_widths: t.1,
                base: BaseV {
                    min_width: t.2 + intrinsic,
                    pref_width: t.3 + intrinsic,
                    num_floats: t.4,
                    ..base
                },
            }
        },
        _ => fv,
    }
}

pub open spec fn table_bubble_ok(fv: FlowV) -> bool {
    &&& fv is Table
    &&& kids_stats_ok(fv_base(fv).children)
    &&& kids_float_sum(fv_base(fv).children) <= MAX_COUNT
    &&& (fv_box(fv) matches Some(b) ==> wf_style(b.style))
}

/// The inner table formatting context: carries the used column widths
/// down from the wrapper and the per-column intrinsic widths up to it.
pub struct TableFlow {
    /// Data common to all flows.
    pub base: BaseFlow,
    /// The associated box.
    pub box_: Option<LayoutBox>,
    /// Used column widths, assigned by the wrapper.
    pub col_widths: Vec<Au>,
    /// Per-column minimum widths, bubbled up from the rows.
    pub cell_min_widths: Vec<Au>,
}

impl TableFlow {
    pub fn new(base: BaseFlow) -> (r: TableFlow)
        ensures
            r.base == base,
            r.box_ is None,
            r.col_widths@ == Seq::<Au>::empty(),
            r.cell_min_widths@ == Seq::<Au>::empty(),
    {
        TableFlow { base, box_: None, col_widths: Vec::new(), cell_min_widths: Vec::new() }
    }

    pub fn from_box(base: BaseFlow, box_: LayoutBox) -> (r: TableFlow)
        ensures
            r.base == base,
            r.box_ == Some(box_),
            r.col_widths@ == Seq::<Au>::empty(),
            r.cell_min_widths@ == Seq::<Au>::empty(),
    {
        TableFlow { base, box_: Some(box_), col_widths: Vec::new(), cell_min_widths: Vec::new() }
    }
}

/// A table row group: passes the column widths through to its rows.
pub struct TableRowGroupFlow {
    /// Data common to all flows.
    pub base: BaseFlow,
    /// The associated box.
    pub box_: Option<LayoutBox>,
    /// Used column widths, copied from the table.
    pub col_widths: Vec<Au>,
}

impl TableRowGroupFlow {
    pub fn new(base: BaseFlow) -> (r: TableRowGroupFlow)
        ensures
            r.base == base,
            r.box_ is None,
            r.col_widths@ == Seq::<Au>::empty(),
    {
        TableRowGroupFlow { base, box_: None, col_widths: Vec::new() }
    }

    pub fn from_box(base: BaseFlow, box_: LayoutBox) -> (r: TableRowGroupFlow)
        ensures
            r.base == base,
            r.box_ == Some(box_),
            r.col_widths@ == Seq::<Au>::empty(),
    {
        TableRowGroupFlow { base, box_: Some(box_), col_widths: Vec::new() }
    }
}

/// A table cell: a simple block-like container laid out at a column
/// position chosen by its row.
pub struct TableCellFlow {
    /// Data common to all flows.
    pub base: BaseFlow,
    /// The associated box.
    pub box_: Option<LayoutBox>,
}

impl TableCellFlow {
    pub fn new(base: BaseFlow) -> (r: TableCellFlow)
        ensures
            r.base == base,
            r.box_ is None,
    {
        TableCellFlow { base, box_: None }
    }

    pub fn from_box(base: BaseFlow, box_: LayoutBox) -> (r: TableCellFlow)
        ensures
            r.base == base,
            r.box_ == Some(box_),
    {
        TableCellFlow { base, box_: Some(box_) }
    }
}

impl TableCellFlow {
    /// Bottom-up intrinsic width computation for a cell: as for a block,
    /// without float bookkeeping of its own.
    #[verifier::rlimit(100)]
    pub fn bubble_widths(&mut self)
        requires
            container_bubble_ok(
                fv_box(cell_view(*old(self))),
                fv_base(cell_view(*old(self))),
            ),
        ensures
            cell_view(*final(self)) == cell_bubble_model(cell_view(*old(self))),
    {
        let ghost fv0 = cell_view(*old(self));
        let ghost kids = fv_base(fv0).children;
        proof {
            lemma_fv_base(Flow::TableCell(*old(self)));
            lemma_kids_seq_view(old(self).base.children@);
            lemma_kids_stats(kids);
            assert(kids.subrange(0, 0) =~= Seq::<FlowV>::empty());
        }
        let mut min_width = Au(0);
        let mut pref_width = Au(0);
        let mut num_floats: usize = 0;
        let n = self.base.children.len();
        let mut i: usize = 0;
        while i < n
            invariant
                0 <= i <= n,
                n == old(self).base.children@.len(),
                *self == *old(self),
                kids == kids_seq_view(old(self).base.children@),
                kids.len() == n,
                kids_stats_ok(kids),
                kids_float_sum(kids) <= MAX_COUNT,
                min_width@ == kids_min_max(kids.subrange(0, i as int)),
                pref_width@ == kids_pref_max(kids.subrange(0, i as int)),
                num_floats as int == kids_float_sum(kids.subrange(0, i as int)),
                0 <= min_width@ <= MAX_AU,
                0 <= pref_width@ <= MAX_AU,
                0 <= num_floats as int <= MAX_COUNT,
            decreases n - i,
        {
            let child = &self.base.children[i];
            let child_base = child.base();
            proof {
                lemma_kids_seq_view(old(self).base.children@);
                lemma_fv_base(old(self).base.children@[i as int]);
                assert(kids[i as int] == flow_view(old(self).base.children@[i as int]));
                assert(kids.subrange(0, i + 1).drop_last() =~= kids.subrange(0, i as int));
                assert(kids.subrange(0, i + 1).last() == kids[i as int]);
                lemma_kids_stats_prefix(kids, i + 1);
                assert(num_floats as int + child_base.num_floats as int == kids_float_sum(
                    kids.subrange(0, i + 1),
                ));
                assert(num_floats as int + child_base.num_floats as int <= MAX_COUNT);
            }
            min_width = min_width.max(child_base.min_width);
            pref_width = pref_width.max(child_base.pref_width);
            num_floats = num_floats + child_base.num_floats;
            i = i + 1;
        }
        proof {
            assert(kids.subrange(0, n as int) =~= kids);
        }
        self.base.num_floats = num_floats;
        match &mut self.box_ {
            Some(bx) => {
                bx.compute_borders_if_necessary();
                let (this_min, this_pref) = bx.minimum_and_preferred_widths();
                proof {
                    lemma_box_intrinsic_bounds(bx.style);
                }
                min_width = min_width.add(this_min);
                pref_width = pref_width.add(this_pref);
            },
            None => {},
        }
        self.base.min_width = min_width;
        self.base.pref_width = pref_width;
        proof {
            lemma_fv_base(Flow::TableCell(*self));
            assert(kids_seq_view(self.base.children@) == kids);
            assert(cell_view(*self) == cell_bubble_model(fv0));
        }
    }
}

impl TableRowGroupFlow {
    /// Bottom-up intrinsic width computation for a row group: as for a
    /// block-like container; its column widths are left for the table
    /// to assign.
    #[verifier::rlimit(100)]
    pub fn bubble_widths(&mut self)
        requires
            container_bubble_ok(
                fv_box(rowgroup_view(*old(self))),
                fv_base(rowgroup_view(*old(self))),
            ),
        ensures
            rowgroup_view(*final(self)) == rowgroup_bubble_model(rowgroup_view(*old(self))),
    {
        let ghost fv0 = rowgroup_view(*old(self));
        let ghost kids = fv_base(fv0).children;
        proof {
            lemma_fv_base(Flow::TableRowGroup(*old(self)));
            lemma_kids_seq_view(old(self).base.children@);
            lemma_kids_stats(kids);
            assert(kids.subrange(0, 0) =~= Seq::<FlowV>::empty());
        }
        let mut min_width = Au(0);
        let mut pref_width = Au(0);
        let mut num_floats: usize = 0;
        let n = self.base.children.len();
        let mut i: usize = 0;
        while i < n
            invariant
                0 <= i <= n,
                n == old(self).base.children@.len(),
                *self == *old(self),
                kids == kids_seq_view(old(self).base.children@),
                kids.len() == n,
                kids_stats_ok(kids),
                kids_float_sum(kids) <= MAX_COUNT,
                min_width@ == kids_min_max(kids.subrange(0, i as int)),
                pref_width@ == kids_pref_max(kids.subrange(0, i as int)),
                num_floats as int == kids_float_sum(kids.subrange(0, i as int)),
                0 <= min_width@ <= MAX_AU,
                0 <= pref_width@ <= MAX_AU,
                0 <= num_floats as int <= MAX_COUNT,
            decreases n - i,
        {
            let child = &self.base.children[i];
            let child_base = child.base();
            proof {
                lemma_kids_seq_view(old(self).base.children@);
                lemma_fv_base(old(self).base.children@[i as int]);
                assert(kids[i as int] == flow_view(old(self).base.children@[i as int]));
                assert(kids.subrange(0, i + 1).drop_last() =~= kids.subrange(0, i as int));
                assert(kids.subrange(0, i + 1).last() == kids[i as int]);
                lemma_kids_stats_prefix(kids, i + 1);
                assert(num_floats as int + child_base.num_floats as int == kids_float_sum(
                    kids.subrange(0, i + 1),
                ));
                assert(num_floats as int + child_base.num_floats as int <= MAX_COUNT);
            }
            min_width = min_width.max(child_base.min_width);
            pref_width = pref_width.max(child_base.pref_width);
            num_floats = num_floats + child_base.num_floats;
            i = i + 1;
        }
        proof {
            assert(kids.subrange(0, n as int) =~= kids);
        }
        self.base.num_floats = num_floats;
        match &mut self.box_ {
            Some(bx) => {
                bx.compute_borders_if_necessary();
                let (this_min, this_pref) = bx.minimum_and_preferred_widths();
                proof {
                    lemma_box_intrinsic_bounds(bx.style);
                }
                min_width = min_width.add(this_min);
                pref_width = pref_width.add(this_pref);
            },
            None => {},
        }
        self.base.min_width = min_width;
        self.base.pref_width = pref_width;
        proof {
            lemma_fv_base(Flow::TableRowGroup(*self));
            assert(kids_seq_view(self.base.children@) == kids);
            assert(rowgroup_view(*self) == rowgroup_bubble_model(fv0));
        }
    }
}

impl TableFlow {
    /// Bottom-up intrinsic width computation for the inner table: rows
    /// donate their specified and minimum column widths; intrinsic
    /// maxima and float counts come from all children.
    #[verifier::rlimit(100)]
    pub fn bubble_widths(&mut self)
        requires
            table_bubble_ok(table_view(*old(self))),
        ensures
            table_view(*final(self)) == table_bubble_model(table_view(*old(self))),
    {
        let ghost fv0 = table_view(*old(self));
        let ghost kids = fv_base(fv0).children;
        let ghost init_cols = au_seq(old(self).col_widths@);
        let ghost init_mins = au_seq(old(self).cell_min_widths@);
        proof {
            lemma_fv_base(Flow::Table(*old(self)));
            lemma_kids_seq_view(old(self).base.children@);
            lemma_kids_stats(kids);
            assert(kids.subrange(0, 0) =~= Seq::<FlowV>::empty());
        }
        let mut min_width = Au(0);
        let mut pref_width = Au(0);
        let mut num_floats: usize = 0;
        let n = self.base.children.len();
        let mut i: usize = 0;
        while i < n
            invariant
                0 <= i <= n,
                n == old(self).base.children@.len(),
                self.base == old(self).base,
                self.box_ == old(self).box_,
                fv0 == table_view(*old(self)),
                table_bubble_ok(fv0),
                kids == fv_base(fv0).children,
                kids == kids_seq_view(old(self).base.children@),
                kids.len() == n,
                init_cols == au_seq(old(self).col_widths@),
                init_mins == au_seq(old(self).cell_min_widths@),
                ({
                    let t = table_scan(kids.subrange(0, i as int), init_cols, init_mins);
                    &&& au_seq(self.col_widths@) == t.0
                    &&& au_seq(self.cell_min_widths@) == t.1
                    &&& min_width@ == t.2
                    &&& pref_width@ == t.3
                    &&& num_floats as int == t.4
                }),
                num_floats as int == kids_float_sum(kids.subrange(0, i as int)),
                0 <= min_width@ <= MAX_AU,
                0 <= pref_width@ <= MAX_AU,
                0 <= num_floats as int <= MAX_COUNT,
            decreases n - i,
        {
            proof {
                lemma_kids_seq_view(old(self).base.children@);
                assert(kids[i as int] == flow_view(old(self).base.children@[i as int]));
                lemma_view_variant(old(self).base.children@[i as int]);
                assert(kids.subrange(0, i + 1).drop_last() =~= kids.subrange(0, i as int));
                assert(kids.subrange(0, i + 1).last() == kids[i as int]);
                lemma_kids_stats_prefix(kids, i + 1);
                assert(table_scan(kids.subrange(0, i + 1), init_cols, init_mins).4 == num_floats
                    as int + fv_base(kids[i as int]).num_floats);
                assert(kids_float_sum(kids.subrange(0, i + 1)) <= MAX_COUNT);
            }
            let child = &self.base.children[i];
            let child_base = child.base();
            proof {
                lemma_fv_base(*child);
                assert(table_scan(kids.subrange(0, i + 1), init_cols, init_mins).4 == num_floats
                    as int + child_base.num_floats);
                assert(num_floats as int + child_base.num_floats as int == kids_float_sum(
                    kids.subrange(0, i + 1),
                ));
            }
            match child {
                Flow::TableRow(row) => {
                    pad_zero_cols(&mut self.col_widths, row.col_widths.len());
                    merge_zero_cols(&mut self.col_widths, &row.col_widths);
                    colwise_max_cols(&mut self.cell_min_widths, &row.col_min_widths);
                },
                _ => {},
            }
            min_width = min_width.max(child_base.min_width);
            pref_width = pref_width.max(child_base.pref_width);
            num_floats = num_floats + child_base.num_floats;
            i = i + 1;
        }
        proof {
            assert(kids.subrange(0, n as int) =~= kids);
        }
        self.base.num_floats = num_floats;
        match &mut self.box_ {
            Some(bx) => {
                bx.compute_borders_if_necessary();
                let (this_min, this_pref) = bx.minimum_and_preferred_widths();
                proof {
                    lemma_box_intrinsic_bounds(bx.style);
                }
                min_width = min_width.add(this_min);
                pref_width = pref_width.add(this_pref);
            },
            None => {},
        }
        self.base.min_width = min_width;
        self.base.pref_width = pref_width;
        proof {
            lemma_fv_base(Flow::Table(*self));
            assert(kids_seq_view(self.base.children@) == kids);
            assert(table_view(*self) == table_bubble_model(fv0));
        }
    }
}

/// A table column group: it is not laid out itself, it only declares
/// per-column minimum widths for the wrapper to read.
pub struct TableColGroupFlow {
    /// Data common to all flows.
    pub base: BaseFlow,
    /// Declared widths of the columns this group spans.
    pub min_widths: Vec<Au>,
}

impl TableColGroupFlow {
    pub fn new(base: BaseFlow, min_widths: Vec<Au>) -> (r: TableColGroupFlow)
        ensures
            r.base == base,
            r.min_widths == min_widths,
    {
        TableColGroupFlow { base, min_widths }
    }
}

} // verus!
