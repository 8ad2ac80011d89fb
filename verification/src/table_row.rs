//! CSS table row formatting contexts: a row lays its cells out side by
//! side, using column widths assigned by the enclosing table.

use vstd::prelude::*;

use crate::box_model::LayoutBox;
use crate::float_context::FloatType;
use crate::flow::BaseFlow;
use crate::flow::BaseV;
use crate::flow::Flow;
use crate::flow::FlowV;
use crate::flow::FloatInfoV;
use crate::flow::au_seq;
use crate::flow::flow_view;
use crate::flow::fv_base;
use crate::flow::fv_box;
use crate::flow::kids_float_sum;
use crate::flow::kids_min_sum;
use crate::flow::kids_pref_sum;
use crate::flow::kids_seq_view;
use crate::flow::kids_stats_ok;
use crate::flow::lemma_au_seq_push;
use crate::flow::lemma_fv_base;
use crate::flow::lemma_kids_seq_view;
use crate::flow::lemma_kids_stats;
use crate::flow::lemma_kids_stats_prefix;
use crate::flow::lemma_view_variant;
use crate::flow::row_view;
use crate::flow::base_view;
use crate::flow::build_display_list_base;
use crate::flow::dl_extra;
use crate::flow::dlist_model;
use crate::flow::dlist_ok;
use crate::flow::opt_box_view;
use crate::flow::table_float_view;
use crate::geometry::Rect;
use crate::geometry::Au;
use crate::geometry::MAX_AU;
use crate::geometry::MAX_COUNT;
use crate::geometry::Point2D;
use crate::geometry::max_int;
use crate::model::MaybeAuto;
use crate::model::from_style_spec;
use crate::model::specified_or;
use crate::style::wf_style;

verus! {

/// Information specific to floated table rows.
pub struct FloatedTableInfo {
    /// Width of the containing block, set at the start of the width pass.
    pub containing_width: Au,
    /// Offset relative to where the parent tried to position this flow.
    pub rel_pos: Point2D,
    /// Index into the box list for inline floats.
    pub index: Option<usize>,
    /// Number of floated children.
    pub floated_children: usize,
    /// Left or right?
    pub float_type: FloatType,
}

/// A freshly made floated-table info: zeroed, with the given side.
pub open spec fn fresh_table_float(f: FloatedTableInfo, float_type: FloatType) -> bool {
    &&& f.containing_width == Au(0)
    &&& f.rel_pos == (Point2D { x: Au(0), y: Au(0) })
    &&& f.index is None
    &&& f.floated_children == 0
    &&& f.float_type == float_type
}

impl FloatedTableInfo {
    pub fn new(float_type: FloatType) -> (r: FloatedTableInfo)
        ensures
            fresh_table_float(r, float_type),
    {
        FloatedTableInfo {
            containing_width: Au(0),
            rel_pos: Point2D { x: Au(0), y: Au(0) },
            index: None,
            floated_children: 0,
            float_type,
        }
    }
}

/// The specified widths of the cells in a row, in order: one entry for
/// each cell child that carries a box, its `width` property resolved
/// against nothing (a zero containing width).
pub open spec fn row_cell_widths(kids: Seq<FlowV>) -> Seq<int>
    decreases kids.len(),
{
    if kids.len() == 0 {
        Seq::empty()
    } else {
        row_cell_widths(kids.drop_last()) + (match kids.last() {
            FlowV::TableCell { box_: Some(b), .. } => seq![
                specified_or(from_style_spec(b.style.width, 0), 0),
            ],
            _ => Seq::<int>::empty(),
        })
    }
}

/// The children's minimum widths, in order.
pub open spec fn kids_min_seq(kids: Seq<FlowV>) -> Seq<int>
    decreases kids.len(),
{
    if kids.len() == 0 {
        Seq::empty()
    } else {
        kids_min_seq(kids.drop_last()).push(fv_base(kids.last()).min_width)
    }
}

/// The children's preferred widths, in order.
pub open spec fn kids_pref_seq(kids: Seq<FlowV>) -> Seq<int>
    decreases kids.len(),
{
    if kids.len() == 0 {
        Seq::empty()
    } else {
        kids_pref_seq(kids.drop_last()).push(fv_base(kids.last()).pref_width)
    }
}

/// What the bottom-up width pass computes for a row whose cells are
/// already bubbled: the cells' specified widths and intrinsic widths are
/// appended to the row's column vectors; the row's minimum width is the
/// sum of the cells' minima and its preferred width at least that.
pub open spec fn row_bubble_model(fv: FlowV) -> FlowV
    recommends
        fv is TableRow,
{
    match fv {
        FlowV::TableRow { box_, is_fixed, float, col_widths, col_min_widths, col_pref_widths, base } => {
            let ms = kids_min_sum(base.children);
            let ps = kids_pref_sum(base.children);
            let nf = kids_float_sum(base.children);
            let numf = if float is Some {
                1
            } else {
                nf
            };
            let new_float = match float {
                Some(fi) => Some(FloatInfoV { floated_children: nf, ..fi }),
                None => float,
            };
            FlowV::TableRow {
                box_,
                is_fixed,
                float: new_float,
                col_widths: col_widths + row_cell_widths(base.children),
                col_min_widths: col_min_widths + kids_min_seq(base.children),
                col_pref_widths: col_pref_widths + kids_pref_seq(base.children),
                base: BaseV {
                    min_width: ms,
                    pref_width: max_int(ms, ps),
                    num_floats: numf,
                    ..base
                },
            }
        },
        _ => fv,
    }
}

/// What the width pass needs of a row node: every child a table cell
/// with bubbled statistics within the global bound, cell styles
/// well-formed, and the row sums within bounds.
pub open spec fn row_bubble_ok(fv: FlowV) -> bool {
    let kids = fv_base(fv).children;
    &&& fv is TableRow
    &&& kids_stats_ok(kids)
    &&& forall|i: int|
        0 <= i < kids.len() ==> (#[trigger] kids[i] is TableCell && (fv_box(kids[i])
            matches Some(b) ==> wf_style(b.style)))
    &&& kids_min_sum(kids) <= MAX_AU
    &&& kids_pref_sum(kids) <= MAX_AU
    &&& kids_float_sum(kids) <= MAX_COUNT
}

/// A table row formatting context.
pub struct TableRowFlow {
    /// Data common to all flows.
    pub base: BaseFlow,
    /// The associated box.
    pub box_: Option<LayoutBox>,
    /// Whether this row is `position: fixed`.
    pub is_fixed: bool,
    /// Additional floating flow members.
    pub float: Option<FloatedTableInfo>,
    /// Column widths.
    pub col_widths: Vec<Au>,
    /// Column min widths.
    pub col_min_widths: Vec<Au>,
    /// Column pref widths.
    pub col_pref_widths: Vec<Au>,
}

impl TableRowFlow {
    pub fn new(base: BaseFlow) -> (r: TableRowFlow)
        ensures
            r.base == base,
            r.box_ is None,
            !r.is_fixed,
            r.float is None,
            r.col_widths@ == Seq::<Au>::empty(),
            r.col_min_widths@ == Seq::<Au>::empty(),
            r.col_pref_widths@ == Seq::<Au>::empty(),
    {
        TableRowFlow {
            base,
            box_: None,
            is_fixed: false,
            float: None,
            col_widths: Vec::new(),
            col_min_widths: Vec::new(),
            col_pref_widths: Vec::new(),
        }
    }

    pub fn from_box(base: BaseFlow, box_: LayoutBox, is_fixed: bool) -> (r: TableRowFlow)
        ensures
            r.base == base,
            r.box_ == Some(box_),
            r.is_fixed == is_fixed,
            r.float is None,
            r.col_widths@ == Seq::<Au>::empty(),
            r.col_min_widths@ == Seq::<Au>::empty(),
            r.col_pref_widths@ == Seq::<Au>::empty(),
    {
        TableRowFlow {
            base,
            box_: Some(box_),
            is_fixed,
            float: None,
            col_widths: Vec::new(),
            col_min_widths: Vec::new(),
            col_pref_widths: Vec::new(),
        }
    }

    pub fn float_from_box(base: BaseFlow, float_type: FloatType, box_: LayoutBox) -> (r:
        TableRowFlow)
        ensures
            r.base == base,
            r.box_ == Some(box_),
            !r.is_fixed,
            r.float matches Some(f) && fresh_table_float(f, float_type),
            r.col_widths@ == Seq::<Au>::empty(),
            r.col_min_widths@ == Seq::<Au>::empty(),
            r.col_pref_widths@ == Seq::<Au>::empty(),
    {
        TableRowFlow {
            base,
            box_: Some(box_),
            is_fixed: false,
            float: Some(FloatedTableInfo::new(float_type)),
            col_widths: Vec::new(),
            col_min_widths: Vec::new(),
            col_pref_widths: Vec::new(),
        }
    }

    pub fn new_float(base: BaseFlow, float_type: FloatType) -> (r: TableRowFlow)
        ensures
            r.base == base,
            r.box_ is None,
            !r.is_fixed,
            r.float matches Some(f) && fresh_table_float(f, float_type),
            r.col_widths@ == Seq::<Au>::empty(),
            r.col_min_widths@ == Seq::<Au>::empty(),
            r.col_pref_widths@ == Seq::<Au>::empty(),
    {
        TableRowFlow {
            base,
            box_: None,
            is_fixed: false,
            float: Some(FloatedTableInfo::new(float_type)),
            col_widths: Vec::new(),
            col_min_widths: Vec::new(),
            col_pref_widths: Vec::new(),
        }
    }

    pub fn is_float(&self) -> (r: bool)
        ensures
            r == (self.float is Some),
    {
        self.float.is_some()
    }

    /// Bottom-up intrinsic width computation for a row: each cell pushes
    /// its specified and intrinsic widths onto the column vectors; the
    /// row's minimum width is the sum of the cells' minima and its
    /// preferred width is at least its minimum.
    #[verifier::rlimit(100)]
    pub fn bubble_widths(&mut self)
        requires
            row_bubble_ok(row_view(*old(self))),
        ensures
            row_view(*final(self)) == row_bubble_model(row_view(*old(self))),
    {
        let ghost fv0 = row_view(*old(self));
        let ghost kids = fv_base(fv0).children;
        proof {
            lemma_fv_base(Flow::TableRow(*old(self)));
            lemma_kids_seq_view(old(self).base.children@);
            lemma_kids_stats(kids);
            assert(kids.subrange(0, 0) =~= Seq::<FlowV>::empty());
            assert(au_seq(old(self).col_widths@) + row_cell_widths(kids.subrange(0, 0)) =~= au_seq(
                old(self).col_widths@,
            ));
            assert(au_seq(old(self).col_min_widths@) + kids_min_seq(kids.subrange(0, 0)) =~= au_seq(
                old(self).col_min_widths@,
            ));
            assert(au_seq(old(self).col_pref_widths@) + kids_pref_seq(kids.subrange(0, 0))
                =~= au_seq(old(self).col_pref_widths@));
        }
        let mut min_width = Au(0);
        let mut pref_width = Au(0);
        let mut num_floats: usize = 0;
        let n = self.base.children.len();
        let mut i: usize = 0;
        while i < n
            invariant
                0 <= i <= n,
                n == old(self).base.children@.len(),
                self.base == old(self).base,
                self.box_ == old(self).box_,
                self.float == old(self).float,
                self.is_fixed == old(self).is_fixed,
                fv0 == row_view(*old(self)),
                row_bubble_ok(fv0),
                kids == fv_base(fv0).children,
                kids == kids_seq_view(old(self).base.children@),
                kids.len() == n,
                min_width@ == kids_min_sum(kids.subrange(0, i as int)),
                pref_width@ == kids_pref_sum(kids.subrange(0, i as int)),
                num_floats as int == kids_float_sum(kids.subrange(0, i as int)),
                0 <= min_width@ <= MAX_AU,
                0 <= pref_width@ <= MAX_AU,
                0 <= num_floats as int <= MAX_COUNT,
                au_seq(self.col_widths@) == au_seq(old(self).col_widths@) + row_cell_widths(
                    kids.subrange(0, i as int),
                ),
                au_seq(self.col_min_widths@) == au_seq(old(self).col_min_widths@) + kids_min_seq(
                    kids.subrange(0, i as int),
                ),
                au_seq(self.col_pref_widths@) == au_seq(old(self).col_pref_widths@) + kids_pref_seq(
                    kids.subrange(0, i as int),
                ),
            decreases n - i,
        {
            proof {
                lemma_kids_seq_view(old(self).base.children@);
                assert(kids[i as int] == flow_view(old(self).base.children@[i as int]));
                lemma_view_variant(old(self).base.children@[i as int]);
                assert(kids.subrange(0, i + 1).drop_last() =~= kids.subrange(0, i as int));
                assert(kids.subrange(0, i + 1).last() == kids[i as int]);
                lemma_kids_stats_prefix(kids, i + 1);
            }
            let child = &self.base.children[i];
            proof {
                lemma_fv_base(*child);
                assert(kids[i as int] is TableCell);
            }
            match child {
                Flow::TableCell(c) => {
                    let ghost cols_before = self.col_widths@;
                    match &c.box_ {
                        Some(bx) => {
                            let w = MaybeAuto::from_style(bx.style.width, Au(0)).specified_or_zero();
                            self.col_widths.push(w);
                            proof {
                                lemma_au_seq_push(cols_before, w);
                                assert(au_seq(self.col_widths@) =~= au_seq(
                                    old(self).col_widths@,
                                ) + row_cell_widths(kids.subrange(0, i + 1)));
                            }
                        },
                        None => {
                            proof {
                                assert(row_cell_widths(kids.subrange(0, i + 1)) =~= row_cell_widths(
                                    kids.subrange(0, i as int),
                                ));
                            }
                        },
                    }
                    let ghost mins_before = self.col_min_widths@;
                    let ghost prefs_before = self.col_pref_widths@;
                    self.col_min_widths.push(c.base.min_width);
                    self.col_pref_widths.push(c.base.pref_width);
                    proof {
                        lemma_au_seq_push(mins_before, c.base.min_width);
                        lemma_au_seq_push(prefs_before, c.base.pref_width);
                        assert(au_seq(self.col_min_widths@) =~= au_seq(old(self).col_min_widths@)
                            + kids_min_seq(kids.subrange(0, i + 1)));
                        assert(au_seq(self.col_pref_widths@) =~= au_seq(old(self).col_pref_widths@)
                            + kids_pref_seq(kids.subrange(0, i + 1)));
                        assert(min_width@ + c.base.min_width@ == kids_min_sum(
                            kids.subrange(0, i + 1),
                        ));
                        assert(pref_width@ + c.base.pref_width@ == kids_pref_sum(
                            kids.subrange(0, i + 1),
                        ));
                        assert(num_floats as int + c.base.num_floats as int == kids_float_sum(
                            kids.subrange(0, i + 1),
                        ));
                        assert(kids_min_sum(kids.subrange(0, i + 1)) <= MAX_AU);
                        assert(kids_pref_sum(kids.subrange(0, i + 1)) <= MAX_AU);
                        assert(kids_float_sum(kids.subrange(0, i + 1)) <= MAX_COUNT);
                    }
                    min_width = min_width.add(c.base.min_width);
                    pref_width = pref_width.add(c.base.pref_width);
                    num_floats = num_floats + c.base.num_floats;
                },
                _ => {
                    proof {
                        assert(false);
                    }
                },
            }
            i = i + 1;
        }
        proof {
            assert(kids.subrange(0, n as int) =~= kids);
        }
        if self.float.is_some() {
            self.base.num_floats = 1;
            match &mut self.float {
                Some(fi) => {
                    fi.floated_children = num_floats;
                },
                None => {},
            }
        } else {
            self.base.num_floats = num_floats;
        }
        self.base.min_width = min_width;
        self.base.pref_width = min_width.max(pref_width);
        proof {
            lemma_fv_base(Flow::TableRow(*self));
            assert(kids_seq_view(self.base.children@) == kids);
            assert(row_view(*self) == row_bubble_model(fv0));
        }
    }


    /// Emits this flow's paintable rectangles, culled by the dirty
    /// rectangle, and gives the children their absolute positions. A
    /// fully clipped flow returns `true` and paints nothing.
    pub fn build_display_list_table(
        &mut self,
        builder: &crate::display_list::DisplayListBuilder,
        dirty: &Rect,
        list: &mut crate::display_list::DisplayList,
    ) -> (r: bool)
        requires
            dlist_ok(
                base_view(old(self).base, kids_seq_view(old(self).base.children@)),
                opt_box_view(old(self).box_),
                dl_extra(table_float_view(old(self).float)),
            ),
        ensures
            ({
                let m = dlist_model(
                    base_view(old(self).base, kids_seq_view(old(self).base.children@)),
                    opt_box_view(old(self).box_),
                    dl_extra(table_float_view(old(self).float)),
                    dirty@,
                    crate::display_list::dl_view(*old(list)),
                );
                &&& base_view(final(self).base, kids_seq_view(final(self).base.children@)) == m.0
                &&& crate::display_list::dl_view(*final(list)) == m.1
                &&& r == m.2
                &&& *final(self) == (TableRowFlow { base: final(self).base, ..*old(self) })
            }),
    {
        let extra = match &self.float {
            Some(fi) => fi.rel_pos,
            None => Point2D { x: Au(0), y: Au(0) },
        };
        build_display_list_base(&mut self.base, &self.box_, extra, dirty, list)
    }

    /// Emits this flow's paintable rectangles, culled by the dirty
    /// rectangle, and gives the children their absolute positions. A
    /// fully clipped flow returns `true` and paints nothing.
    pub fn build_display_list_float(
        &mut self,
        builder: &crate::display_list::DisplayListBuilder,
        dirty: &Rect,
        list: &mut crate::display_list::DisplayList,
    ) -> (r: bool)
        requires
            dlist_ok(
                base_view(old(self).base, kids_seq_view(old(self).base.children@)),
                opt_box_view(old(self).box_),
                dl_extra(table_float_view(old(self).float)),
            ),
        ensures
            ({
                let m = dlist_model(
                    base_view(old(self).base, kids_seq_view(old(self).base.children@)),
                    opt_box_view(old(self).box_),
                    dl_extra(table_float_view(old(self).float)),
                    dirty@,
                    crate::display_list::dl_view(*old(list)),
                );
                &&& base_view(final(self).base, kids_seq_view(final(self).base.children@)) == m.0
                &&& crate::display_list::dl_view(*final(list)) == m.1
                &&& r == m.2
                &&& *final(self) == (TableRowFlow { base: final(self).base, ..*old(self) })
            }),
    {
        let extra = match &self.float {
            Some(fi) => fi.rel_pos,
            None => Point2D { x: Au(0), y: Au(0) },
        };
        build_display_list_base(&mut self.base, &self.box_, extra, dirty, list)
    }

    /// Drops the box, the floated info and the column vectors eagerly.
    pub fn teardown(&mut self)
        ensures
            final(self).base == old(self).base,
            final(self).box_ is None,
            final(self).float is None,
            final(self).is_fixed == old(self).is_fixed,
            final(self).col_widths@ == Seq::<Au>::empty(),
            final(self).col_min_widths@ == Seq::<Au>::empty(),
            final(self).col_pref_widths@ == Seq::<Au>::empty(),
    {
        self.box_ = None;
        self.float = None;
        self.col_widths = Vec::new();
        self.col_min_widths = Vec::new();
        self.col_pref_widths = Vec::new();
    }
}

} // verus!
