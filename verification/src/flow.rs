//! The flow tree: every node embeds a `BaseFlow` (tree links, geometry,
//! intrinsic widths, float contexts, flags) and is one of a closed set of
//! flow kinds. The four layout passes walk this tree.

use vstd::prelude::*;

use crate::block::BlockFlow;
use crate::block::FloatedBlockInfo;
use crate::box_model::BoxV;
use crate::box_model::LayoutBox;
use crate::float_context::FloatContext;
use crate::float_context::FloatContextV;
use crate::float_context::FloatType;
use crate::geometry::Au;
use crate::geometry::Point2D;
use crate::geometry::PointV;
use crate::geometry::Rect;
use crate::geometry::RectV;
use crate::geometry::Size2D;
use crate::geometry::SizeV;
use crate::style::TextAlign;
use crate::style::TextDecoration;
use crate::table_misc::TableCellFlow;
use crate::table_misc::TableColGroupFlow;
use crate::table_misc::TableFlow;
use crate::table_misc::TableRowGroupFlow;
use crate::table_row::FloatedTableInfo;
use crate::table_row::TableRowFlow;
use crate::table_wrapper::TableWrapperFlow;

verus! {

/// What the layout passes need to know about the world outside the tree.
pub struct LayoutContext {
    pub screen_size: Size2D,
}

impl LayoutContext {
    pub fn new(screen_size: Size2D) -> (r: LayoutContext)
        ensures
            r.screen_size == screen_size,
    {
        LayoutContext { screen_size }
    }
}

/// Discriminator for the flow kinds, for collaborators that switch on
/// variant.
#[derive(Clone, Copy, PartialEq, Eq, Structural, Debug)]
pub enum FlowClass {
    BlockFlowClass,
    TableWrapperFlowClass,
    TableFlowClass,
    TableRowGroupFlowClass,
    TableRowFlowClass,
    TableCellFlowClass,
    TableColGroupFlowClass,
}

/// Per-flow flags: inherited text properties and the in-order traversal
/// bit.
#[derive(Clone, Copy, PartialEq, Eq, Structural, Debug)]
pub struct FlagsInfo {
    pub text_align: TextAlign,
    pub text_decoration: TextDecoration,
    pub inorder: bool,
}

impl FlagsInfo {
    pub fn new() -> (r: FlagsInfo)
        ensures
            r == (FlagsInfo {
                text_align: TextAlign::AlignLeft,
                text_decoration: TextDecoration::NoDecoration,
                inorder: false,
            }),
    {
        FlagsInfo {
            text_align: TextAlign::AlignLeft,
            text_decoration: TextDecoration::NoDecoration,
            inorder: false,
        }
    }

    pub fn inorder(&self) -> (r: bool)
        ensures
            r == self.inorder,
    {
        self.inorder
    }

    pub fn set_inorder(&mut self, value: bool)
        ensures
            *final(self) == (FlagsInfo { inorder: value, ..*old(self) }),
    {
        self.inorder = value;
    }

    pub fn set_text_align(&mut self, value: TextAlign)
        ensures
            *final(self) == (FlagsInfo { text_align: value, ..*old(self) }),
    {
        self.text_align = value;
    }

    /// Per CSS 2.1 § 16.3.1, text decoration propagates to all children
    /// in flow: a decorated parent decorates the child.
    pub fn propagate_text_decoration_from_parent(&mut self, parent: &FlagsInfo)
        ensures
            *final(self) == (FlagsInfo {
                text_decoration: propagated_decoration(*parent, *old(self)),
                ..*old(self)
            }),
    {
        match parent.text_decoration {
            TextDecoration::NoDecoration => {},
            other => {
                self.text_decoration = other;
            },
        }
    }

    /// Text alignment is inherited from the parent.
    pub fn propagate_text_alignment_from_parent(&mut self, parent: &FlagsInfo)
        ensures
            *final(self) == (FlagsInfo { text_align: parent.text_align, ..*old(self) }),
    {
        self.text_align = parent.text_align;
    }
}

/// The initial flags value, for use in specifications.
pub open spec fn default_flags() -> FlagsInfo {
    FlagsInfo {
        text_align: TextAlign::AlignLeft,
        text_decoration: TextDecoration::NoDecoration,
        inorder: false,
    }
}

/// The decoration a child ends up with under a given parent.
pub open spec fn propagated_decoration(parent: FlagsInfo, child: FlagsInfo) -> TextDecoration {
    if parent.text_decoration == TextDecoration::NoDecoration {
        child.text_decoration
    } else {
        parent.text_decoration
    }
}

/// Data common to all flows: tree links, geometry, intrinsic widths,
/// float contexts and flags.
pub struct BaseFlow {
    pub id: usize,
    /// Position and size in parent coordinates.
    pub position: Rect,
    /// Absolute position, filled during the display-list traversal.
    pub abs_position: Point2D,
    pub min_width: Au,
    pub pref_width: Au,
    /// Number of floats in this subtree (1 for a floated flow itself).
    pub num_floats: usize,
    /// Floats inherited from the previous sibling or the parent.
    pub floats_in: FloatContext,
    /// Floats handed to the next sibling.
    pub floats_out: FloatContext,
    pub flags_info: FlagsInfo,
    /// The flow's children, laid out in order.
    pub children: Vec<Flow>,
}

impl BaseFlow {
    /// A fresh, childless base with zero geometry. The float contexts
    /// start as the `Invalid` placeholder; the width pass replaces them.
    pub fn new(id: usize) -> (r: BaseFlow)
        ensures
            r.id == id,
            r.position@ == (RectV {
                origin: PointV { x: 0, y: 0 },
                size: SizeV { width: 0, height: 0 },
            }),
            r.abs_position@ == (PointV { x: 0, y: 0 }),
            r.min_width == Au(0),
            r.pref_width == Au(0),
            r.num_floats == 0,
            r.floats_in@ is Invalid,
            r.floats_out@ is Invalid,
            r.flags_info == (FlagsInfo {
                text_align: TextAlign::AlignLeft,
                text_decoration: TextDecoration::NoDecoration,
                inorder: false,
            }),
            r.children@ == Seq::<Flow>::empty(),
    {
        BaseFlow {
            id,
            position: Rect {
                origin: Point2D { x: Au(0), y: Au(0) },
                size: Size2D { width: Au(0), height: Au(0) },
            },
            abs_position: Point2D { x: Au(0), y: Au(0) },
            min_width: Au(0),
            pref_width: Au(0),
            num_floats: 0,
            floats_in: FloatContext::Invalid,
            floats_out: FloatContext::Invalid,
            flags_info: FlagsInfo::new(),
            children: Vec::new(),
        }
    }
}

/// A node of the flow tree.
pub enum Flow {
    Block(BlockFlow),
    TableWrapper(TableWrapperFlow),
    Table(TableFlow),
    TableRowGroup(TableRowGroupFlow),
    TableRow(TableRowFlow),
    TableCell(TableCellFlow),
    TableColGroup(TableColGroupFlow),
}

// ---------------------------------------------------------------------
// Mathematical mirrors.
// ---------------------------------------------------------------------
/// Mathematical mirror of the floated-flow info structs.
pub ghost struct FloatInfoV {
    pub containing_width: int,
    pub rel_pos: PointV,
    pub index: Option<int>,
    pub floated_children: int,
    pub float_type: FloatType,
}

/// Mathematical mirror of `BaseFlow`.
pub ghost struct BaseV {
    pub id: int,
    pub position: RectV,
    pub abs_position: PointV,
    pub min_width: int,
    pub pref_width: int,
    pub num_floats: int,
    pub floats_in: FloatContextV,
    pub floats_out: FloatContextV,
    pub flags_info: FlagsInfo,
    pub children: Seq<FlowV>,
}

/// Mathematical mirror of `Flow`.
pub ghost enum FlowV {
    Block {
        box_: Option<BoxV>,
        is_root: bool,
        is_fixed: bool,
        float: Option<FloatInfoV>,
        base: BaseV,
    },
    TableWrapper {
        box_: Option<BoxV>,
        float: Option<FloatInfoV>,
        col_widths: Seq<int>,
        is_fixed_layout: bool,
        base: BaseV,
    },
    Table { box_: Option<BoxV>, col_widths: Seq<int>, cell_min_widths: Seq<int>, base: BaseV },
    TableRowGroup { box_: Option<BoxV>, col_widths: Seq<int>, base: BaseV },
    TableRow {
        box_: Option<BoxV>,
        is_fixed: bool,
        float: Option<FloatInfoV>,
        col_widths: Seq<int>,
        col_min_widths: Seq<int>,
        col_pref_widths: Seq<int>,
        base: BaseV,
    },
    TableCell { box_: Option<BoxV>, base: BaseV },
    TableColGroup { min_widths: Seq<int>, base: BaseV },
}

/// Mirror of a vector of lengths.
pub open spec fn au_seq(v: Seq<Au>) -> Seq<int> {
    Seq::new(v.len(), |i: int| v[i]@)
}

pub open spec fn opt_box_view(b: Option<LayoutBox>) -> Option<BoxV> {
    match b {
        Some(bx) => Some(bx@),
        None => None,
    }
}

pub open spec fn block_float_view(f: Option<FloatedBlockInfo>) -> Option<FloatInfoV> {
    match f {
        Some(i) => Some(
            FloatInfoV {
                containing_width: i.containing_width@,
                rel_pos: i.rel_pos@,
                index: match i.index {
                    Some(n) => Some(n as int),
                    None => None,
                },
                floated_children: i.floated_children as int,
                float_type: i.float_type,
            },
        ),
        None => None,
    }
}

pub open spec fn table_float_view(f: Option<FloatedTableInfo>) -> Option<FloatInfoV> {
    match f {
        Some(i) => Some(
            FloatInfoV {
                containing_width: i.containing_width@,
                rel_pos: i.rel_pos@,
                index: match i.index {
                    Some(n) => Some(n as int),
                    None => None,
                },
                floated_children: i.floated_children as int,
                float_type: i.float_type,
            },
        ),
        None => None,
    }
}

/// Mirror of a base whose children have already been mirrored.
pub open spec fn base_view(b: BaseFlow, kids: Seq<FlowV>) -> BaseV {
    BaseV {
        id: b.id as int,
        position: b.position@,
        abs_position: b.abs_position@,
        min_width: b.min_width@,
        pref_width: b.pref_width@,
        num_floats: b.num_floats as int,
        floats_in: b.floats_in@,
        floats_out: b.floats_out@,
        flags_info: b.flags_info,
        children: kids,
    }
}

/// The deep mirror of a flow tree.
pub open spec fn flow_view(f: Flow) -> FlowV
    decreases f,
{
    match f {
        Flow::Block(b) => FlowV::Block {
            box_: opt_box_view(b.box_),
            is_root: b.is_root,
            is_fixed: b.is_fixed,
            float: block_float_view(b.float),
            base: base_view(b.base, kids_view(b.base.children)),
        },
        Flow::TableWrapper(w) => FlowV::TableWrapper {
            box_: opt_box_view(w.box_),
            float: block_float_view(w.float),
            col_widths: au_seq(w.col_widths@),
            is_fixed_layout: w.is_fixed_layout,
            base: base_view(w.base, kids_view(w.base.children)),
        },
        Flow::Table(t) => FlowV::Table {
            box_: opt_box_view(t.box_),
            col_widths: au_seq(t.col_widths@),
            cell_min_widths: au_seq(t.cell_min_widths@),
            base: base_view(t.base, kids_view(t.base.children)),
        },
        Flow::TableRowGroup(g) => FlowV::TableRowGroup {
            box_: opt_box_view(g.box_),
            col_widths: au_seq(g.col_widths@),
            base: base_view(g.base, kids_view(g.base.children)),
        },
        Flow::TableRow(r) => FlowV::TableRow {
            box_: opt_box_view(r.box_),
            is_fixed: r.is_fixed,
            float: table_float_view(r.float),
            col_widths: au_seq(r.col_widths@),
            col_min_widths: au_seq(r.col_min_widths@),
            col_pref_widths: au_seq(r.col_pref_widths@),
            base: base_view(r.base, kids_view(r.base.children)),
        },
        Flow::TableCell(c) => FlowV::TableCell {
            box_: opt_box_view(c.box_),
            base: base_view(c.base, kids_view(c.base.children)),
        },
        Flow::TableColGroup(g) => FlowV::TableColGroup {
            min_widths: au_seq(g.min_widths@),
            base: base_view(g.base, kids_view(g.base.children)),
        },
    }
}

/// The deep mirrors of a list of children.
pub open spec fn kids_view(children: Vec<Flow>) -> Seq<FlowV>
    decreases children,
{
    kids_seq_view(children@)
}

/// The deep mirrors of a sequence of flows.
pub open spec fn kids_seq_view(s: Seq<Flow>) -> Seq<FlowV>
    decreases s,
{
    if s.len() == 0 {
        Seq::empty()
    } else {
        kids_seq_view(s.drop_last()).push(flow_view(s.last()))
    }
}

/// `kids_seq_view` is the element-for-element mirror.
pub broadcast proof fn lemma_kids_seq_view(s: Seq<Flow>)
    ensures
        (#[trigger] kids_seq_view(s)).len() == s.len(),
        forall|i: int| 0 <= i < s.len() ==> kids_seq_view(s)[i] == flow_view(s[i]),
    decreases s.len(),
{
    if s.len() > 0 {
        lemma_kids_seq_view(s.drop_last());
        assert(forall|i: int| 0 <= i < s.len() - 1 ==> s.drop_last()[i] == s[i]);
        assert(s.last() == s[s.len() - 1]);
    }
}

// ---------------------------------------------------------------------
// Ghost accessors.
// ---------------------------------------------------------------------
/// The base of a mirrored flow.
pub open spec fn fv_base(fv: FlowV) -> BaseV {
    match fv {
        FlowV::Block { base, .. } => base,
        FlowV::TableWrapper { base, .. } => base,
        FlowV::Table { base, .. } => base,
        FlowV::TableRowGroup { base, .. } => base,
        FlowV::TableRow { base, .. } => base,
        FlowV::TableCell { base, .. } => base,
        FlowV::TableColGroup { base, .. } => base,
    }
}

/// The same mirrored flow with its base replaced.
pub open spec fn fv_with_base(fv: FlowV, b: BaseV) -> FlowV {
    match fv {
        FlowV::Block { box_, is_root, is_fixed, float, .. } => FlowV::Block {
            box_,
            is_root,
            is_fixed,
            float,
            base: b,
        },
        FlowV::TableWrapper { box_, float, col_widths, is_fixed_layout, .. } => FlowV::TableWrapper {
            box_,
            float,
            col_widths,
            is_fixed_layout,
            base: b,
        },
        FlowV::Table { box_, col_widths, cell_min_widths, .. } => FlowV::Table {
            box_,
            col_widths,
            cell_min_widths,
            base: b,
        },
        FlowV::TableRowGroup { box_, col_widths, .. } => FlowV::TableRowGroup {
            box_,
            col_widths,
            base: b,
        },
        FlowV::TableRow {
            box_,
            is_fixed,
            float,
            col_widths,
            col_min_widths,
            col_pref_widths,
            ..
        } => FlowV::TableRow {
            box_,
            is_fixed,
            float,
            col_widths,
            col_min_widths,
            col_pref_widths,
            base: b,
        },
        FlowV::TableCell { box_, .. } => FlowV::TableCell { box_, base: b },
        FlowV::TableColGroup { min_widths, .. } => FlowV::TableColGroup { min_widths, base: b },
    }
}

/// The same mirrored flow with its children replaced.
pub open spec fn fv_with_children(fv: FlowV, kids: Seq<FlowV>) -> FlowV {
    fv_with_base(fv, BaseV { children: kids, ..fv_base(fv) })
}

// ---------------------------------------------------------------------
// Executable accessors.
// ---------------------------------------------------------------------
/// The base of a flow, as a value.
pub open spec fn spec_base(f: Flow) -> BaseFlow {
    match f {
        Flow::Block(b) => b.base,
        Flow::TableWrapper(w) => w.base,
        Flow::Table(t) => t.base,
        Flow::TableRowGroup(g) => g.base,
        Flow::TableRow(r) => r.base,
        Flow::TableCell(c) => c.base,
        Flow::TableColGroup(g) => g.base,
    }
}

/// The same flow with its base replaced.
pub open spec fn spec_with_base(f: Flow, b: BaseFlow) -> Flow {
    match f {
        Flow::Block(x) => Flow::Block(BlockFlow { base: b, ..x }),
        Flow::TableWrapper(x) => Flow::TableWrapper(TableWrapperFlow { base: b, ..x }),
        Flow::Table(x) => Flow::Table(TableFlow { base: b, ..x }),
        Flow::TableRowGroup(x) => Flow::TableRowGroup(TableRowGroupFlow { base: b, ..x }),
        Flow::TableRow(x) => Flow::TableRow(TableRowFlow { base: b, ..x }),
        Flow::TableCell(x) => Flow::TableCell(TableCellFlow { base: b, ..x }),
        Flow::TableColGroup(x) => Flow::TableColGroup(TableColGroupFlow { base: b, ..x }),
    }
}

impl Flow {
    pub fn class(&self) -> (r: FlowClass)
        ensures
            r == spec_class(*self),
    {
        match self {
            Flow::Block(_) => FlowClass::BlockFlowClass,
            Flow::TableWrapper(_) => FlowClass::TableWrapperFlowClass,
            Flow::Table(_) => FlowClass::TableFlowClass,
            Flow::TableRowGroup(_) => FlowClass::TableRowGroupFlowClass,
            Flow::TableRow(_) => FlowClass::TableRowFlowClass,
            Flow::TableCell(_) => FlowClass::TableCellFlowClass,
            Flow::TableColGroup(_) => FlowClass::TableColGroupFlowClass,
        }
    }

    /// Shared view of the base.
    pub fn base(&self) -> (r: &BaseFlow)
        ensures
            *r == spec_base(*self),
    {
        match self {
            Flow::Block(b) => &b.base,
            Flow::TableWrapper(w) => &w.base,
            Flow::Table(t) => &t.base,
            Flow::TableRowGroup(g) => &g.base,
            Flow::TableRow(r) => &r.base,
            Flow::TableCell(c) => &c.base,
            Flow::TableColGroup(g) => &g.base,
        }
    }

    /// The block payload of a flow known to be a block.
    pub fn as_block(&mut self) -> (r: &mut BlockFlow)
        requires
            *old(self) is Block,
        ensures
            *r == old(self)->Block_0,
            *final(self) == Flow::Block(*final(r)),
    {
        match self {
            Flow::Block(b) => b,
            _ => vstd::pervasive::unreached(),
        }
    }

    /// The row payload of a flow known to be a table row.
    pub fn as_table_row(&mut self) -> (r: &mut TableRowFlow)
        requires
            *old(self) is TableRow,
        ensures
            *r == old(self)->TableRow_0,
            *final(self) == Flow::TableRow(*final(r)),
    {
        match self {
            Flow::TableRow(b) => b,
            _ => vstd::pervasive::unreached(),
        }
    }

    /// The wrapper payload of a flow known to be a table wrapper.
    pub fn as_table_wrapper(&mut self) -> (r: &mut TableWrapperFlow)
        requires
            *old(self) is TableWrapper,
        ensures
            *r == old(self)->TableWrapper_0,
            *final(self) == Flow::TableWrapper(*final(r)),
    {
        match self {
            Flow::TableWrapper(b) => b,
            _ => vstd::pervasive::unreached(),
        }
    }

    /// Exclusive view of the base; everything else is untouched.
    pub fn base_mut(&mut self) -> (r: &mut BaseFlow)
        ensures
            *r == spec_base(*old(self)),
            *final(self) == spec_with_base(*old(self), *final(r)),
    {
        match self {
            Flow::Block(b) => &mut b.base,
            Flow::TableWrapper(w) => &mut w.base,
            Flow::Table(t) => &mut t.base,
            Flow::TableRowGroup(g) => &mut g.base,
            Flow::TableRow(r) => &mut r.base,
            Flow::TableCell(c) => &mut c.base,
            Flow::TableColGroup(g) => &mut g.base,
        }
    }
}

// ---------------------------------------------------------------------
// Views of the individual flow structs, and child statistics.
// ---------------------------------------------------------------------
pub open spec fn block_view(b: BlockFlow) -> FlowV {
    flow_view(Flow::Block(b))
}

pub open spec fn wrapper_view(w: TableWrapperFlow) -> FlowV {
    flow_view(Flow::TableWrapper(w))
}

pub open spec fn table_view(t: TableFlow) -> FlowV {
    flow_view(Flow::Table(t))
}

pub open spec fn rowgroup_view(g: TableRowGroupFlow) -> FlowV {
    flow_view(Flow::TableRowGroup(g))
}

pub open spec fn row_view(r: TableRowFlow) -> FlowV {
    flow_view(Flow::TableRow(r))
}

pub open spec fn cell_view(c: TableCellFlow) -> FlowV {
    flow_view(Flow::TableCell(c))
}

pub open spec fn colgroup_view(g: TableColGroupFlow) -> FlowV {
    flow_view(Flow::TableColGroup(g))
}

/// The box of a mirrored flow, if its kind carries one.
pub open spec fn fv_box(fv: FlowV) -> Option<BoxV> {
    match fv {
        FlowV::Block { box_, .. } => box_,
        FlowV::TableWrapper { box_, .. } => box_,
        FlowV::Table { box_, .. } => box_,
        FlowV::TableRowGroup { box_, .. } => box_,
        FlowV::TableRow { box_, .. } => box_,
        FlowV::TableCell { box_, .. } => box_,
        FlowV::TableColGroup { .. } => None,
    }
}

/// The base of a flow's mirror is the mirror of the flow's base.
pub broadcast proof fn lemma_fv_base(f: Flow)
    ensures
        fv_base(#[trigger] flow_view(f)) == base_view(
            spec_base(f),
            kids_seq_view(spec_base(f).children@),
        ),
{
    match f {
        Flow::Block(_) => {},
        Flow::TableWrapper(_) => {},
        Flow::Table(_) => {},
        Flow::TableRowGroup(_) => {},
        Flow::TableRow(_) => {},
        Flow::TableCell(_) => {},
        Flow::TableColGroup(_) => {},
    }
}

/// Appending a length appends its mirror.
pub broadcast proof fn lemma_au_seq_push(s: Seq<Au>, x: Au)
    ensures
        #[trigger] au_seq(s.push(x)) == au_seq(s).push(x@),
{
    assert(au_seq(s.push(x)) =~= au_seq(s).push(x@));
}

/// A flow and its mirror are of the same kind.
pub broadcast proof fn lemma_view_variant(f: Flow)
    ensures
        (#[trigger] flow_view(f) is Block) == f is Block,
        (flow_view(f) is TableWrapper) == f is TableWrapper,
        (flow_view(f) is Table) == f is Table,
        (flow_view(f) is TableRowGroup) == f is TableRowGroup,
        (flow_view(f) is TableRow) == f is TableRow,
        (flow_view(f) is TableCell) == f is TableCell,
        (flow_view(f) is TableColGroup) == f is TableColGroup,
{
    match f {
        Flow::Block(_) => {},
        Flow::TableWrapper(_) => {},
        Flow::Table(_) => {},
        Flow::TableRowGroup(_) => {},
        Flow::TableRow(_) => {},
        Flow::TableCell(_) => {},
        Flow::TableColGroup(_) => {},
    }
}

/// The largest minimum width among the children.
pub open spec fn kids_min_max(kids: Seq<FlowV>) -> int
    decreases kids.len(),
{
    if kids.len() == 0 {
        0
    } else {
        crate::geometry::max_int(
            kids_min_max(kids.drop_last()),
            fv_base(kids.last()).min_width,
        )
    }
}

/// The largest preferred width among the children.
pub open spec fn kids_pref_max(kids: Seq<FlowV>) -> int
    decreases kids.len(),
{
    if kids.len() == 0 {
        0
    } else {
        crate::geometry::max_int(
            kids_pref_max(kids.drop_last()),
            fv_base(kids.last()).pref_width,
        )
    }
}

/// The sum of the children's minimum widths.
pub open spec fn kids_min_sum(kids: Seq<FlowV>) -> int
    decreases kids.len(),
{
    if kids.len() == 0 {
        0
    } else {
        kids_min_sum(kids.drop_last()) + fv_base(kids.last()).min_width
    }
}

/// The sum of the children's preferred widths.
pub open spec fn kids_pref_sum(kids: Seq<FlowV>) -> int
    decreases kids.len(),
{
    if kids.len() == 0 {
        0
    } else {
        kids_pref_sum(kids.drop_last()) + fv_base(kids.last()).pref_width
    }
}

/// The number of floats in the children's subtrees together.
pub open spec fn kids_float_sum(kids: Seq<FlowV>) -> int
    decreases kids.len(),
{
    if kids.len() == 0 {
        0
    } else {
        kids_float_sum(kids.drop_last()) + fv_base(kids.last()).num_floats
    }
}

/// Every child's bubbled statistics lie within the global bound.
pub open spec fn kids_stats_ok(kids: Seq<FlowV>) -> bool {
    forall|i: int|
        0 <= i < kids.len() ==> {
            let b = fv_base(#[trigger] kids[i]);
            &&& 0 <= b.min_width <= crate::geometry::MAX_AU
            &&& 0 <= b.pref_width <= crate::geometry::MAX_AU
            &&& 0 <= b.num_floats <= crate::geometry::MAX_COUNT
        }
}

/// Bounds and prefix monotonicity for the child statistics folds.
pub proof fn lemma_kids_stats(kids: Seq<FlowV>)
    requires
        kids_stats_ok(kids),
    ensures
        0 <= kids_min_max(kids) <= crate::geometry::MAX_AU,
        0 <= kids_pref_max(kids) <= crate::geometry::MAX_AU,
        0 <= kids_min_sum(kids),
        0 <= kids_pref_sum(kids),
        0 <= kids_float_sum(kids),
        kids_min_sum(kids) <= kids.len() * crate::geometry::MAX_AU,
        kids_pref_sum(kids) <= kids.len() * crate::geometry::MAX_AU,
        kids_float_sum(kids) <= kids.len() * crate::geometry::MAX_AU,
    decreases kids.len(),
{
    if kids.len() > 0 {
        assert(forall|i: int| 0 <= i < kids.len() - 1 ==> kids.drop_last()[i] == kids[i]);
        lemma_kids_stats(kids.drop_last());
        assert(kids.last() == kids[kids.len() - 1]);
        assert((kids.len() - 1) * crate::geometry::MAX_AU + crate::geometry::MAX_AU == kids.len()
            * crate::geometry::MAX_AU) by (nonlinear_arith);
    }
}

/// A prefix of the children contributes no more than the whole list to
/// each sum, and its maxima stay below the whole list's maxima.
pub proof fn lemma_kids_stats_prefix(kids: Seq<FlowV>, i: int)
    requires
        kids_stats_ok(kids),
        0 <= i <= kids.len(),
    ensures
        kids_min_max(kids.subrange(0, i)) <= kids_min_max(kids),
        kids_pref_max(kids.subrange(0, i)) <= kids_pref_max(kids),
        kids_min_sum(kids.subrange(0, i)) <= kids_min_sum(kids),
        kids_pref_sum(kids.subrange(0, i)) <= kids_pref_sum(kids),
        kids_float_sum(kids.subrange(0, i)) <= kids_float_sum(kids),
    decreases kids.len() - i,
{
    if i == kids.len() {
        assert(kids.subrange(0, i) =~= kids);
    } else {
        assert(kids.subrange(0, i + 1).drop_last() =~= kids.subrange(0, i));
        assert(kids.subrange(0, i + 1).last() == kids[i]);
        assert(fv_base(kids[i]).min_width >= 0 && fv_base(kids[i]).pref_width >= 0 && fv_base(
            kids[i],
        ).num_floats >= 0);
        lemma_kids_stats_prefix(kids, i + 1);
    }
}

// ---------------------------------------------------------------------
// Column vector operations, shared by the table flows.
// ---------------------------------------------------------------------
/// `a` with every zero entry replaced by the matching entry of `b`,
/// where `b` has one.
pub open spec fn merge_zero(a: Seq<int>, b: Seq<int>) -> Seq<int> {
    Seq::new(
        a.len(),
        |i: int|
            if a[i] == 0 && i < b.len() {
                b[i]
            } else {
                a[i]
            },
    )
}

/// `a` extended with zeros up to length `n`; never trimmed.
pub open spec fn pad_zeros(a: Seq<int>, n: int) -> Seq<int> {
    if n > a.len() {
        a + Seq::new((n - a.len()) as nat, |i: int| 0)
    } else {
        a
    }
}

/// The elementwise maximum where both vectors have an entry; the longer
/// vector's tail is kept as it is.
pub open spec fn colwise_max(a: Seq<int>, b: Seq<int>) -> Seq<int> {
    Seq::new(
        crate::geometry::max_int(a.len() as int, b.len() as int) as nat,
        |i: int|
            if i < a.len() && i < b.len() {
                crate::geometry::max_int(a[i], b[i])
            } else if i < a.len() {
                a[i]
            } else {
                b[i]
            },
    )
}

/// Raises every entry of `dst` to at least the matching entry of `src`,
/// appending the entries of `src` past the end of `dst`.
pub fn colwise_max_cols(dst: &mut Vec<Au>, src: &Vec<Au>)
    ensures
        au_seq(final(dst)@) == colwise_max(au_seq(old(dst)@), au_seq(src@)),
{
    let ghost target = colwise_max(au_seq(old(dst)@), au_seq(src@));
    let mut j: usize = 0;
    while j < dst.len() && j < src.len()
        invariant
            0 <= j <= dst@.len(),
            dst@.len() == old(dst)@.len(),
            target == colwise_max(au_seq(old(dst)@), au_seq(src@)),
            forall|t: int| 0 <= t < j ==> au_seq(dst@)[t] == target[t],
            forall|t: int| j <= t < dst@.len() ==> dst@[t] == old(dst)@[t],
        decreases dst@.len() - j,
    {
        if src[j].0 > dst[j].0 {
            let v = src[j];
            dst[j] = v;
        }
        j = j + 1;
    }
    let start = dst.len();
    let mut k: usize = start;
    while k < src.len()
        invariant
            start == old(dst)@.len(),
            start <= k,
            k <= crate::geometry::max_int(src@.len() as int, start as int),
            dst@.len() == k,
            target == colwise_max(au_seq(old(dst)@), au_seq(src@)),
            forall|t: int| 0 <= t < k ==> au_seq(dst@)[t] == target[t],
        decreases src@.len() - k,
    {
        dst.push(src[k]);
        k = k + 1;
    }
    proof {
        assert(au_seq(dst@) =~= target);
    }
}

/// Appends every element of `src` to `dst`.
pub fn push_all_au(dst: &mut Vec<Au>, src: &Vec<Au>)
    ensures
        au_seq(final(dst)@) == au_seq(old(dst)@) + au_seq(src@),
{
    let mut k: usize = 0;
    proof {
        assert(au_seq(dst@) =~= au_seq(old(dst)@) + au_seq(src@.subrange(0, 0)));
    }
    while k < src.len()
        invariant
            0 <= k <= src@.len(),
            au_seq(dst@) == au_seq(old(dst)@) + au_seq(src@.subrange(0, k as int)),
        decreases src@.len() - k,
    {
        let ghost before = dst@;
        dst.push(src[k]);
        proof {
            lemma_au_seq_push(before, src@[k as int]);
            assert(au_seq(dst@) =~= au_seq(old(dst)@) + au_seq(src@.subrange(0, k + 1)));
        }
        k = k + 1;
    }
    proof {
        assert(src@.subrange(0, src@.len() as int) =~= src@);
    }
}

/// Replaces every zero entry of `dst` by the matching entry of `src`.
pub fn merge_zero_cols(dst: &mut Vec<Au>, src: &Vec<Au>)
    ensures
        au_seq(final(dst)@) == merge_zero(au_seq(old(dst)@), au_seq(src@)),
{
    let ghost target = merge_zero(au_seq(old(dst)@), au_seq(src@));
    let mut j: usize = 0;
    while j < dst.len() && j < src.len()
        invariant
            0 <= j <= dst@.len(),
            dst@.len() == old(dst)@.len(),
            target == merge_zero(au_seq(old(dst)@), au_seq(src@)),
            forall|t: int| 0 <= t < j ==> au_seq(dst@)[t] == target[t],
            forall|t: int| j <= t < dst@.len() ==> dst@[t] == old(dst)@[t],
        decreases dst@.len() - j,
    {
        if dst[j].0 == 0 {
            let v = src[j];
            dst[j] = v;
        }
        j = j + 1;
    }
    proof {
        assert(au_seq(dst@) =~= target);
    }
}

/// Extends `dst` with zero entries up to length `n`.
pub fn pad_zero_cols(dst: &mut Vec<Au>, n: usize)
    ensures
        au_seq(final(dst)@) == pad_zeros(au_seq(old(dst)@), n as int),
{
    let ghost target = pad_zeros(au_seq(old(dst)@), n as int);
    while dst.len() < n
        invariant
            target == pad_zeros(au_seq(old(dst)@), n as int),
            old(dst)@.len() <= dst@.len(),
            dst@.len() <= crate::geometry::max_int(n as int, old(dst)@.len() as int),
            forall|t: int| 0 <= t < old(dst)@.len() ==> dst@[t] == old(dst)@[t],
            forall|t: int| old(dst)@.len() <= t < dst@.len() ==> dst@[t]@ == 0,
        decreases n - dst@.len(),
    {
        dst.push(Au(0));
    }
    proof {
        assert(au_seq(dst@) =~= target);
    }
}

// ---------------------------------------------------------------------
// The bottom-up intrinsic width pass over the whole tree.
// ---------------------------------------------------------------------
/// The per-kind node step of the width bubbling pass.
pub open spec fn node_bubble_model(fv: FlowV) -> FlowV {
    match fv {
        FlowV::Block { .. } => crate::block::block_bubble_model(fv),
        FlowV::TableWrapper { .. } => crate::table_wrapper::wrapper_bubble_model(fv),
        FlowV::Table { .. } => crate::table_misc::table_bubble_model(fv),
        FlowV::TableRowGroup { .. } => crate::table_misc::rowgroup_bubble_model(fv),
        FlowV::TableRow { .. } => crate::table_row::row_bubble_model(fv),
        FlowV::TableCell { .. } => crate::table_misc::cell_bubble_model(fv),
        FlowV::TableColGroup { .. } => fv,
    }
}

/// What the node step needs of each kind of node.
pub open spec fn node_bubble_ok(fv: FlowV) -> bool {
    match fv {
        FlowV::Block { .. } => crate::block::block_bubble_ok(fv),
        FlowV::TableWrapper { .. } => crate::table_wrapper::wrapper_bubble_ok(fv),
        FlowV::Table { .. } => crate::table_misc::table_bubble_ok(fv),
        FlowV::TableRowGroup { .. } => crate::table_misc::container_bubble_ok(
            fv_box(fv),
            fv_base(fv),
        ),
        FlowV::TableRow { .. } => crate::table_row::row_bubble_ok(fv),
        FlowV::TableCell { .. } => crate::table_misc::container_bubble_ok(
            fv_box(fv),
            fv_base(fv),
        ),
        FlowV::TableColGroup { .. } => fv_base(fv).min_width <= fv_base(fv).pref_width,
    }
}

/// The whole pass: children first, then the node step.
pub open spec fn bubble_tree_model(fv: FlowV) -> FlowV
    decreases fv,
{
    match fv {
        FlowV::Block { base, .. } => node_bubble_model(
            fv_with_children(fv, bubble_kids_model(base.children)),
        ),
        FlowV::TableWrapper { base, .. } => node_bubble_model(
            fv_with_children(fv, bubble_kids_model(base.children)),
        ),
        FlowV::Table { base, .. } => node_bubble_model(
            fv_with_children(fv, bubble_kids_model(base.children)),
        ),
        FlowV::TableRowGroup { base, .. } => node_bubble_model(
            fv_with_children(fv, bubble_kids_model(base.children)),
        ),
        FlowV::TableRow { base, .. } => node_bubble_model(
            fv_with_children(fv, bubble_kids_model(base.children)),
        ),
        FlowV::TableCell { base, .. } => node_bubble_model(
            fv_with_children(fv, bubble_kids_model(base.children)),
        ),
        FlowV::TableColGroup { base, .. } => node_bubble_model(
            fv_with_children(fv, bubble_kids_model(base.children)),
        ),
    }
}

pub open spec fn bubble_kids_model(kids: Seq<FlowV>) -> Seq<FlowV>
    decreases kids,
{
    if kids.len() == 0 {
        Seq::empty()
    } else {
        bubble_kids_model(kids.drop_last()).push(bubble_tree_model(kids.last()))
    }
}

/// Bubbled intrinsic widths and float counts stay within the global
/// bounds.
pub open spec fn stat_bounds(b: BaseV) -> bool {
    &&& 0 <= b.min_width <= crate::geometry::MAX_AU
    &&& 0 <= b.pref_width <= crate::geometry::MAX_AU
    &&& 0 <= b.num_floats <= crate::geometry::MAX_COUNT
}

/// The pass accepts a tree when it accepts every subtree and the node
/// step accepts each node over its bubbled children, with results in
/// bounds.
pub open spec fn bubble_tree_ok(fv: FlowV) -> bool
    decreases fv,
{
    match fv {
        FlowV::Block { base, .. } => bubble_kids_ok(base.children) && bubble_node_ready(
            fv,
            base.children,
        ),
        FlowV::TableWrapper { base, .. } => bubble_kids_ok(base.children) && bubble_node_ready(
            fv,
            base.children,
        ),
        FlowV::Table { base, .. } => bubble_kids_ok(base.children) && bubble_node_ready(
            fv,
            base.children,
        ),
        FlowV::TableRowGroup { base, .. } => bubble_kids_ok(base.children) && bubble_node_ready(
            fv,
            base.children,
        ),
        FlowV::TableRow { base, .. } => bubble_kids_ok(base.children) && bubble_node_ready(
            fv,
            base.children,
        ),
        FlowV::TableCell { base, .. } => bubble_kids_ok(base.children) && bubble_node_ready(
            fv,
            base.children,
        ),
        FlowV::TableColGroup { base, .. } => bubble_kids_ok(base.children) && bubble_node_ready(
            fv,
            base.children,
        ),
    }
}

/// The node step accepts the node once its children are bubbled, and
/// its results stay in bounds.
pub open spec fn bubble_node_ready(fv: FlowV, children: Seq<FlowV>) -> bool {
    let fv2 = fv_with_children(fv, bubble_kids_model(children));
    &&& node_bubble_ok(fv2)
    &&& stat_bounds(fv_base(node_bubble_model(fv2)))
}

pub open spec fn bubble_kids_ok(kids: Seq<FlowV>) -> bool
    decreases kids,
{
    if kids.len() == 0 {
        true
    } else {
        bubble_kids_ok(kids.drop_last()) && bubble_tree_ok(kids.last())
    }
}

/// The tree-acceptance predicate passes down to every child.
pub proof fn lemma_bubble_kids_ok_index(kids: Seq<FlowV>, i: int)
    requires
        bubble_kids_ok(kids),
        0 <= i < kids.len(),
    ensures
        bubble_tree_ok(kids[i]),
    decreases kids.len(),
{
    if i == kids.len() - 1 {
        assert(kids.last() == kids[i]);
    } else {
        assert(kids.drop_last()[i] == kids[i]);
        lemma_bubble_kids_ok_index(kids.drop_last(), i);
    }
}

/// The bubbled children are the children bubbled, one for one.
pub proof fn lemma_bubble_kids_model_index(kids: Seq<FlowV>)
    ensures
        bubble_kids_model(kids).len() == kids.len(),
        forall|i: int|
            0 <= i < kids.len() ==> bubble_kids_model(kids)[i] == bubble_tree_model(
                #[trigger] kids[i],
            ),
    decreases kids.len(),
{
    if kids.len() > 0 {
        lemma_bubble_kids_model_index(kids.drop_last());
        assert(forall|i: int| 0 <= i < kids.len() - 1 ==> kids.drop_last()[i] == kids[i]);
        assert(kids.last() == kids[kids.len() - 1]);
    }
}

/// Unfolding the pass at a node: bubble the children, then the node.
pub proof fn lemma_bubble_tree_unfold(fv: FlowV)
    ensures
        bubble_tree_model(fv) == node_bubble_model(
            fv_with_children(fv, bubble_kids_model(fv_base(fv).children)),
        ),
        bubble_tree_ok(fv) == (bubble_kids_ok(fv_base(fv).children) && bubble_node_ready(
            fv,
            fv_base(fv).children,
        )),
{
    match fv {
        FlowV::Block { .. } => {},
        FlowV::TableWrapper { .. } => {},
        FlowV::Table { .. } => {},
        FlowV::TableRowGroup { .. } => {},
        FlowV::TableRow { .. } => {},
        FlowV::TableCell { .. } => {},
        FlowV::TableColGroup { .. } => {},
    }
}

/// A child of a flow is structurally smaller than the flow.
pub proof fn lemma_child_decreases(f: Flow, i: int)
    requires
        0 <= i < spec_base(f).children@.len(),
    ensures
        decreases_to!(f => spec_base(f).children@[i]),
{
    lemma_base_decreases(f);
    lemma_base_child_decreases(spec_base(f), i);
}

/// A flow's base is structurally smaller than the flow.
pub proof fn lemma_base_decreases(f: Flow)
    ensures
        decreases_to!(f => spec_base(f)),
{
    match f {
        Flow::Block(b) => {
            assert(decreases_to!(f => b));
            assert(decreases_to!(b => b.base));
        },
        Flow::TableWrapper(b) => {
            assert(decreases_to!(f => b));
            assert(decreases_to!(b => b.base));
        },
        Flow::Table(b) => {
            assert(decreases_to!(f => b));
            assert(decreases_to!(b => b.base));
        },
        Flow::TableRowGroup(b) => {
            assert(decreases_to!(f => b));
            assert(decreases_to!(b => b.base));
        },
        Flow::TableRow(b) => {
            assert(decreases_to!(f => b));
            assert(decreases_to!(b => b.base));
        },
        Flow::TableCell(b) => {
            assert(decreases_to!(f => b));
            assert(decreases_to!(b => b.base));
        },
        Flow::TableColGroup(b) => {
            assert(decreases_to!(f => b));
            assert(decreases_to!(b => b.base));
        },
    }
}

/// A child is structurally smaller than the base holding it.
pub proof fn lemma_base_child_decreases(b: BaseFlow, i: int)
    requires
        0 <= i < b.children@.len(),
    ensures
        decreases_to!(b => b.children@[i]),
{
    assert(decreases_to!(b => b.children));
    assert(decreases_to!(b.children => b.children@));
    assert(decreases_to!(b.children@ => b.children@[i]));
}

/// A base equal to another except for its children.
pub open spec fn same_but_children(a: BaseFlow, b: BaseFlow) -> bool {
    a == (BaseFlow { children: a.children, ..b })
}

/// Repackaging a flow around a new base mirrors to repackaging the
/// mirror around the new base's mirror.
pub proof fn lemma_view_with_base(f: Flow, b: BaseFlow)
    ensures
        flow_view(spec_with_base(f, b)) == fv_with_base(
            flow_view(f),
            base_view(b, kids_seq_view(b.children@)),
        ),
{
    match f {
        Flow::Block(_) => {},
        Flow::TableWrapper(_) => {},
        Flow::Table(_) => {},
        Flow::TableRowGroup(_) => {},
        Flow::TableRow(_) => {},
        Flow::TableCell(_) => {},
        Flow::TableColGroup(_) => {},
    }
}

impl Flow {
    /// The per-node step of the bottom-up width pass, dispatched on the
    /// flow's kind. Children must already carry their bubbled widths.
    pub fn bubble_widths(&mut self)
        requires
            node_bubble_ok(flow_view(*old(self))),
        ensures
            flow_view(*final(self)) == node_bubble_model(flow_view(*old(self))),
    {
        match self {
            Flow::Block(b) => b.bubble_widths(),
            Flow::TableWrapper(w) => w.bubble_widths(),
            Flow::Table(t) => t.bubble_widths(),
            Flow::TableRowGroup(g) => g.bubble_widths(),
            Flow::TableRow(r) => r.bubble_widths(),
            Flow::TableCell(c) => c.bubble_widths(),
            Flow::TableColGroup(_) => {},
        }
    }

    /// The whole bottom-up width pass: bubbles every subtree, then this
    /// node.
    #[verifier::rlimit(100)]
    pub fn bubble_widths_tree(&mut self)
        requires
            bubble_tree_ok(flow_view(*old(self))),
        ensures
            flow_view(*final(self)) == bubble_tree_model(flow_view(*old(self))),
        decreases *old(self),
    {
        let ghost f0 = *old(self);
        let ghost fv0 = flow_view(f0);
        proof {
            lemma_bubble_tree_unfold(fv0);
            lemma_fv_base(f0);
            lemma_base_decreases(f0);
        }
        bubble_children(self.base_mut());
        proof {
            lemma_view_with_base(f0, spec_base(*self));
            lemma_kids_seq_view(spec_base(*self).children@);
            lemma_kids_seq_view(spec_base(f0).children@);
            lemma_bubble_kids_model_index(kids_seq_view(spec_base(f0).children@));
            assert forall|j: int| 0 <= j < spec_base(f0).children@.len() implies kids_seq_view(
                spec_base(*self).children@,
            )[j] == bubble_kids_model(kids_seq_view(spec_base(f0).children@))[j] by {
                assert(kids_seq_view(spec_base(f0).children@)[j] == flow_view(
                    spec_base(f0).children@[j],
                ));
                assert(flow_view(spec_base(*self).children@[j]) == bubble_tree_model(
                    flow_view(spec_base(f0).children@[j]),
                ));
            }
            assert(kids_seq_view(spec_base(*self).children@) =~= bubble_kids_model(
                kids_seq_view(spec_base(f0).children@),
            ));
            assert(flow_view(*self) == fv_with_children(
                fv0,
                bubble_kids_model(kids_seq_view(spec_base(f0).children@)),
            ));
        }
        self.bubble_widths();
    }
}

/// Runs the bottom-up width pass over every child of a base, in order.
fn bubble_children(base: &mut BaseFlow)
    requires
        bubble_kids_ok(kids_seq_view(old(base).children@)),
    ensures
        same_but_children(*final(base), *old(base)),
        final(base).children@.len() == old(base).children@.len(),
        forall|j: int|
            0 <= j < old(base).children@.len() ==> flow_view(
                #[trigger] final(base).children@[j],
            ) == bubble_tree_model(flow_view(old(base).children@[j])),
    decreases *old(base),
{
    let n = base.children.len();
    let mut i: usize = 0;
    while i < n
        invariant
            0 <= i <= n,
            n == old(base).children@.len(),
            base.children@.len() == n,
            same_but_children(*base, *old(base)),
            bubble_kids_ok(kids_seq_view(old(base).children@)),
            forall|j: int|
                0 <= j < i ==> flow_view(#[trigger] base.children@[j]) == bubble_tree_model(
                    flow_view(old(base).children@[j]),
                ),
            forall|j: int| i <= j < n ==> #[trigger] base.children@[j] == old(base).children@[j],
        decreases n - i,
    {
        proof {
            lemma_kids_seq_view(old(base).children@);
            lemma_bubble_kids_ok_index(kids_seq_view(old(base).children@), i as int);
            lemma_base_child_decreases(*old(base), i as int);
        }
        let kid = &mut base.children[i];
        proof {
            assert(*kid == old(base).children@[i as int]);
        }
        kid.bubble_widths_tree();
        i = i + 1;
    }
}

// ---------------------------------------------------------------------
// Monotonicity of the bubbled intrinsic widths.
// ---------------------------------------------------------------------
/// Every node of the tree has its minimum width at or below its
/// preferred width.
pub open spec fn tree_min_le_pref(fv: FlowV) -> bool
    decreases fv,
{
    match fv {
        FlowV::Block { base, .. } => base.min_width <= base.pref_width && kids_min_le_pref(
            base.children,
        ),
        FlowV::TableWrapper { base, .. } => base.min_width <= base.pref_width && kids_min_le_pref(
            base.children,
        ),
        FlowV::Table { base, .. } => base.min_width <= base.pref_width && kids_min_le_pref(
            base.children,
        ),
        FlowV::TableRowGroup { base, .. } => base.min_width <= base.pref_width && kids_min_le_pref(
            base.children,
        ),
        FlowV::TableRow { base, .. } => base.min_width <= base.pref_width && kids_min_le_pref(
            base.children,
        ),
        FlowV::TableCell { base, .. } => base.min_width <= base.pref_width && kids_min_le_pref(
            base.children,
        ),
        FlowV::TableColGroup { base, .. } => base.min_width <= base.pref_width && kids_min_le_pref(
            base.children,
        ),
    }
}

pub open spec fn kids_min_le_pref(kids: Seq<FlowV>) -> bool
    decreases kids,
{
    if kids.len() == 0 {
        true
    } else {
        kids_min_le_pref(kids.drop_last()) && tree_min_le_pref(kids.last())
    }
}

proof fn lemma_tree_min_le_pref_base(fv: FlowV)
    requires
        tree_min_le_pref(fv),
    ensures
        fv_base(fv).min_width <= fv_base(fv).pref_width,
        kids_min_le_pref(fv_base(fv).children),
{
    match fv {
        FlowV::Block { .. } => {},
        FlowV::TableWrapper { .. } => {},
        FlowV::Table { .. } => {},
        FlowV::TableRowGroup { .. } => {},
        FlowV::TableRow { .. } => {},
        FlowV::TableCell { .. } => {},
        FlowV::TableColGroup { .. } => {},
    }
}

proof fn lemma_kids_min_le_pref_index(kids: Seq<FlowV>, i: int)
    requires
        kids_min_le_pref(kids),
        0 <= i < kids.len(),
    ensures
        tree_min_le_pref(kids[i]),
    decreases kids.len(),
{
    if i == kids.len() - 1 {
        assert(kids.last() == kids[i]);
    } else {
        assert(kids.drop_last()[i] == kids[i]);
        lemma_kids_min_le_pref_index(kids.drop_last(), i);
    }
}

/// With every child's minimum at or below its preferred width, the
/// folds over the children respect the same order.
proof fn lemma_kids_folds_le(kids: Seq<FlowV>)
    requires
        forall|i: int|
            0 <= i < kids.len() ==> fv_base(#[trigger] kids[i]).min_width <= fv_base(
                kids[i],
            ).pref_width,
    ensures
        kids_min_max(kids) <= kids_pref_max(kids),
        kids_min_sum(kids) <= kids_pref_sum(kids),
    decreases kids.len(),
{
    if kids.len() > 0 {
        assert(forall|i: int| 0 <= i < kids.len() - 1 ==> kids.drop_last()[i] == kids[i]);
        lemma_kids_folds_le(kids.drop_last());
        assert(kids.last() == kids[kids.len() - 1]);
    }
}

proof fn lemma_wrapper_scan_le(kids: Seq<FlowV>, init_cols: Seq<int>, fixed: bool)
    requires
        forall|i: int|
            0 <= i < kids.len() ==> fv_base(#[trigger] kids[i]).min_width <= fv_base(
                kids[i],
            ).pref_width,
    ensures
        crate::table_wrapper::wrapper_scan(kids, init_cols, fixed).1
            <= crate::table_wrapper::wrapper_scan(kids, init_cols, fixed).2,
    decreases kids.len(),
{
    if kids.len() > 0 {
        assert(forall|i: int| 0 <= i < kids.len() - 1 ==> kids.drop_last()[i] == kids[i]);
        lemma_wrapper_scan_le(kids.drop_last(), init_cols, fixed);
        assert(kids.last() == kids[kids.len() - 1]);
    }
}

proof fn lemma_table_scan_le(kids: Seq<FlowV>, init_cols: Seq<int>, init_mins: Seq<int>)
    requires
        forall|i: int|
            0 <= i < kids.len() ==> fv_base(#[trigger] kids[i]).min_width <= fv_base(
                kids[i],
            ).pref_width,
    ensures
        crate::table_misc::table_scan(kids, init_cols, init_mins).2 <= crate::table_misc::table_scan(
            kids,
            init_cols,
            init_mins,
        ).3,
    decreases kids.len(),
{
    if kids.len() > 0 {
        assert(forall|i: int| 0 <= i < kids.len() - 1 ==> kids.drop_last()[i] == kids[i]);
        lemma_table_scan_le(kids.drop_last(), init_cols, init_mins);
        assert(kids.last() == kids[kids.len() - 1]);
    }
}

/// After the bottom-up width pass, every flow in the tree has
/// `min_width <= pref_width`: a box never needs more than it prefers.
pub proof fn lemma_bubble_min_le_pref(fv: FlowV)
    requires
        bubble_tree_ok(fv),
    ensures
        tree_min_le_pref(bubble_tree_model(fv)),
    decreases fv,
{
    lemma_bubble_tree_unfold(fv);
    let kids = fv_base(fv).children;
    lemma_fv_children_decreases(fv);
    lemma_bubble_kids_min_le_pref(kids);
    let bk = bubble_kids_model(kids);
    lemma_bubble_kids_model_index(kids);
    assert forall|i: int| 0 <= i < bk.len() implies fv_base(#[trigger] bk[i]).min_width <= fv_base(
        bk[i],
    ).pref_width by {
        lemma_kids_min_le_pref_index(bk, i);
        lemma_tree_min_le_pref_base(bk[i]);
    }
    let fv2 = fv_with_children(fv, bk);
    match fv {
        FlowV::Block { .. } => {
            lemma_kids_folds_le(bk);
        },
        FlowV::TableWrapper { col_widths, is_fixed_layout, .. } => {
            lemma_wrapper_scan_le(bk, col_widths, is_fixed_layout);
        },
        FlowV::Table { col_widths, cell_min_widths, .. } => {
            lemma_table_scan_le(bk, col_widths, cell_min_widths);
        },
        FlowV::TableRowGroup { .. } => {
            lemma_kids_folds_le(bk);
        },
        FlowV::TableRow { .. } => {},
        FlowV::TableCell { .. } => {
            lemma_kids_folds_le(bk);
        },
        FlowV::TableColGroup { .. } => {},
    }
}

proof fn lemma_bubble_kids_min_le_pref(kids: Seq<FlowV>)
    requires
        bubble_kids_ok(kids),
    ensures
        kids_min_le_pref(bubble_kids_model(kids)),
    decreases kids,
{
    if kids.len() > 0 {
        lemma_bubble_kids_min_le_pref(kids.drop_last());
        assert(decreases_to!(kids => kids.last()));
        lemma_bubble_min_le_pref(kids.last());
        assert(bubble_kids_model(kids).drop_last() =~= bubble_kids_model(kids.drop_last()));
        assert(bubble_kids_model(kids).last() == bubble_tree_model(kids.last()));
    }
}

/// A mirrored flow's children are structurally smaller than it.
proof fn lemma_fv_children_decreases(fv: FlowV)
    ensures
        decreases_to!(fv => fv_base(fv).children),
{
    match fv {
        FlowV::Block { base, .. } => {
            assert(decreases_to!(fv => base));
            assert(decreases_to!(base => base.children));
        },
        FlowV::TableWrapper { base, .. } => {
            assert(decreases_to!(fv => base));
            assert(decreases_to!(base => base.children));
        },
        FlowV::Table { base, .. } => {
            assert(decreases_to!(fv => base));
            assert(decreases_to!(base => base.children));
        },
        FlowV::TableRowGroup { base, .. } => {
            assert(decreases_to!(fv => base));
            assert(decreases_to!(base => base.children));
        },
        FlowV::TableRow { base, .. } => {
            assert(decreases_to!(fv => base));
            assert(decreases_to!(base => base.children));
        },
        FlowV::TableCell { base, .. } => {
            assert(decreases_to!(fv => base));
            assert(decreases_to!(base => base.children));
        },
        FlowV::TableColGroup { base, .. } => {
            assert(decreases_to!(fv => base));
            assert(decreases_to!(base => base.children));
        },
    }
}

// ---------------------------------------------------------------------
// The size of a tree: the measure of the top-down passes, which rewrite
// fields before they recurse.
// ---------------------------------------------------------------------
/// The number of nodes in a mirrored tree.
pub open spec fn fv_size(fv: FlowV) -> nat
    decreases fv,
{
    match fv {
        FlowV::Block { base, .. } => 1 + kids_size(base.children),
        FlowV::TableWrapper { base, .. } => 1 + kids_size(base.children),
        FlowV::Table { base, .. } => 1 + kids_size(base.children),
        FlowV::TableRowGroup { base, .. } => 1 + kids_size(base.children),
        FlowV::TableRow { base, .. } => 1 + kids_size(base.children),
        FlowV::TableCell { base, .. } => 1 + kids_size(base.children),
        FlowV::TableColGroup { base, .. } => 1 + kids_size(base.children),
    }
}

pub open spec fn kids_size(kids: Seq<FlowV>) -> nat
    decreases kids,
{
    if kids.len() == 0 {
        0
    } else {
        kids_size(kids.drop_last()) + fv_size(kids.last())
    }
}

pub proof fn lemma_fv_size_unfold(fv: FlowV)
    ensures
        fv_size(fv) == 1 + kids_size(fv_base(fv).children),
{
    match fv {
        FlowV::Block { .. } => {},
        FlowV::TableWrapper { .. } => {},
        FlowV::Table { .. } => {},
        FlowV::TableRowGroup { .. } => {},
        FlowV::TableRow { .. } => {},
        FlowV::TableCell { .. } => {},
        FlowV::TableColGroup { .. } => {},
    }
}

/// Each child accounts for part of the list's size.
pub proof fn lemma_kids_size_index(kids: Seq<FlowV>, i: int)
    requires
        0 <= i < kids.len(),
    ensures
        fv_size(kids[i]) <= kids_size(kids),
    decreases kids.len(),
{
    if i == kids.len() - 1 {
        assert(kids.last() == kids[i]);
    } else {
        assert(kids.drop_last()[i] == kids[i]);
        lemma_kids_size_index(kids.drop_last(), i);
    }
}

/// Lists of trees of equal sizes have equal total size.
pub proof fn lemma_kids_size_congruent(a: Seq<FlowV>, b: Seq<FlowV>)
    requires
        a.len() == b.len(),
        forall|i: int| 0 <= i < a.len() ==> fv_size(#[trigger] a[i]) == fv_size(b[i]),
    ensures
        kids_size(a) == kids_size(b),
    decreases a.len(),
{
    if a.len() > 0 {
        assert(forall|i: int| 0 <= i < a.len() - 1 ==> a.drop_last()[i] == a[i]);
        assert(forall|i: int| 0 <= i < b.len() - 1 ==> b.drop_last()[i] == b[i]);
        lemma_kids_size_congruent(a.drop_last(), b.drop_last());
        assert(a.last() == a[a.len() - 1] && b.last() == b[b.len() - 1]);
    }
}

/// Replacing a node's non-child data keeps its size; replacing its
/// children replaces their share.
pub proof fn lemma_size_with_base(fv: FlowV, b: BaseV)
    ensures
        fv_size(fv_with_base(fv, b)) == 1 + kids_size(b.children),
{
    match fv {
        FlowV::Block { .. } => {},
        FlowV::TableWrapper { .. } => {},
        FlowV::Table { .. } => {},
        FlowV::TableRowGroup { .. } => {},
        FlowV::TableRow { .. } => {},
        FlowV::TableCell { .. } => {},
        FlowV::TableColGroup { .. } => {},
    }
}

// ---------------------------------------------------------------------
// Propagation of assigned widths to children, shared by the top-down
// width pass of blocks, tables and row groups.
// ---------------------------------------------------------------------
/// The x/width state handed to child `i`: table cells consume column
/// widths left to right (the first cell starting at zero); every other
/// child keeps the running state.
pub open spec fn prop_child_state(kid: FlowV, i: int, st: (int, int), cols: Option<Seq<int>>) -> (
    int,
    int,
) {
    match cols {
        Some(cs) => if kid is TableCell {
            (
                if i == 0 {
                    0
                } else {
                    st.0 + cs[i - 1]
                },
                cs[i],
            )
        } else {
            st
        },
        None => st,
    }
}

/// One child after propagation: row groups and rows receive the column
/// widths; every child gets its position, width, in-order bit, inherited
/// text properties, and an empty float context when it is not in order.
pub open spec fn prop_child_update(
    kid: FlowV,
    st2: (int, int),
    cols: Option<Seq<int>>,
    parent_flags: FlagsInfo,
    has_inorder: bool,
) -> FlowV {
    let kid1 = match cols {
        Some(cs) => match kid {
            FlowV::TableRowGroup { box_, base, .. } => FlowV::TableRowGroup {
                box_,
                col_widths: cs,
                base,
            },
            FlowV::TableRow {
                box_,
                is_fixed,
                float,
                col_min_widths,
                col_pref_widths,
                base,
                ..
            } => FlowV::TableRow {
                box_,
                is_fixed,
                float,
                col_widths: cs,
                col_min_widths,
                col_pref_widths,
                base,
            },
            _ => kid,
        },
        None => kid,
    };
    let b = fv_base(kid1);
    let flags2 = FlagsInfo {
        text_align: parent_flags.text_align,
        text_decoration: propagated_decoration(parent_flags, b.flags_info),
        inorder: has_inorder,
    };
    let floats2 = if !has_inorder {
        FloatContextV::Present(Seq::empty())
    } else {
        b.floats_in
    };
    fv_with_base(
        kid1,
        BaseV {
            position: RectV {
                origin: PointV { x: st2.0, y: b.position.origin.y },
                size: SizeV { width: st2.1, height: b.position.size.height },
            },
            flags_info: flags2,
            floats_in: floats2,
            ..b
        },
    )
}

/// The whole propagation, left to right; returns the updated children
/// and the final x/width state.
pub open spec fn propagate_scan(
    kids: Seq<FlowV>,
    init: (int, int),
    cols: Option<Seq<int>>,
    parent_flags: FlagsInfo,
    has_inorder: bool,
) -> (Seq<FlowV>, (int, int))
    decreases kids.len(),
{
    if kids.len() == 0 {
        (Seq::empty(), init)
    } else {
        let t = propagate_scan(kids.drop_last(), init, cols, parent_flags, has_inorder);
        let st2 = prop_child_state(kids.last(), kids.len() - 1, t.1, cols);
        (t.0.push(prop_child_update(kids.last(), st2, cols, parent_flags, has_inorder)), st2)
    }
}

/// What propagation needs of the inputs: states within range, and a
/// column width for every cell child.
pub open spec fn prop_scan_ok(
    kids: Seq<FlowV>,
    init: (int, int),
    cols: Option<Seq<int>>,
) -> bool
    decreases kids.len(),
{
    if kids.len() == 0 {
        in_solve_range(init.0) && in_solve_range(init.1)
    } else {
        let t = propagate_scan(kids.drop_last(), init, cols, default_flags(), false);
        let st2 = prop_child_state(kids.last(), kids.len() - 1, t.1, cols);
        &&& prop_scan_ok(kids.drop_last(), init, cols)
        &&& (kids.last() is TableCell && cols is Some ==> kids.len() - 1
            < cols->0.len())
        &&& in_solve_range(st2.0)
        &&& in_solve_range(st2.1)
    }
}

pub open spec fn in_solve_range(v: int) -> bool {
    -crate::horizontal::SOLVE_LIMIT * 16 <= v <= crate::horizontal::SOLVE_LIMIT * 16
}

/// Whether a flow's children are laid out by the in-order (float
/// threading) height traversal.
pub open spec fn has_inorder_spec(is_float: bool, inorder: bool, num_floats: int) -> bool {
    if is_float {
        num_floats > 0
    } else {
        inorder || num_floats > 0
    }
}

/// The propagated state does not depend on the flags, and the updated
/// children are the children updated, one for one.
pub proof fn lemma_propagate_scan_index(
    kids: Seq<FlowV>,
    init: (int, int),
    cols: Option<Seq<int>>,
    parent_flags: FlagsInfo,
    has_inorder: bool,
)
    ensures
        propagate_scan(kids, init, cols, parent_flags, has_inorder).0.len() == kids.len(),
        propagate_scan(kids, init, cols, parent_flags, has_inorder).1 == propagate_scan(
            kids,
            init,
            cols,
            default_flags(),
            false,
        ).1,
        forall|i: int|
            0 <= i < kids.len() ==> propagate_scan(kids, init, cols, parent_flags, has_inorder).0[i]
                == prop_child_update(
                #[trigger] kids[i],
                prop_child_state(
                    kids[i],
                    i,
                    propagate_scan(kids.subrange(0, i), init, cols, default_flags(), false).1,
                    cols,
                ),
                cols,
                parent_flags,
                has_inorder,
            ),
    decreases kids.len(),
{
    if kids.len() > 0 {
        lemma_propagate_scan_index(kids.drop_last(), init, cols, parent_flags, has_inorder);
        assert(forall|i: int| 0 <= i < kids.len() - 1 ==> kids.drop_last()[i] == kids[i]);
        assert(kids.last() == kids[kids.len() - 1]);
        assert(kids.subrange(0, kids.len() - 1) =~= kids.drop_last());
        assert forall|i: int| 0 <= i < kids.len() - 1 implies kids.drop_last().subrange(0, i)
            =~= kids.subrange(0, i) by {}
    }
}

pub open spec fn opt_cols_view(cols: Option<&Vec<Au>>) -> Option<Seq<int>> {
    match cols {
        Some(v) => Some(au_seq(v@)),
        None => None,
    }
}

/// An element-for-element copy of a width vector.
pub fn copy_aus(src: &Vec<Au>) -> (r: Vec<Au>)
    ensures
        r@ == src@,
{
    let mut r: Vec<Au> = Vec::new();
    let mut i: usize = 0;
    while i < src.len()
        invariant
            0 <= i <= src@.len(),
            r@ =~= src@.subrange(0, i as int),
        decreases src@.len() - i,
    {
        r.push(src[i]);
        i = i + 1;
    }
    proof {
        assert(src@.subrange(0, src@.len() as int) =~= src@);
    }
    r
}

/// Applies the propagated values to one child.
pub fn prop_update_child(
    kid: &mut Flow,
    x: Au,
    w: Au,
    opt_cols: Option<&Vec<Au>>,
    parent_flags: &FlagsInfo,
    has_inorder: bool,
)
    ensures
        flow_view(*final(kid)) == prop_child_update(
            flow_view(*old(kid)),
            (x@, w@),
            opt_cols_view(opt_cols),
            *parent_flags,
            has_inorder,
        ),
{
    let ghost kid0 = *old(kid);
    match (opt_cols, &mut *kid) {
        (Some(cols), Flow::TableRowGroup(g)) => {
            g.col_widths = copy_aus(cols);
        },
        (Some(cols), Flow::TableRow(r)) => {
            r.col_widths = copy_aus(cols);
        },
        _ => {},
    }
    let ghost kid_mid = *kid;
    let kb = kid.base_mut();
    kb.position.origin.x = x;
    kb.position.size.width = w;
    kb.flags_info.set_inorder(has_inorder);
    if !kb.flags_info.inorder() {
        kb.floats_in = FloatContext::new(0);
    }
    kb.flags_info.propagate_text_decoration_from_parent(parent_flags);
    kb.flags_info.propagate_text_alignment_from_parent(parent_flags);
    proof {
        lemma_view_with_base(kid_mid, spec_base(*kid));
        lemma_fv_base(kid_mid);
        lemma_fv_base(kid0);
        lemma_view_variant(kid0);
        assert(flow_view(*kid) == prop_child_update(
            flow_view(kid0),
            (x@, w@),
            opt_cols_view(opt_cols),
            *parent_flags,
            has_inorder,
        ));
    }
}

/// Assigns the computed x offset and width to every child, hands table
/// children the column widths, marks children in order or not, resets
/// the float context of children out of order, and propagates the
/// inherited text properties.
#[verifier::rlimit(100)]
pub fn propagate_children(
    children: &mut Vec<Flow>,
    x_offset: Au,
    remaining_width: Au,
    opt_cols: Option<&Vec<Au>>,
    parent_flags: &FlagsInfo,
    has_inorder: bool,
)
    requires
        prop_scan_ok(
            kids_seq_view(old(children)@),
            (x_offset@, remaining_width@),
            opt_cols_view(opt_cols),
        ),
    ensures
        final(children)@.len() == old(children)@.len(),
        kids_seq_view(final(children)@) == propagate_scan(
            kids_seq_view(old(children)@),
            (x_offset@, remaining_width@),
            opt_cols_view(opt_cols),
            *parent_flags,
            has_inorder,
        ).0,
{
    let ghost kids0 = kids_seq_view(old(children)@);
    let ghost colsv = opt_cols_view(opt_cols);
    let ghost init = (x_offset@, remaining_width@);
    proof {
        lemma_kids_seq_view(old(children)@);
        lemma_prop_scan_ok_prefix(kids0, init, colsv, 0);
        assert(kids0.subrange(0, 0) =~= Seq::<FlowV>::empty());
    }
    let mut kid_x_offset = x_offset;
    let mut kid_width = remaining_width;
    let n = children.len();
    let mut i: usize = 0;
    proof {
        assert(kids0.subrange(0, 0) =~= Seq::<FlowV>::empty());
    }
    while i < n
        invariant
            0 <= i <= n,
            n == old(children)@.len(),
            children@.len() == n,
            kids0 == kids_seq_view(old(children)@),
            kids0.len() == n,
            colsv == opt_cols_view(opt_cols),
            init == (x_offset@, remaining_width@),
            prop_scan_ok(kids0, init, colsv),
            (kid_x_offset@, kid_width@) == propagate_scan(
                kids0.subrange(0, i as int),
                init,
                colsv,
                default_flags(),
                false,
            ).1,
            in_solve_range(kid_x_offset@),
            in_solve_range(kid_width@),
            forall|j: int|
                0 <= j < i ==> flow_view(#[trigger] children@[j]) == propagate_scan(
                    kids0,
                    init,
                    colsv,
                    *parent_flags,
                    has_inorder,
                ).0[j],
            forall|j: int| i <= j < n ==> #[trigger] children@[j] == old(children)@[j],
        decreases n - i,
    {
        proof {
            lemma_kids_seq_view(old(children)@);
            assert(kids0[i as int] == flow_view(old(children)@[i as int]));
            lemma_view_variant(old(children)@[i as int]);
            lemma_prop_scan_ok_prefix(kids0, init, colsv, i + 1);
            assert(kids0.subrange(0, i + 1).drop_last() =~= kids0.subrange(0, i as int));
            assert(kids0.subrange(0, i + 1).last() == kids0[i as int]);
        }
        match opt_cols {
            Some(cols) => {
                let is_cell = match &children[i] {
                    Flow::TableCell(_) => true,
                    _ => false,
                };
                if is_cell {
                    if i == 0 {
                        kid_x_offset = Au(0);
                    } else {
                        kid_x_offset = Au(kid_x_offset.0 + cols[i - 1].0);
                    }
                    kid_width = cols[i];
                }
            },
            None => {},
        }
        proof {
            assert((kid_x_offset@, kid_width@) == prop_child_state(
                kids0[i as int],
                i as int,
                propagate_scan(kids0.subrange(0, i as int), init, colsv, default_flags(), false).1,
                colsv,
            ));
        }
        let kid = &mut children[i];
        prop_update_child(kid, kid_x_offset, kid_width, opt_cols, parent_flags, has_inorder);
        proof {
            assert(flow_view(children@[i as int]) == propagate_scan(
                kids0,
                init,
                colsv,
                *parent_flags,
                has_inorder,
            ).0[i as int]) by {
                lemma_propagate_scan_index(kids0, init, colsv, *parent_flags, has_inorder);
            }
        }
        i = i + 1;
    }
    proof {
        lemma_kids_seq_view(children@);
        lemma_propagate_scan_index(kids0, init, colsv, *parent_flags, has_inorder);
        assert(kids_seq_view(children@) =~= propagate_scan(
            kids0,
            init,
            colsv,
            *parent_flags,
            has_inorder,
        ).0);
    }
}

/// A prefix of an accepted propagation is accepted.
pub proof fn lemma_prop_scan_ok_prefix(
    kids: Seq<FlowV>,
    init: (int, int),
    cols: Option<Seq<int>>,
    i: int,
)
    requires
        prop_scan_ok(kids, init, cols),
        0 <= i <= kids.len(),
    ensures
        prop_scan_ok(kids.subrange(0, i), init, cols),
    decreases kids.len() - i,
{
    if i == kids.len() {
        assert(kids.subrange(0, i) =~= kids);
    } else {
        assert(kids.subrange(0, i + 1).drop_last() =~= kids.subrange(0, i));
        lemma_prop_scan_ok_prefix_step(kids, init, cols, i);
    }
}

proof fn lemma_prop_scan_ok_prefix_step(
    kids: Seq<FlowV>,
    init: (int, int),
    cols: Option<Seq<int>>,
    i: int,
)
    requires
        prop_scan_ok(kids, init, cols),
        0 <= i < kids.len(),
    ensures
        prop_scan_ok(kids.subrange(0, i), init, cols),
    decreases kids.len(),
{
    if i == kids.len() - 1 {
        assert(kids.drop_last() =~= kids.subrange(0, i));
    } else {
        lemma_prop_scan_ok_prefix_step(kids.drop_last(), init, cols, i);
        assert(kids.drop_last().subrange(0, i) =~= kids.subrange(0, i));
    }
}

// ---------------------------------------------------------------------
// The display-list pass, shared by all flow kinds.
// ---------------------------------------------------------------------
/// What one node of the pre-order display pass does: return early when
/// the node's absolute rectangle misses the dirty rectangle; otherwise
/// paint the box (shifted by the node's absolute position plus, for a
/// float, its placement offset) and give each child its absolute
/// position.
pub open spec fn dlist_model(
    base: BaseV,
    box_: Option<BoxV>,
    extra: PointV,
    dirty: RectV,
    list: Seq<RectV>,
) -> (BaseV, Seq<RectV>, bool) {
    let abs_rect = RectV { origin: base.abs_position, size: base.position.size };
    if !crate::geometry::rects_intersect(abs_rect, dirty) {
        (base, list, true)
    } else {
        let offset = crate::geometry::point_add(base.abs_position, extra);
        let list2 = match box_ {
            Some(b) => crate::display_list::box_paint_model(b, offset, dirty, list),
            None => list,
        };
        let kids2 = Seq::new(
            base.children.len(),
            |i: int|
                fv_with_base(
                    base.children[i],
                    BaseV {
                        abs_position: crate::geometry::point_add(
                            offset,
                            fv_base(base.children[i]).position.origin,
                        ),
                        ..fv_base(base.children[i])
                    },
                ),
        );
        (BaseV { children: kids2, ..base }, list2, false)
    }
}

/// What the display pass needs: coordinates within range.
pub open spec fn dlist_ok(base: BaseV, box_: Option<BoxV>, extra: PointV) -> bool {
    &&& in_solve_range(base.abs_position.x)
    &&& in_solve_range(base.abs_position.y)
    &&& in_solve_range(extra.x)
    &&& in_solve_range(extra.y)
    &&& (box_ matches Some(b) ==> in_solve_range(b.position.origin.x) && in_solve_range(
        b.position.origin.y,
    ))
    &&& forall|i: int|
        0 <= i < base.children.len() ==> in_solve_range(
            fv_base(#[trigger] base.children[i]).position.origin.x,
        ) && in_solve_range(fv_base(base.children[i]).position.origin.y)
}

/// The extra display offset of a flow: a float's placement offset,
/// zero for anything else.
pub open spec fn dl_extra(fi: Option<FloatInfoV>) -> PointV {
    match fi {
        Some(i) => i.rel_pos,
        None => PointV { x: 0, y: 0 },
    }
}

/// Absolute positions stay within a loose coordinate range.
pub open spec fn wide_range(v: int) -> bool {
    -crate::geometry::MAX_AU * 100_000 <= v <= crate::geometry::MAX_AU * 100_000
}

/// Gives one child its absolute position.
fn set_child_abs(kid: &mut Flow, offset: Point2D)
    requires
        wide_range(offset@.x),
        wide_range(offset@.y),
        in_solve_range(fv_base(flow_view(*old(kid))).position.origin.x),
        in_solve_range(fv_base(flow_view(*old(kid))).position.origin.y),
    ensures
        flow_view(*final(kid)) == fv_with_base(
            flow_view(*old(kid)),
            BaseV {
                abs_position: crate::geometry::point_add(
                    offset@,
                    fv_base(flow_view(*old(kid))).position.origin,
                ),
                ..fv_base(flow_view(*old(kid)))
            },
        ),
{
    let ghost kid0 = *old(kid);
    proof {
        lemma_fv_base(kid0);
    }
    let kb = kid.base_mut();
    kb.abs_position = Point2D {
        x: Au(offset.x.0 + kb.position.origin.x.0),
        y: Au(offset.y.0 + kb.position.origin.y.0),
    };
    proof {
        lemma_view_with_base(kid0, spec_base(*kid));
        lemma_fv_base(kid0);
    }
}

/// The shared body of the per-kind display-list methods.
#[verifier::rlimit(100)]
pub fn build_display_list_base(
    base: &mut BaseFlow,
    box_: &Option<crate::box_model::LayoutBox>,
    extra: Point2D,
    dirty: &Rect,
    list: &mut crate::display_list::DisplayList,
) -> (r: bool)
    requires
        dlist_ok(
            base_view(*old(base), kids_seq_view(old(base).children@)),
            opt_box_view(*box_),
            extra@,
        ),
    ensures
        ({
            let m = dlist_model(
                base_view(*old(base), kids_seq_view(old(base).children@)),
                opt_box_view(*box_),
                extra@,
                dirty@,
                crate::display_list::dl_view(*old(list)),
            );
            &&& base_view(*final(base), kids_seq_view(final(base).children@)) == m.0
            &&& crate::display_list::dl_view(*final(list)) == m.1
            &&& r == m.2
        }),
{
    let ghost bv0 = base_view(*old(base), kids_seq_view(old(base).children@));
    proof {
        lemma_kids_seq_view(old(base).children@);
    }
    let abs_rect = Rect { origin: base.abs_position, size: base.position.size };
    if !abs_rect.intersects(dirty) {
        return true;
    }
    let offset = Point2D {
        x: Au(base.abs_position.x.0 + extra.x.0),
        y: Au(base.abs_position.y.0 + extra.y.0),
    };
    match box_ {
        Some(bx) => {
            bx.build_display_list(&crate::display_list::DisplayListBuilder {}, dirty, offset, list);
        },
        None => {},
    }
    let ghost mid = *base;
    let n = base.children.len();
    let mut i: usize = 0;
    while i < n
        invariant
            0 <= i <= n,
            n == old(base).children@.len(),
            base.children@.len() == n,
            bv0 == base_view(*old(base), kids_seq_view(old(base).children@)),
            dlist_ok(bv0, opt_box_view(*box_), extra@),
            *base == (BaseFlow { children: base.children, ..*old(base) }),
            wide_range(offset@.x),
            wide_range(offset@.y),
            offset@ == crate::geometry::point_add(bv0.abs_position, extra@),
            forall|j: int|
                0 <= j < i ==> flow_view(#[trigger] base.children@[j]) == fv_with_base(
                    kids_seq_view(old(base).children@)[j],
                    BaseV {
                        abs_position: crate::geometry::point_add(
                            offset@,
                            fv_base(kids_seq_view(old(base).children@)[j]).position.origin,
                        ),
                        ..fv_base(kids_seq_view(old(base).children@)[j])
                    },
                ),
            forall|j: int| i <= j < n ==> #[trigger] base.children@[j] == old(base).children@[j],
        decreases n - i,
    {
        proof {
            lemma_kids_seq_view(old(base).children@);
            assert(kids_seq_view(old(base).children@)[i as int] == flow_view(
                old(base).children@[i as int],
            ));
        }
        let kid = &mut base.children[i];
        proof {
            assert(*kid == old(base).children@[i as int]);
        }
        set_child_abs(kid, offset);
        i = i + 1;
    }
    proof {
        lemma_kids_seq_view(base.children@);
        assert(kids_seq_view(base.children@) =~= dlist_model(
            bv0,
            opt_box_view(*box_),
            extra@,
            dirty@,
            crate::display_list::dl_view(*old(list)),
        ).0.children);
    }
    false
}

pub open spec fn spec_class(f: Flow) -> FlowClass {
    match f {
        Flow::Block(_) => FlowClass::BlockFlowClass,
        Flow::TableWrapper(_) => FlowClass::TableWrapperFlowClass,
        Flow::Table(_) => FlowClass::TableFlowClass,
        Flow::TableRowGroup(_) => FlowClass::TableRowGroupFlowClass,
        Flow::TableRow(_) => FlowClass::TableRowFlowClass,
        Flow::TableCell(_) => FlowClass::TableCellFlowClass,
        Flow::TableColGroup(_) => FlowClass::TableColGroupFlowClass,
    }
}

} // verus!
