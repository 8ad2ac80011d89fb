use flow_layout::block::BlockFlow;
use flow_layout::box_model::LayoutBox;
use flow_layout::display_list::DisplayList;
use flow_layout::display_list::DisplayListBuilder;
use flow_layout::float_context::FloatContext;
use flow_layout::float_context::FloatType;
use flow_layout::float_context::PlacementInfo;
use flow_layout::flow::BaseFlow;
use flow_layout::flow::Flow;
use flow_layout::flow::FlowClass;
use flow_layout::flow::LayoutContext;
use flow_layout::geometry::Au;
use flow_layout::geometry::Point2D;
use flow_layout::geometry::Rect;
use flow_layout::geometry::Size2D;
use flow_layout::model::LengthOrPercentage;
use flow_layout::model::LengthOrPercentageOrAuto;
use flow_layout::model::LengthOrPercentageOrNone;
use flow_layout::model::MaybeAuto;
use flow_layout::style::ClearType;
use flow_layout::style::ComputedValues;
use flow_layout::table_misc::TableColGroupFlow;
use flow_layout::table_misc::TableFlow;
use flow_layout::table_row::TableRowFlow;
use flow_layout::table_wrapper::TableWrapperFlow;

/// One CSS pixel in app units.
const PX: i64 = 60;

fn px(v: i64) -> Au {
    Au(v * PX)
}

fn style() -> ComputedValues {
    ComputedValues::initial()
}

fn ctx(width_px: i64, height_px: i64) -> LayoutContext {
    LayoutContext::new(Size2D::new(px(width_px), px(height_px)))
}

/// Three auto-margin blocks of width 200 inside a 600-wide container
/// each get margins of 200 on both sides.
#[test]
fn auto_margins_split_evenly() {
    let block = BlockFlow::new(BaseFlow::new(1));
    let mut st = style();
    st.width = LengthOrPercentageOrAuto::Length(px(200));
    st.margin_left = LengthOrPercentageOrAuto::Auto;
    st.margin_right = LengthOrPercentageOrAuto::Auto;
    let bx = LayoutBox::new(st);
    for _ in 0..3 {
        let (w, ml, mr) = block.compute_block_margins(&bx, px(600), px(600));
        assert_eq!(w, px(200));
        assert_eq!(ml, px(200));
        assert_eq!(mr, px(200));
    }
}

/// Over-constrained: width 100, margins 50 and 50, available 300; the
/// right margin is recomputed to 150.
#[test]
fn over_constrained_recomputes_right_margin() {
    let block = BlockFlow::new(BaseFlow::new(1));
    let (w, ml, mr) = block.compute_horiz(
        MaybeAuto::Specified(px(100)),
        MaybeAuto::Specified(px(50)),
        MaybeAuto::Specified(px(50)),
        px(300),
    );
    assert_eq!(w, px(100));
    assert_eq!(ml, px(50));
    assert_eq!(mr, px(150));
}

/// Width conservation: with a specified width and two finite margins,
/// the used values fill the available width exactly.
#[test]
fn width_conservation() {
    let block = BlockFlow::new(BaseFlow::new(1));
    let mut st = style();
    st.width = LengthOrPercentageOrAuto::Length(px(120));
    st.margin_left = LengthOrPercentageOrAuto::Length(px(7));
    st.margin_right = LengthOrPercentageOrAuto::Length(px(11));
    let bx = LayoutBox::new(st);
    let (w, ml, mr) = block.compute_block_margins(&bx, px(500), px(500));
    assert_eq!(ml.0 + w.0 + mr.0, px(500).0);
}

/// Max/min clamp: when max-width < min-width, the used width is the
/// min-width.
#[test]
fn max_smaller_than_min_clamps_to_min() {
    let block = BlockFlow::new(BaseFlow::new(1));
    let mut st = style();
    st.width = LengthOrPercentageOrAuto::Length(px(500));
    st.max_width = LengthOrPercentageOrNone::Length(px(50));
    st.min_width = LengthOrPercentage::Length(px(90));
    let bx = LayoutBox::new(st);
    let (w, _, _) = block.compute_block_margins(&bx, px(600), px(600));
    assert_eq!(w, px(90));
}

/// Shrink-to-fit: a float of intrinsic (min 50, pref 120) in a
/// remaining width of 80 gets width max(50, min(120, 80)) = 80.
#[test]
fn float_shrink_to_fit() {
    let mut base = BaseFlow::new(1);
    base.min_width = px(50);
    base.pref_width = px(120);
    let block = BlockFlow::new_float(base, FloatType::FloatLeft);
    let bx = LayoutBox::new(style());
    let (w, ml, mr) = block.compute_float_margins(&bx, px(80));
    assert_eq!(w, px(80));
    assert_eq!(ml, px(0));
    assert_eq!(mr, px(0));
}

/// Table wrapper 400 wide with declared column widths [100, 0, 0]:
/// after distribution the inner table sees [100, 150, 150].
#[test]
fn table_column_distribution() {
    let mut base = BaseFlow::new(1);
    base.position.size.width = px(400);
    let table = TableFlow::new(BaseFlow::new(2));
    base.children.push(Flow::Table(table));
    let mut wrapper = TableWrapperFlow::new(base);
    wrapper.col_widths = vec![px(100), px(0), px(0)];
    wrapper.assign_widths(&ctx(400, 400));
    match &wrapper.base.children[0] {
        Flow::Table(t) => {
            assert_eq!(t.col_widths, vec![px(100), px(150), px(150)]);
            assert_eq!(t.base.position.size.width, px(400));
        }
        _ => panic!("the wrapper's child is the inner table"),
    }
}

/// Bottom-up widths of a block: the widest child wins, and the box's
/// own borders are added on top.
#[test]
fn block_bubble_takes_widest_child() {
    let mut base = BaseFlow::new(1);
    let mut kid_a = BaseFlow::new(2);
    kid_a.min_width = px(30);
    kid_a.pref_width = px(70);
    let mut kid_b = BaseFlow::new(3);
    kid_b.min_width = px(40);
    kid_b.pref_width = px(60);
    base.children.push(Flow::Block(BlockFlow::new(kid_a)));
    base.children.push(Flow::Block(BlockFlow::new(kid_b)));
    let mut st = style();
    st.border_left = px(1);
    st.border_right = px(2);
    let mut block = BlockFlow::from_box(base, LayoutBox::new(st), false);
    block.bubble_widths();
    assert_eq!(block.base.min_width, px(43));
    assert_eq!(block.base.pref_width, px(73));
    assert!(block.base.min_width.0 <= block.base.pref_width.0);
}

/// The whole bottom-up pass leaves min at or below pref on every node.
#[test]
fn bubble_tree_keeps_min_below_pref() {
    let mut root_base = BaseFlow::new(1);
    let mut inner = BaseFlow::new(2);
    let mut leaf = BaseFlow::new(3);
    let mut st = style();
    st.width = LengthOrPercentageOrAuto::Length(px(25));
    leaf.children = Vec::new();
    inner
        .children
        .push(Flow::Block(BlockFlow::from_box(leaf, LayoutBox::new(st), false)));
    root_base.children.push(Flow::Block(BlockFlow::new(inner)));
    let mut root = Flow::Block(BlockFlow::new_root(root_base));
    root.bubble_widths_tree();
    let base = root.base();
    assert_eq!(base.min_width, px(25));
    assert_eq!(base.pref_width, px(25));
}

/// The top-down width pass hands the root's width to its children.
#[test]
fn assign_widths_propagates_to_children() {
    let mut base = BaseFlow::new(1);
    base.children.push(Flow::Block(BlockFlow::new(BaseFlow::new(2))));
    let mut root = BlockFlow::new_root(base);
    root.assign_widths(&ctx(640, 480));
    assert_eq!(root.base.position.size.width, px(640));
    let kid = root.base.children[0].base();
    assert_eq!(kid.position.size.width, px(640));
    assert_eq!(kid.position.origin.x, px(0));
}

/// Translating a float context twice equals translating it once by the
/// sum of the offsets.
#[test]
fn float_translate_composes() {
    let ctx0 = FloatContext::new(0);
    let placed = ctx0.add_float(&PlacementInfo {
        width: px(40),
        height: px(30),
        ceiling: px(0),
        max_width: px(200),
        f_type: FloatType::FloatLeft,
    });
    let a = Point2D::new(px(3), px(5));
    let b = Point2D::new(px(-1), px(2));
    let ab = Point2D::new(px(2), px(7));
    let two_steps = placed.translate(a).translate(b);
    let one_step = placed.translate(ab);
    assert_eq!(two_steps.last_float_pos(), one_step.last_float_pos());
}

/// A second left float of the same width lands beside the first, and a
/// float that no longer fits moves below both.
#[test]
fn float_placement_stacks_left() {
    let info = |w: i64, h: i64| PlacementInfo {
        width: px(w),
        height: px(h),
        ceiling: px(0),
        max_width: px(100),
        f_type: FloatType::FloatLeft,
    };
    let c0 = FloatContext::new(2);
    let c1 = c0.add_float(&info(40, 10));
    assert_eq!(c1.last_float_pos(), Point2D::new(px(0), px(0)));
    let c2 = c1.add_float(&info(40, 10));
    assert_eq!(c2.last_float_pos(), Point2D::new(px(40), px(0)));
    let c3 = c2.add_float(&info(40, 10));
    assert_eq!(c3.last_float_pos(), Point2D::new(px(0), px(10)));
    let c4 = c3.add_float(&info(40, 10));
    assert_eq!(c4.last_float_pos(), Point2D::new(px(40), px(10)));
}

/// Clearance: a block clearing left floats moves below their bottoms.
#[test]
fn clearance_clears_left_floats() {
    let c = FloatContext::new(1).add_float(&PlacementInfo {
        width: px(40),
        height: px(25),
        ceiling: px(0),
        max_width: px(100),
        f_type: FloatType::FloatLeft,
    });
    assert_eq!(c.clearance(ClearType::ClearLeft), px(25));
    assert_eq!(c.clearance(ClearType::ClearBoth), px(25));
    assert_eq!(c.clearance(ClearType::ClearRight), px(0));
}

/// Culling: with an empty dirty rectangle away from the flow, the
/// display pass emits nothing and reports the flow fully clipped.
#[test]
fn display_list_culls_disjoint_flows() {
    let mut base = BaseFlow::new(1);
    base.position.size = Size2D::new(px(100), px(50));
    base.abs_position = Point2D::new(px(0), px(0));
    let mut block = BlockFlow::from_box(base, LayoutBox::new(style()), false);
    let mut list = DisplayList::new();
    let empty_dirty = Rect::new(Point2D::new(px(0), px(0)), Size2D::new(px(0), px(0)));
    let clipped = block.build_display_list_block(&DisplayListBuilder::new(), &empty_dirty, &mut list);
    assert!(clipped);
    assert_eq!(list.len(), 0);
}

/// A flow that meets the dirty rectangle paints its box.
#[test]
fn display_list_emits_box() {
    let mut base = BaseFlow::new(1);
    base.position.size = Size2D::new(px(100), px(50));
    base.abs_position = Point2D::new(px(0), px(0));
    let mut bx = LayoutBox::new(style());
    bx.position.size = Size2D::new(px(100), px(50));
    let mut block = BlockFlow::from_box(base, bx, false);
    let mut list = DisplayList::new();
    let dirty = Rect::new(Point2D::new(px(-10), px(-10)), Size2D::new(px(500), px(500)));
    let clipped = block.build_display_list_block(&DisplayListBuilder::new(), &dirty, &mut list);
    assert!(!clipped);
    assert_eq!(list.len(), 1);
    assert_eq!(list.items[0].bounds.size.width, px(100));
}

/// A row bubbles its cells' widths into the column vectors.
#[test]
fn row_bubbles_cell_columns() {
    let mut base = BaseFlow::new(1);
    let mut st = style();
    st.width = LengthOrPercentageOrAuto::Length(px(80));
    let mut cell_base = BaseFlow::new(2);
    cell_base.min_width = px(35);
    cell_base.pref_width = px(90);
    base.children.push(Flow::TableCell(
        flow_layout::table_misc::TableCellFlow::from_box(cell_base, LayoutBox::new(st)),
    ));
    let mut row = TableRowFlow::new(base);
    row.bubble_widths();
    assert_eq!(row.col_widths, vec![px(80)]);
    assert_eq!(row.col_min_widths, vec![px(35)]);
    assert_eq!(row.col_pref_widths, vec![px(90)]);
    assert_eq!(row.base.min_width, px(35));
    assert_eq!(row.base.pref_width, px(90));
}

/// The wrapper's bottom-up pass collects colgroup widths and pads with
/// zeros up to the inner table's column count.
#[test]
fn wrapper_bubble_collects_columns() {
    let mut base = BaseFlow::new(1);
    let colgroup = TableColGroupFlow::new(BaseFlow::new(2), vec![px(100)]);
    base.children.push(Flow::TableColGroup(colgroup));
    let mut table = TableFlow::new(BaseFlow::new(3));
    table.cell_min_widths = vec![px(10), px(20), px(30)];
    base.children.push(Flow::Table(table));
    let mut wrapper = TableWrapperFlow::new(base);
    wrapper.bubble_widths();
    assert_eq!(wrapper.col_widths, vec![px(100), px(0), px(0)]);
}

/// The flow kinds report their classes.
#[test]
fn flow_classes() {
    let block = Flow::Block(BlockFlow::new(BaseFlow::new(1)));
    assert_eq!(block.class(), FlowClass::BlockFlowClass);
    let row = Flow::TableRow(TableRowFlow::new(BaseFlow::new(2)));
    assert_eq!(row.class(), FlowClass::TableRowFlowClass);
    let wrapper = Flow::TableWrapper(TableWrapperFlow::new(BaseFlow::new(3)));
    assert_eq!(wrapper.class(), FlowClass::TableWrapperFlowClass);
}
