//! The float placement context: an immutable value describing the floats
//! currently visible to a block, threaded through the tree during the
//! height pass.
//!
//! A context is either `Invalid` — a placeholder that no public operation
//! accepts — or a list of placed floats, each a rectangle with a side.
//! Placement of a new float finds the highest position at or below a
//! ceiling where the float fits between the left and right float stacks
//! without overlapping either, within the containing width.

use vstd::prelude::*;

use crate::geometry::Au;
use crate::geometry::MAX_AU;
use crate::geometry::Point2D;
use crate::geometry::PointV;
use crate::geometry::Rect;
use crate::geometry::RectV;
use crate::geometry::Size2D;
use crate::geometry::SizeV;
use crate::geometry::max_int;
use crate::geometry::min_int;
use crate::geometry::point_add;
use crate::style::ClearType;

verus! {

/// Every coordinate a stored float may reach; translations and placements
/// stay within it.
pub const FLOAT_BOUND: i64 = 16 * MAX_AU;

/// Which side a float is floated to.
#[derive(Clone, Copy, PartialEq, Eq, Structural, Debug)]
pub enum FloatType {
    FloatLeft,
    FloatRight,
}

/// One already-placed float: its margin box and its side.
#[derive(Clone, Copy, PartialEq, Eq, Structural, Debug)]
pub struct PlacedFloat {
    pub bounds: Rect,
    pub f_type: FloatType,
}

/// Mathematical mirror of `PlacedFloat`.
pub ghost struct PlacedFloatV {
    pub bounds: RectV,
    pub f_type: FloatType,
}

impl View for PlacedFloat {
    type V = PlacedFloatV;

    open spec fn view(&self) -> PlacedFloatV {
        PlacedFloatV { bounds: self.bounds@, f_type: self.f_type }
    }
}

/// What `add_float` needs to place a new float.
#[derive(Clone, Copy, PartialEq, Eq, Structural, Debug)]
pub struct PlacementInfo {
    /// Width of the float's margin box.
    pub width: Au,
    /// Height of the float's margin box.
    pub height: Au,
    /// The float may be placed no higher than this.
    pub ceiling: Au,
    /// Width of the containing block.
    pub max_width: Au,
    /// Which side to float to.
    pub f_type: FloatType,
}

/// Mathematical mirror of `PlacementInfo`.
pub ghost struct PlacementInfoV {
    pub width: int,
    pub height: int,
    pub ceiling: int,
    pub max_width: int,
    pub f_type: FloatType,
}

impl View for PlacementInfo {
    type V = PlacementInfoV;

    open spec fn view(&self) -> PlacementInfoV {
        PlacementInfoV {
            width: self.width@,
            height: self.height@,
            ceiling: self.ceiling@,
            max_width: self.max_width@,
            f_type: self.f_type,
        }
    }
}

/// The floats visible to a flow. `Invalid` is a placeholder handed out
/// when an in-order traversal was skipped; no operation accepts it.
pub enum FloatContext {
    Invalid,
    Present(Vec<PlacedFloat>),
}

/// Mathematical mirror of `FloatContext`.
pub ghost enum FloatContextV {
    Invalid,
    Present(Seq<PlacedFloatV>),
}

impl View for FloatContext {
    type V = FloatContextV;

    open spec fn view(&self) -> FloatContextV {
        match *self {
            FloatContext::Invalid => FloatContextV::Invalid,
            FloatContext::Present(ref v) => FloatContextV::Present(floats_view(v@)),
        }
    }
}

/// The mathematical mirror of a float list.
pub open spec fn floats_view(v: Seq<PlacedFloat>) -> Seq<PlacedFloatV> {
    Seq::new(v.len(), |i: int| v[i]@)
}

/// The floats of a context known to be present.
pub open spec fn ctx_floats(c: FloatContextV) -> Seq<PlacedFloatV>
    recommends
        c is Present,
{
    c->Present_0
}

/// All stored floats within the coordinate bound, with nonnegative sizes.
pub open spec fn wf_float(f: PlacedFloatV) -> bool {
    &&& -FLOAT_BOUND <= f.bounds.origin.x
    &&& -FLOAT_BOUND <= f.bounds.origin.y
    &&& 0 <= f.bounds.size.width
    &&& 0 <= f.bounds.size.height
    &&& f.bounds.origin.x + f.bounds.size.width <= FLOAT_BOUND
    &&& f.bounds.origin.y + f.bounds.size.height <= FLOAT_BOUND
}

pub open spec fn wf_floats(fs: Seq<PlacedFloatV>) -> bool {
    forall|i: int| 0 <= i < fs.len() ==> wf_float(#[trigger] fs[i])
}

/// A float occupies the horizontal band `[y, y + h)` when their vertical
/// extents share interior length.
pub open spec fn band_overlaps(f: PlacedFloatV, y: int, h: int) -> bool {
    f.bounds.origin.y < y + h && y < f.bounds.origin.y + f.bounds.size.height
}

/// Right edge of the left float stack within the band `[y, y + h)`; never
/// below zero.
pub open spec fn band_left(fs: Seq<PlacedFloatV>, y: int, h: int) -> int
    decreases fs.len(),
{
    if fs.len() == 0 {
        0
    } else {
        let rest = band_left(fs.drop_last(), y, h);
        let f = fs.last();
        if f.f_type == FloatType::FloatLeft && band_overlaps(f, y, h) {
            max_int(rest, f.bounds.origin.x + f.bounds.size.width)
        } else {
            rest
        }
    }
}

/// Left edge of the right float stack within the band `[y, y + h)`; never
/// beyond the containing width.
pub open spec fn band_right(fs: Seq<PlacedFloatV>, y: int, h: int, max_width: int) -> int
    decreases fs.len(),
{
    if fs.len() == 0 {
        max_width
    } else {
        let rest = band_right(fs.drop_last(), y, h, max_width);
        let f = fs.last();
        if f.f_type == FloatType::FloatRight && band_overlaps(f, y, h) {
            min_int(rest, f.bounds.origin.x)
        } else {
            rest
        }
    }
}

/// A float described by `info` fits at height `y`: the gap between the
/// stacks is wide enough for it.
pub open spec fn fits_at(fs: Seq<PlacedFloatV>, info: PlacementInfoV, y: int) -> bool {
    band_left(fs, y, info.height) + info.width <= band_right(fs, y, info.height, info.max_width)
}

/// Where a fitting float is put horizontally: against the left stack for a
/// left float, against the right stack for a right float.
pub open spec fn place_x(fs: Seq<PlacedFloatV>, info: PlacementInfoV, y: int) -> int {
    match info.f_type {
        FloatType::FloatLeft => band_left(fs, y, info.height),
        FloatType::FloatRight => band_right(fs, y, info.height, info.max_width) - info.width,
    }
}

/// `y` is one of the candidate heights placement examines: the ceiling or
/// the bottom edge of an existing float.
pub open spec fn is_candidate(fs: Seq<PlacedFloatV>, info: PlacementInfoV, y: int) -> bool {
    y == info.ceiling || exists|i: int|
        0 <= i < fs.len() && y == #[trigger] fs[i].bounds.origin.y + fs[i].bounds.size.height
}

/// The float `add_float` appends for `info`: placed at the highest
/// position at or beneath the ceiling where it fits — or, when nothing
/// fits at any height (the float is wider than its containing block),
/// against the stack edge just below every existing float.
pub open spec fn placement_ok(fs: Seq<PlacedFloatV>, info: PlacementInfoV, nf: PlacedFloatV) -> bool {
    let y = nf.bounds.origin.y;
    &&& nf.f_type == info.f_type
    &&& nf.bounds.size == (SizeV { width: info.width, height: info.height })
    &&& nf.bounds.origin.x == place_x(fs, info, y)
    &&& info.ceiling <= y
    &&& forall|z: int| info.ceiling <= z < y ==> !fits_at(fs, info, z)
    &&& is_candidate(fs, info, y)
    &&& (fits_at(fs, info, y) || (!fits_at(fs, info, y) && y == max_int(
        info.ceiling,
        max_bottom(fs),
    )))
}

/// The one float `placement_ok` admits.
pub open spec fn place_float_spec(fs: Seq<PlacedFloatV>, info: PlacementInfoV) -> PlacedFloatV {
    choose|nf: PlacedFloatV| placement_ok(fs, info, nf)
}

/// Placement is deterministic: `placement_ok` admits a single float.
pub proof fn lemma_placement_unique(
    fs: Seq<PlacedFloatV>,
    info: PlacementInfoV,
    a: PlacedFloatV,
    b: PlacedFloatV,
)
    requires
        wf_floats(fs),
        -FLOAT_BOUND <= info.ceiling,
        placement_ok(fs, info, a),
        placement_ok(fs, info, b),
    ensures
        a == b,
{
    lemma_max_bottom(fs);
    let ya = a.bounds.origin.y;
    let yb = b.bounds.origin.y;
    let ym = max_int(info.ceiling, max_bottom(fs));
    assert(ya <= ym && yb <= ym) by {
        assert(is_candidate(fs, info, ya) && is_candidate(fs, info, yb));
    }
    if ya < yb {
        assert(!fits_at(fs, info, ya));
        assert(ya == ym);
        assert(false);
    }
    if yb < ya {
        assert(!fits_at(fs, info, yb));
        assert(yb == ym);
        assert(false);
    }
    assert(ya == yb);
}

/// The float the executable placement returns is the one the
/// specification names.
pub proof fn lemma_place_float_spec(fs: Seq<PlacedFloatV>, info: PlacementInfoV, nf: PlacedFloatV)
    requires
        wf_floats(fs),
        -FLOAT_BOUND <= info.ceiling,
        placement_ok(fs, info, nf),
    ensures
        place_float_spec(fs, info) == nf,
{
    assert(placement_ok(fs, info, place_float_spec(fs, info))) by {
        assert(exists|x: PlacedFloatV| placement_ok(fs, info, x)) by {
            assert(placement_ok(fs, info, nf));
        }
    }
    lemma_placement_unique(fs, info, place_float_spec(fs, info), nf);
}

// ---------------------------------------------------------------------
// Lemmas about bands.
// ---------------------------------------------------------------------
/// If every float overlapping the band at `y1` also overlaps the band at
/// `y2`, the gap at `y1` is at least as wide as the gap at `y2`.
proof fn lemma_band_subset(fs: Seq<PlacedFloatV>, y1: int, y2: int, h: int, max_width: int)
    requires
        forall|i: int|
            0 <= i < fs.len() && band_overlaps(#[trigger] fs[i], y1, h) ==> band_overlaps(
                fs[i],
                y2,
                h,
            ),
    ensures
        band_left(fs, y1, h) <= band_left(fs, y2, h),
        band_right(fs, y1, h, max_width) >= band_right(fs, y2, h, max_width),
    decreases fs.len(),
{
    if fs.len() > 0 {
        assert(forall|i: int| 0 <= i < fs.len() - 1 ==> fs.drop_last()[i] == fs[i]);
        lemma_band_subset(fs.drop_last(), y1, y2, h, max_width);
        assert(fs.last() == fs[fs.len() - 1]);
    }
}

/// Where no float overlaps the band, the gap is the whole containing
/// width.
proof fn lemma_band_empty(fs: Seq<PlacedFloatV>, y: int, h: int, max_width: int)
    requires
        forall|i: int| 0 <= i < fs.len() ==> !band_overlaps(#[trigger] fs[i], y, h),
    ensures
        band_left(fs, y, h) == 0,
        band_right(fs, y, h, max_width) == max_width,
    decreases fs.len(),
{
    if fs.len() > 0 {
        assert(forall|i: int| 0 <= i < fs.len() - 1 ==> fs.drop_last()[i] == fs[i]);
        lemma_band_empty(fs.drop_last(), y, h, max_width);
        assert(fs.last() == fs[fs.len() - 1]);
    }
}

/// Bounds on the band edges, from the float coordinate bound.
proof fn lemma_band_bounds(fs: Seq<PlacedFloatV>, y: int, h: int, max_width: int)
    requires
        wf_floats(fs),
    ensures
        0 <= band_left(fs, y, h) <= FLOAT_BOUND,
        min_int(max_width, -FLOAT_BOUND) <= band_right(fs, y, h, max_width) <= max_width,
    decreases fs.len(),
{
    if fs.len() > 0 {
        assert(forall|i: int| 0 <= i < fs.len() - 1 ==> fs.drop_last()[i] == fs[i]);
        lemma_band_bounds(fs.drop_last(), y, h, max_width);
        assert(wf_float(fs[fs.len() - 1]));
        assert(fs.last() == fs[fs.len() - 1]);
    }
}

/// Between two heights with no float bottom strictly between them, a fit
/// at the lower height implies a fit at the higher one.
proof fn lemma_fits_up(fs: Seq<PlacedFloatV>, info: PlacementInfoV, c: int, y: int)
    requires
        c <= y,
        forall|i: int|
            0 <= i < fs.len() ==> !(c < #[trigger] fs[i].bounds.origin.y + fs[i].bounds.size.height
                <= y),
        fits_at(fs, info, y),
        info.height >= 0,
    ensures
        fits_at(fs, info, c),
{
    assert forall|i: int| 0 <= i < fs.len() && band_overlaps(#[trigger] fs[i], c, info.height)
        implies band_overlaps(fs[i], y, info.height) by {
        let bottom = fs[i].bounds.origin.y + fs[i].bounds.size.height;
        assert(!(c < bottom <= y));
    }
    lemma_band_subset(fs, c, y, info.height, info.max_width);
}

// ---------------------------------------------------------------------
// Executable band computation.
// ---------------------------------------------------------------------
/// Computes the gap `[left, right)` available to a float of height `h`
/// in the band starting at `y`.
fn compute_band(fs: &Vec<PlacedFloat>, y: i64, h: i64, max_width: i64) -> (r: (i64, i64))
    requires
        wf_floats(floats_view(fs@)),
        -4 * FLOAT_BOUND <= y <= 4 * FLOAT_BOUND,
        0 <= h <= 4 * FLOAT_BOUND,
        -4 * FLOAT_BOUND <= max_width <= 4 * FLOAT_BOUND,
    ensures
        r.0 as int == band_left(floats_view(fs@), y as int, h as int),
        r.1 as int == band_right(floats_view(fs@), y as int, h as int, max_width as int),
        0 <= r.0 <= FLOAT_BOUND,
        min_int(max_width as int, -FLOAT_BOUND) <= r.1 as int <= max_width as int,
{
    let ghost fsv = floats_view(fs@);
    let mut left: i64 = 0;
    let mut right: i64 = max_width;
    let mut i: usize = 0;
    proof {
        assert(fsv.subrange(0, 0) =~= Seq::<PlacedFloatV>::empty());
    }
    while i < fs.len()
        invariant
            0 <= i <= fs.len(),
            fsv == floats_view(fs@),
            fsv.len() == fs@.len(),
            wf_floats(fsv),
            -4 * FLOAT_BOUND <= y <= 4 * FLOAT_BOUND,
            0 <= h <= 4 * FLOAT_BOUND,
            left as int == band_left(fsv.subrange(0, i as int), y as int, h as int),
            right as int == band_right(fsv.subrange(0, i as int), y as int, h as int, max_width as int),
            0 <= left <= FLOAT_BOUND,
            min_int(max_width as int, -FLOAT_BOUND) <= right as int <= max_width,
        decreases fs.len() - i,
    {
        let f = fs[i];
        proof {
            assert(fsv[i as int] == f@);
            assert(wf_float(fsv[i as int]));
            assert(fsv.subrange(0, i + 1).drop_last() =~= fsv.subrange(0, i as int));
            assert(fsv.subrange(0, i + 1).last() == fsv[i as int]);
        }
        let overlaps = f.bounds.origin.y.0 < y + h && y < f.bounds.origin.y.0
            + f.bounds.size.height.0;
        if overlaps {
            match f.f_type {
                FloatType::FloatLeft => {
                    let edge = f.bounds.origin.x.0 + f.bounds.size.width.0;
                    if edge > left {
                        left = edge;
                    }
                },
                FloatType::FloatRight => {
                    if f.bounds.origin.x.0 < right {
                        right = f.bounds.origin.x.0;
                    }
                },
            }
        }
        i = i + 1;
    }
    proof {
        assert(fsv.subrange(0, fsv.len() as int) =~= fsv);
    }
    (left, right)
}

// ---------------------------------------------------------------------
// Clearance.
// ---------------------------------------------------------------------
/// Does a float of this side have to be cleared by the given `clear`
/// kind?
pub open spec fn clear_matches(kind: ClearType, ft: FloatType) -> bool {
    match kind {
        ClearType::ClearLeft => ft == FloatType::FloatLeft,
        ClearType::ClearRight => ft == FloatType::FloatRight,
        ClearType::ClearBoth => true,
    }
}

/// The vertical distance a block with the given `clear` kind must move
/// down: to the lowest bottom edge of the floats it clears, never
/// negative.
pub open spec fn clearance_of(fs: Seq<PlacedFloatV>, kind: ClearType) -> int
    decreases fs.len(),
{
    if fs.len() == 0 {
        0
    } else {
        let rest = clearance_of(fs.drop_last(), kind);
        let f = fs.last();
        if clear_matches(kind, f.f_type) {
            max_int(rest, f.bounds.origin.y + f.bounds.size.height)
        } else {
            rest
        }
    }
}

/// The bottom edge of every float, used to bound placement results.
pub open spec fn max_bottom(fs: Seq<PlacedFloatV>) -> int
    decreases fs.len(),
{
    if fs.len() == 0 {
        -FLOAT_BOUND
    } else {
        max_int(max_bottom(fs.drop_last()), fs.last().bounds.origin.y + fs.last().bounds.size.height)
    }
}

proof fn lemma_max_bottom(fs: Seq<PlacedFloatV>)
    requires
        wf_floats(fs),
    ensures
        -FLOAT_BOUND <= max_bottom(fs) <= FLOAT_BOUND,
        forall|i: int|
            0 <= i < fs.len() ==> #[trigger] fs[i].bounds.origin.y + fs[i].bounds.size.height
                <= max_bottom(fs),
        max_bottom(fs) == -FLOAT_BOUND || exists|i: int|
            0 <= i < fs.len() && max_bottom(fs) == #[trigger] fs[i].bounds.origin.y
                + fs[i].bounds.size.height,
    decreases fs.len(),
{
    if fs.len() > 0 {
        assert(forall|i: int| 0 <= i < fs.len() - 1 ==> fs.drop_last()[i] == fs[i]);
        lemma_max_bottom(fs.drop_last());
        assert(wf_float(fs[fs.len() - 1]));
        assert(fs.last() == fs[fs.len() - 1]);
    }
}

/// Every placement request that fits within its containing width fits at
/// some candidate height: below all floats the whole width is free.
proof fn lemma_exists_fit(fs: Seq<PlacedFloatV>, info: PlacementInfoV)
    requires
        wf_floats(fs),
        0 <= info.width <= info.max_width,
        info.height >= 0,
        -FLOAT_BOUND <= info.ceiling,
    ensures
        ({
            let ym = max_int(info.ceiling, max_bottom(fs));
            &&& is_candidate(fs, info, ym)
            &&& info.ceiling <= ym
            &&& fits_at(fs, info, ym)
        }),
{
    let ym = max_int(info.ceiling, max_bottom(fs));
    lemma_max_bottom(fs);
    assert forall|i: int| 0 <= i < fs.len() implies !band_overlaps(#[trigger] fs[i], ym, info.height) by {
        assert(fs[i].bounds.origin.y + fs[i].bounds.size.height <= max_bottom(fs));
    }
    lemma_band_empty(fs, ym, info.height, info.max_width);
    if max_bottom(fs) > info.ceiling {
        assert(ym == max_bottom(fs));
        assert(max_bottom(fs) > -FLOAT_BOUND);
        assert(is_candidate(fs, info, ym));
    } else {
        assert(ym == info.ceiling);
    }
}

/// The largest candidate height at or below `y` (and at or above `lo`,
/// which is itself a candidate).
spec fn max_cand(fs: Seq<PlacedFloatV>, lo: int, y: int) -> int
    decreases fs.len(),
{
    if fs.len() == 0 {
        lo
    } else {
        let rest = max_cand(fs.drop_last(), lo, y);
        let b = fs.last().bounds.origin.y + fs.last().bounds.size.height;
        if lo <= b <= y {
            max_int(rest, b)
        } else {
            rest
        }
    }
}

proof fn lemma_max_cand(fs: Seq<PlacedFloatV>, lo: int, y: int)
    requires
        lo <= y,
    ensures
        lo <= max_cand(fs, lo, y) <= y,
        max_cand(fs, lo, y) == lo || exists|i: int|
            0 <= i < fs.len() && max_cand(fs, lo, y) == #[trigger] fs[i].bounds.origin.y
                + fs[i].bounds.size.height,
        forall|i: int|
            0 <= i < fs.len() ==> !(max_cand(fs, lo, y) < #[trigger] fs[i].bounds.origin.y
                + fs[i].bounds.size.height <= y),
    decreases fs.len(),
{
    if fs.len() > 0 {
        assert(forall|i: int| 0 <= i < fs.len() - 1 ==> fs.drop_last()[i] == fs[i]);
        lemma_max_cand(fs.drop_last(), lo, y);
        assert(fs.last() == fs[fs.len() - 1]);
    }
}

// ---------------------------------------------------------------------
// Shifting, for `translate`.
// ---------------------------------------------------------------------
/// A float moved by `delta`.
pub open spec fn shift_float(f: PlacedFloatV, delta: PointV) -> PlacedFloatV {
    PlacedFloatV {
        bounds: RectV { origin: point_add(f.bounds.origin, delta), size: f.bounds.size },
        f_type: f.f_type,
    }
}

/// A whole context moved by `delta`.
pub open spec fn shift_floats(fs: Seq<PlacedFloatV>, delta: PointV) -> Seq<PlacedFloatV> {
    Seq::new(fs.len(), |i: int| shift_float(fs[i], delta))
}

/// Translating a float context by `a` and then by `b` is translating it
/// by `a + b`: translation composes exactly, with no rounding.
pub proof fn lemma_translate_compose(fs: Seq<PlacedFloatV>, a: PointV, b: PointV)
    ensures
        shift_floats(shift_floats(fs, a), b) == shift_floats(fs, point_add(a, b)),
{
    assert(shift_floats(shift_floats(fs, a), b) =~= shift_floats(fs, point_add(a, b)));
}

// ---------------------------------------------------------------------
// The operations.
// ---------------------------------------------------------------------
/// An element-for-element copy of a float list.
fn copy_floats(fs: &Vec<PlacedFloat>) -> (r: Vec<PlacedFloat>)
    ensures
        r@ == fs@,
{
    let mut r: Vec<PlacedFloat> = Vec::new();
    let mut i: usize = 0;
    while i < fs.len()
        invariant
            0 <= i <= fs.len(),
            r@ =~= fs@.subrange(0, i as int),
        decreases fs.len() - i,
    {
        r.push(fs[i]);
        i = i + 1;
    }
    proof {
        assert(fs@.subrange(0, fs@.len() as int) =~= fs@);
    }
    r
}

impl FloatContext {
    /// An empty context; the hint is only a capacity estimate.
    pub fn new(hint: usize) -> (r: FloatContext)
        ensures
            r@ is Present,
            ctx_floats(r@) == Seq::<PlacedFloatV>::empty(),
    {
        let v: Vec<PlacedFloat> = Vec::with_capacity(hint);
        proof {
            assert(floats_view(v@) =~= Seq::<PlacedFloatV>::empty());
        }
        FloatContext::Present(v)
    }

    pub fn is_present(&self) -> (r: bool)
        ensures
            r == (self@ is Present),
    {
        match self {
            FloatContext::Present(_) => true,
            FloatContext::Invalid => false,
        }
    }

    /// A value-for-value copy.
    pub fn duplicate(&self) -> (r: FloatContext)
        ensures
            r@ == self@,
    {
        match self {
            FloatContext::Invalid => FloatContext::Invalid,
            FloatContext::Present(v) => FloatContext::Present(copy_floats(v)),
        }
    }

    /// The context as seen from a coordinate system moved by `-delta`:
    /// every float shifted by `delta`. The caller keeps the shifted
    /// coordinates within the float coordinate bound.
    pub fn translate(&self, delta: Point2D) -> (r: FloatContext)
        requires
            self@ is Present,
            wf_floats(ctx_floats(self@)),
            forall|i: int|
                0 <= i < ctx_floats(self@).len() ==> wf_float(
                    shift_float(#[trigger] ctx_floats(self@)[i], delta@),
                ),
        ensures
            r@ is Present,
            ctx_floats(r@) == shift_floats(ctx_floats(self@), delta@),
            wf_floats(ctx_floats(r@)),
    {
        let ghost fsv = ctx_floats(self@);
        let fs = match self {
            FloatContext::Present(v) => v,
            FloatContext::Invalid => vstd::pervasive::unreached(),
        };
        let mut r: Vec<PlacedFloat> = Vec::new();
        let mut i: usize = 0;
        while i < fs.len()
            invariant
                0 <= i <= fs.len(),
                fsv == floats_view(fs@),
                fsv.len() == fs@.len(),
                forall|j: int|
                    0 <= j < fsv.len() ==> wf_float(#[trigger] fsv[j]) && wf_float(
                        shift_float(fsv[j], delta@),
                    ),
                r@.len() == i as int,
                floats_view(r@) =~= shift_floats(fsv, delta@).subrange(
                    0,
                    i as int,
                ),
            decreases fs.len() - i,
        {
            let f = fs[i];
            proof {
                assert(fsv[i as int] == f@);
                assert(wf_float(shift_float(fsv[i as int], delta@)));
            }
            let moved = PlacedFloat {
                bounds: Rect {
                    origin: Point2D {
                        x: Au(f.bounds.origin.x.0 + delta.x.0),
                        y: Au(f.bounds.origin.y.0 + delta.y.0),
                    },
                    size: f.bounds.size,
                },
                f_type: f.f_type,
            };
            let ghost r0 = r@;
            r.push(moved);
            proof {
                assert(moved@ == shift_float(fsv[i as int], delta@));
                assert(r@ == r0.push(moved));
                assert(r@.len() == i + 1);
                assert forall|k: int| 0 <= k <= i implies floats_view(r@)[k] == shift_floats(
                    fsv,
                    delta@,
                ).subrange(0, i + 1)[k] by {
                    if k < i {
                        assert(floats_view(r0)[k] == shift_floats(fsv, delta@).subrange(
                            0,
                            i as int,
                        )[k]);
                        assert(r@[k] == r0[k]);
                    } else {
                        assert(r@[k] == moved);
                    }
                }
                assert(floats_view(r@) =~= shift_floats(fsv, delta@).subrange(0, i + 1));
            }
            i = i + 1;
        }
        proof {
            assert(shift_floats(fsv, delta@).subrange(0, fsv.len() as int) =~= shift_floats(
                fsv,
                delta@,
            ));
        }
        FloatContext::Present(r)
    }

    /// How far a block clearing the given kinds of floats must move down.
    pub fn clearance(&self, kind: ClearType) -> (r: Au)
        requires
            self@ is Present,
            wf_floats(ctx_floats(self@)),
        ensures
            r@ == clearance_of(ctx_floats(self@), kind),
            0 <= r@ <= FLOAT_BOUND,
    {
        let ghost fsv = ctx_floats(self@);
        let fs = match self {
            FloatContext::Present(v) => v,
            FloatContext::Invalid => vstd::pervasive::unreached(),
        };
        let mut acc: i64 = 0;
        let mut i: usize = 0;
        proof {
            assert(fsv.subrange(0, 0) =~= Seq::<PlacedFloatV>::empty());
        }
        while i < fs.len()
            invariant
                0 <= i <= fs.len(),
                fsv == floats_view(fs@),
                fsv.len() == fs@.len(),
                wf_floats(fsv),
                acc as int == clearance_of(fsv.subrange(0, i as int), kind),
                0 <= acc <= FLOAT_BOUND,
            decreases fs.len() - i,
        {
            let f = fs[i];
            proof {
                assert(fsv[i as int] == f@);
                assert(wf_float(fsv[i as int]));
                assert(fsv.subrange(0, i + 1).drop_last() =~= fsv.subrange(0, i as int));
                assert(fsv.subrange(0, i + 1).last() == fsv[i as int]);
            }
            let matches = match (kind, f.f_type) {
                (ClearType::ClearLeft, FloatType::FloatLeft) => true,
                (ClearType::ClearRight, FloatType::FloatRight) => true,
                (ClearType::ClearBoth, _) => true,
                _ => false,
            };
            if matches {
                let bottom = f.bounds.origin.y.0 + f.bounds.size.height.0;
                if bottom > acc {
                    acc = bottom;
                }
            }
            i = i + 1;
        }
        proof {
            assert(fsv.subrange(0, fsv.len() as int) =~= fsv);
        }
        Au(acc)
    }

    /// The position the most recently added float was placed at.
    pub fn last_float_pos(&self) -> (r: Point2D)
        requires
            self@ is Present,
            ctx_floats(self@).len() > 0,
        ensures
            r@ == ctx_floats(self@).last().bounds.origin,
    {
        let fs = match self {
            FloatContext::Present(v) => v,
            FloatContext::Invalid => vstd::pervasive::unreached(),
        };
        let f = fs[fs.len() - 1];
        proof {
            assert(ctx_floats(self@)[fs@.len() - 1] == f@);
        }
        f.bounds.origin
    }

    /// Places the float described by `info` at the highest position at or
    /// below its ceiling where it fits beside the floats already present
    /// — or, when it is too wide ever to fit, against the stack edge
    /// below every float — and returns the context extended with it.
    pub fn add_float(&self, info: &PlacementInfo) -> (r: FloatContext)
        requires
            self@ is Present,
            wf_floats(ctx_floats(self@)),
            0 <= info@.width <= FLOAT_BOUND,
            -FLOAT_BOUND <= info@.max_width <= FLOAT_BOUND,
            0 <= info@.height <= FLOAT_BOUND,
            -FLOAT_BOUND <= info@.ceiling <= FLOAT_BOUND,
        ensures
            r@ is Present,
            ctx_floats(r@).len() == ctx_floats(self@).len() + 1,
            ctx_floats(r@).drop_last() == ctx_floats(self@),
            placement_ok(ctx_floats(self@), info@, ctx_floats(r@).last()),
    {
        let ghost fsv = ctx_floats(self@);
        let ghost infov = info@;
        let fs = match self {
            FloatContext::Present(v) => v,
            FloatContext::Invalid => vstd::pervasive::unreached(),
        };
        let w = info.width.0;
        let h = info.height.0;
        let ceiling = info.ceiling.0;
        let mw = info.max_width.0;

        let mut best: i64 = 0;
        let mut have: bool = false;
        let mut cmax: i64 = ceiling;
        let band = compute_band(fs, ceiling, h, mw);
        if band.0 + w <= band.1 {
            best = ceiling;
            have = true;
        }
        proof {
            lemma_max_bottom(fsv);
            assert(fsv.subrange(0, 0) =~= Seq::<PlacedFloatV>::empty());
        }
        let mut i: usize = 0;
        while i < fs.len()
            invariant
                0 <= i <= fs.len(),
                fsv == floats_view(fs@),
                fsv.len() == fs@.len(),
                wf_floats(fsv),
                w == infov.width,
                h == infov.height,
                ceiling == infov.ceiling,
                mw == infov.max_width,
                0 <= w <= FLOAT_BOUND,
                -FLOAT_BOUND <= mw <= FLOAT_BOUND,
                0 <= h <= FLOAT_BOUND,
                -FLOAT_BOUND <= ceiling <= FLOAT_BOUND,
                have ==> {
                    &&& ceiling as int <= best as int
                    &&& -FLOAT_BOUND <= best <= FLOAT_BOUND
                    &&& fits_at(fsv, infov, best as int)
                    &&& is_candidate(fsv, infov, best as int)
                },
                cmax as int == max_int(ceiling as int, max_bottom(fsv.subrange(0, i as int))),
                -FLOAT_BOUND <= cmax <= FLOAT_BOUND,
                fits_at(fsv, infov, ceiling as int) ==> have && best as int <= ceiling as int,
                forall|j: int| #![trigger fsv[j]]
                    0 <= j < i ==> ((infov.ceiling <= fsv[j].bounds.origin.y
                        + fsv[j].bounds.size.height && fits_at(
                        fsv,
                        infov,
                        fsv[j].bounds.origin.y + fsv[j].bounds.size.height,
                    )) ==> have && best as int <= fsv[j].bounds.origin.y
                        + fsv[j].bounds.size.height),
            decreases fs.len() - i,
        {
            let f = fs[i];
            proof {
                assert(fsv[i as int] == f@);
                assert(wf_float(fsv[i as int]));
            }
            let c = f.bounds.origin.y.0 + f.bounds.size.height.0;
            proof {
                assert(fsv.subrange(0, i + 1).drop_last() =~= fsv.subrange(0, i as int));
                assert(fsv.subrange(0, i + 1).last() == fsv[i as int]);
                assert(max_bottom(fsv.subrange(0, i + 1)) == max_int(
                    max_bottom(fsv.subrange(0, i as int)),
                    c as int,
                ));
            }
            if c > cmax {
                cmax = c;
            }
            if c >= ceiling {
                let band_c = compute_band(fs, c, h, mw);
                if band_c.0 + w <= band_c.1 {
                    if !have || c < best {
                        best = c;
                        have = true;
                    }
                }
            }
            i = i + 1;
        }
        if !have {
            best = cmax;
        }
        proof {
            lemma_max_bottom(fsv);
            assert(fsv.subrange(0, fsv.len() as int) =~= fsv);
            assert(cmax as int == max_int(infov.ceiling, max_bottom(fsv)));
            if !have {
                // Nothing fit at any candidate, so nothing fits anywhere;
                // the float goes below every placed float.
                assert(!fits_at(fsv, infov, best as int)) by {
                    if best as int == infov.ceiling {
                    } else {
                        assert(max_bottom(fsv) > infov.ceiling);
                    }
                }
                assert(is_candidate(fsv, infov, best as int)) by {
                    if best as int != infov.ceiling {
                        assert(max_bottom(fsv) > -FLOAT_BOUND);
                    }
                }
            }
            assert forall|z: int| infov.ceiling <= z < best as int implies !fits_at(
                fsv,
                infov,
                z,
            ) by {
                if fits_at(fsv, infov, z) {
                    lemma_max_cand(fsv, infov.ceiling, z);
                    let c = max_cand(fsv, infov.ceiling, z);
                    lemma_fits_up(fsv, infov, c, z);
                }
            }
        }
        let band_b = compute_band(fs, best, h, mw);
        let x = match info.f_type {
            FloatType::FloatLeft => band_b.0,
            FloatType::FloatRight => band_b.1 - w,
        };
        let nf = PlacedFloat {
            bounds: Rect {
                origin: Point2D { x: Au(x), y: Au(best) },
                size: Size2D { width: info.width, height: info.height },
            },
            f_type: info.f_type,
        };
        let mut nv = copy_floats(fs);
        nv.push(nf);
        let r = FloatContext::Present(nv);
        proof {
            assert(ctx_floats(r@) =~= fsv.push(nf@));
            assert(ctx_floats(r@).drop_last() =~= fsv);
            assert(ctx_floats(r@).last() == nf@);
        }
        r
    }
}

} // verus!
