//! The horizontal constraint solver of CSS 2.1 § 10.3.3, shared by block
//! flows and table wrappers: given the computed `width`, `margin-left`
//! and `margin-right` and the available width, choose used values so
//! that margins and width fill the available width, then clamp the
//! result by `max-width` and `min-width`.

use vstd::prelude::*;

use crate::geometry::Au;
use crate::geometry::MAX_AU;
use crate::geometry::half_floor;
use crate::geometry::max_int;
use crate::geometry::min_int;
use crate::model::MaybeAuto;
use crate::model::from_style_spec;
use crate::model::specified_or;
use crate::model::specified_or_none_spec;
use crate::model::specified_spec;
use crate::model::specified;
use crate::model::specified_or_none;
use crate::style::ComputedValues;
use crate::style::wf_style;

verus! {

/// Resolved inputs and results are kept within this magnitude; a
/// percentage of up to 1000% of a containing width of up to `4 * MAX_AU`
/// stays inside it.
pub const SOLVE_LIMIT: i64 = 256 * MAX_AU;

/// The solution of § 10.3.3, in the order (width, margin-left,
/// margin-right). `None` stands for `auto`.
///
/// If width is not `auto` and the three values overflow the available
/// width, `auto` margins are treated as zero. Then: with all three
/// specified the right margin is discarded and recomputed (left-to-right
/// writing assumed); exactly one `auto` value is solved for; an `auto`
/// width turns any other `auto` into zero and is solved for; two `auto`
/// margins around a specified width split the leftover evenly, rounding
/// down.
pub open spec fn horiz_spec(width: Option<int>, left: Option<int>, right: Option<int>, avail: int) -> (
    int,
    int,
    int,
) {
    let over = width matches Some(w) && specified_or(left, 0) + specified_or(right, 0) + w > avail;
    let l2 = if over {
        Some(specified_or(left, 0))
    } else {
        left
    };
    let r2 = if over {
        Some(specified_or(right, 0))
    } else {
        right
    };
    match (l2, width, r2) {
        (Some(ml), Some(w), Some(_)) => (w, ml, avail - ml - w),
        (None, Some(w), Some(mr)) => (w, avail - w - mr, mr),
        (Some(ml), None, Some(mr)) => (avail - ml - mr, ml, mr),
        (Some(ml), Some(w), None) => (w, ml, avail - ml - w),
        (None, None, Some(mr)) => (avail - mr, 0, mr),
        (Some(ml), None, None) => (avail - ml, ml, 0),
        (None, None, None) => (avail, 0, 0),
        (None, Some(w), None) => (w, half_floor(avail - w), half_floor(avail - w)),
    }
}

/// The full used width and margins of a block-level box: solve § 10.3.3,
/// rerun with `max-width` if the tentative width exceeds it, then rerun
/// with `min-width` if the result falls below it.
pub open spec fn css_margins_spec(style: ComputedValues, remaining: int, avail: int) -> (
    int,
    int,
    int,
) {
    let w0 = from_style_spec(style.width, remaining);
    let ml0 = from_style_spec(style.margin_left, remaining);
    let mr0 = from_style_spec(style.margin_right, remaining);
    let t1 = horiz_spec(w0, ml0, mr0, avail);
    let t2 = match specified_or_none_spec(style.max_width, remaining) {
        Some(mx) => if mx < t1.0 {
            horiz_spec(Some(mx), ml0, mr0, avail)
        } else {
            t1
        },
        None => t1,
    };
    let minw = specified_spec(style.min_width, remaining);
    if minw > t2.0 {
        horiz_spec(Some(minw), ml0, mr0, avail)
    } else {
        t2
    }
}

/// Shrink-to-fit sizing for floats: margins resolve to zero when `auto`;
/// the width, unless specified, is `min(pref, max(min, remaining))`.
pub open spec fn float_margins_spec(
    style: ComputedValues,
    min_width: int,
    pref_width: int,
    remaining: int,
) -> (int, int, int) {
    let ml = specified_or(from_style_spec(style.margin_left, remaining), 0);
    let mr = specified_or(from_style_spec(style.margin_right, remaining), 0);
    let shrink = min_int(pref_width, max_int(min_width, remaining));
    let w = specified_or(from_style_spec(style.width, remaining), shrink);
    (w, ml, mr)
}

/// Executable § 10.3.3 solver.
pub fn horiz_solve(width: MaybeAuto, left_margin: MaybeAuto, right_margin: MaybeAuto, avail: Au) -> (r:
    (Au, Au, Au))
    requires
        width@ matches Some(w) ==> -SOLVE_LIMIT <= w <= SOLVE_LIMIT,
        left_margin@ matches Some(m) ==> -SOLVE_LIMIT <= m <= SOLVE_LIMIT,
        right_margin@ matches Some(m) ==> -SOLVE_LIMIT <= m <= SOLVE_LIMIT,
        -SOLVE_LIMIT <= avail@ <= SOLVE_LIMIT,
    ensures
        (r.0@, r.1@, r.2@) == horiz_spec(width@, left_margin@, right_margin@, avail@),
        -4 * SOLVE_LIMIT <= r.0@ <= 4 * SOLVE_LIMIT,
        -4 * SOLVE_LIMIT <= r.1@ <= 4 * SOLVE_LIMIT,
        -4 * SOLVE_LIMIT <= r.2@ <= 4 * SOLVE_LIMIT,
        width@ matches Some(w) ==> r.0@ == w,
        (width@ is Some && left_margin@ is Some && right_margin@ is Some) ==> r.1@ + r.0@ + r.2@
            == avail@,
{
    let (left_margin, right_margin) = match width {
        MaybeAuto::Auto => (left_margin, right_margin),
        MaybeAuto::Specified(w) => {
            let left = left_margin.specified_or_zero();
            let right = right_margin.specified_or_zero();
            if left.0 + right.0 + w.0 > avail.0 {
                (MaybeAuto::Specified(left), MaybeAuto::Specified(right))
            } else {
                (left_margin, right_margin)
            }
        },
    };
    match (left_margin, width, right_margin) {
        (MaybeAuto::Specified(ml), MaybeAuto::Specified(w), MaybeAuto::Specified(_)) => (
            w,
            ml,
            Au(avail.0 - ml.0 - w.0),
        ),
        (MaybeAuto::Auto, MaybeAuto::Specified(w), MaybeAuto::Specified(mr)) => (
            w,
            Au(avail.0 - w.0 - mr.0),
            mr,
        ),
        (MaybeAuto::Specified(ml), MaybeAuto::Auto, MaybeAuto::Specified(mr)) => (
            Au(avail.0 - ml.0 - mr.0),
            ml,
            mr,
        ),
        (MaybeAuto::Specified(ml), MaybeAuto::Specified(w), MaybeAuto::Auto) => (
            w,
            ml,
            Au(avail.0 - ml.0 - w.0),
        ),
        (MaybeAuto::Auto, MaybeAuto::Auto, MaybeAuto::Specified(mr)) => (
            Au(avail.0 - mr.0),
            Au(0),
            mr,
        ),
        (MaybeAuto::Specified(ml), MaybeAuto::Auto, MaybeAuto::Auto) => (
            Au(avail.0 - ml.0),
            ml,
            Au(0),
        ),
        (MaybeAuto::Auto, MaybeAuto::Auto, MaybeAuto::Auto) => (avail, Au(0), Au(0)),
        (MaybeAuto::Auto, MaybeAuto::Specified(w), MaybeAuto::Auto) => {
            let margin = Au(avail.0 - w.0).half();
            (w, margin, margin)
        },
    }
}

/// Executable clamped margin computation for blocks and table wrappers.
pub fn css_margins(style: &ComputedValues, remaining_width: Au, available_width: Au) -> (r: (
    Au,
    Au,
    Au,
))
    requires
        wf_style(*style),
        -4 * MAX_AU <= remaining_width@ <= 4 * MAX_AU,
        -SOLVE_LIMIT <= available_width@ <= SOLVE_LIMIT,
    ensures
        (r.0@, r.1@, r.2@) == css_margins_spec(*style, remaining_width@, available_width@),
        -4 * SOLVE_LIMIT <= r.0@ <= 4 * SOLVE_LIMIT,
        -4 * SOLVE_LIMIT <= r.1@ <= 4 * SOLVE_LIMIT,
        -4 * SOLVE_LIMIT <= r.2@ <= 4 * SOLVE_LIMIT,
        ({
            let mx = specified_or_none_spec(style.max_width, remaining_width@);
            let mn = specified_spec(style.min_width, remaining_width@);
            mx matches Some(m) && m < mn ==> r.0@ == mn
        }),
        (from_style_spec(style.width, remaining_width@) is Some && from_style_spec(
            style.margin_left,
            remaining_width@,
        ) is Some && from_style_spec(style.margin_right, remaining_width@) is Some) ==> r.1@ + r.0@
            + r.2@ == available_width@,
{
    proof {
        lemma_resolved_in_limit(*style, remaining_width@);
    }
    let width = MaybeAuto::from_style(style.width, remaining_width);
    let maybe_margin_left = MaybeAuto::from_style(style.margin_left, remaining_width);
    let maybe_margin_right = MaybeAuto::from_style(style.margin_right, remaining_width);
    let t1 = horiz_solve(width, maybe_margin_left, maybe_margin_right, available_width);

    // If the tentative used width is greater than 'max-width', recompute
    // using 'max-width' as the computed value for 'width'.
    let t2 = match specified_or_none(style.max_width, remaining_width) {
        Some(value) => {
            if value.0 < t1.0.0 {
                horiz_solve(
                    MaybeAuto::Specified(value),
                    maybe_margin_left,
                    maybe_margin_right,
                    available_width,
                )
            } else {
                t1
            }
        },
        None => t1,
    };

    // If the resulting width is smaller than 'min-width', recompute using
    // 'min-width' as the computed value for 'width'.
    let computed_min_width = specified(style.min_width, remaining_width);
    if computed_min_width.0 > t2.0.0 {
        horiz_solve(
            MaybeAuto::Specified(computed_min_width),
            maybe_margin_left,
            maybe_margin_right,
            available_width,
        )
    } else {
        t2
    }
}

/// Executable shrink-to-fit margin computation for floats.
pub fn float_margins(
    style: &ComputedValues,
    min_width: Au,
    pref_width: Au,
    remaining_width: Au,
) -> (r: (Au, Au, Au))
    requires
        wf_style(*style),
        -4 * MAX_AU <= remaining_width@ <= 4 * MAX_AU,
        -SOLVE_LIMIT <= min_width@ <= SOLVE_LIMIT,
        -SOLVE_LIMIT <= pref_width@ <= SOLVE_LIMIT,
    ensures
        (r.0@, r.1@, r.2@) == float_margins_spec(
            *style,
            min_width@,
            pref_width@,
            remaining_width@,
        ),
        -SOLVE_LIMIT <= r.0@ <= SOLVE_LIMIT,
        -SOLVE_LIMIT <= r.1@ <= SOLVE_LIMIT,
        -SOLVE_LIMIT <= r.2@ <= SOLVE_LIMIT,
{
    proof {
        lemma_resolved_in_limit(*style, remaining_width@);
    }
    let margin_left = MaybeAuto::from_style(style.margin_left, remaining_width).specified_or_zero();
    let margin_right = MaybeAuto::from_style(
        style.margin_right,
        remaining_width,
    ).specified_or_zero();
    let shrink_to_fit = pref_width.min(min_width.max(remaining_width));
    let width = MaybeAuto::from_style(style.width, remaining_width).specified_or_default(
        shrink_to_fit,
    );
    (width, margin_left, margin_right)
}

/// The geometry a box gains during the width pass: padding resolved
/// against the containing width, margins chosen by block or
/// shrink-to-fit sizing; paired with the used content width.
pub open spec fn box_widths_model(
    b: crate::box_model::BoxV,
    min_width: int,
    pref_width: int,
    is_float: bool,
    remaining: int,
) -> (crate::box_model::BoxV, int) {
    let padding = crate::box_model::style_padding(b.style, remaining);
    let avail = remaining - padding.left - padding.right - b.border.left - b.border.right;
    let mt = specified_or(from_style_spec(b.style.margin_top, remaining), 0);
    let mb = specified_or(from_style_spec(b.style.margin_bottom, remaining), 0);
    let t = if is_float {
        float_margins_spec(b.style, min_width, pref_width, remaining)
    } else {
        css_margins_spec(b.style, remaining, avail)
    };
    (
        crate::box_model::BoxV {
            padding,
            margin: crate::geometry::OffsetsV { top: mt, right: t.2, bottom: mb, left: t.1 },
            ..b
        },
        t.0,
    )
}

/// Every value a well-formed style resolves to against a containing
/// width of at most `4 * MAX_AU` lies within `SOLVE_LIMIT`.
pub proof fn lemma_resolved_in_limit(style: ComputedValues, remaining: int)
    requires
        wf_style(style),
        -4 * MAX_AU <= remaining <= 4 * MAX_AU,
    ensures
        from_style_spec(style.width, remaining) matches Some(v) ==> -40 * MAX_AU <= v <= 40 * MAX_AU,
        from_style_spec(style.margin_left, remaining) matches Some(v) ==> -40 * MAX_AU <= v <= 40 * MAX_AU,
        from_style_spec(style.margin_right, remaining) matches Some(v) ==> -40 * MAX_AU <= v <= 40 * MAX_AU,
        from_style_spec(style.margin_top, remaining) matches Some(v) ==> -40 * MAX_AU <= v <= 40 * MAX_AU,
        from_style_spec(style.margin_bottom, remaining) matches Some(v) ==> -40 * MAX_AU <= v <= 40 * MAX_AU,
        from_style_spec(style.height, remaining) matches Some(v) ==> -40 * MAX_AU <= v <= 40 * MAX_AU,
        specified_or_none_spec(style.max_width, remaining) matches Some(v) ==> -40 * MAX_AU <= v <= 40 * MAX_AU,
        -40 * MAX_AU <= specified_spec(style.min_width, remaining) <= 40 * MAX_AU,
        from_style_spec(style.position_left, remaining) matches Some(v) ==> -40 * MAX_AU <= v <= 40 * MAX_AU,
        from_style_spec(style.position_top, remaining) matches Some(v) ==> -40 * MAX_AU <= v <= 40 * MAX_AU,
        ({
            let p = crate::box_model::style_padding(style, remaining);
            &&& -40 * MAX_AU <= p.top <= 40 * MAX_AU
            &&& -40 * MAX_AU <= p.right <= 40 * MAX_AU
            &&& -40 * MAX_AU <= p.bottom <= 40 * MAX_AU
            &&& -40 * MAX_AU <= p.left <= 40 * MAX_AU
        }),
{
    lemma_percent_bound(remaining);
}

/// A percentage of up to 1000% of a bounded containing width is bounded.
proof fn lemma_percent_bound(remaining: int)
    requires
        -4 * MAX_AU <= remaining <= 4 * MAX_AU,
    ensures
        forall|p: int|
            -100_000 <= p <= 100_000 ==> -40 * MAX_AU <= #[trigger] crate::model::resolve_percent(
                remaining,
                p,
            ) <= 40 * MAX_AU,
{
    assert forall|p: int| -100_000 <= p <= 100_000 implies -40 * MAX_AU
        <= #[trigger] crate::model::resolve_percent(remaining, p) <= 40 * MAX_AU by {
        assert(-4 * MAX_AU * 100_000 <= remaining * p <= 4 * MAX_AU * 100_000) by (nonlinear_arith)
            requires
                -4 * MAX_AU <= remaining <= 4 * MAX_AU,
                -100_000 <= p <= 100_000,
        ;
        let prod = remaining * p;
        if prod >= 0 {
            vstd::arithmetic::div_mod::lemma_div_pos_is_pos(prod, 10000);
            vstd::arithmetic::div_mod::lemma_div_is_ordered(prod, 4 * MAX_AU * 100_000, 10000);
        } else {
            let m = -prod;
            vstd::arithmetic::div_mod::lemma_div_pos_is_pos(m, 10000);
            vstd::arithmetic::div_mod::lemma_div_is_ordered(m, 4 * MAX_AU * 100_000, 10000);
        }
    }
}

} // verus!
