//! Resolution of computed style values against a containing length.
//!
//! A computed length is either an absolute length, a percentage of the
//! containing block's length, or `auto` (or, for `max-width`, `none`).
//! Percentages are carried as an integer number of basis points (hundredths
//! of a percent) so that all resolution stays in integer arithmetic; they
//! are resolved at the point of use, truncating toward zero.

use vstd::prelude::*;

use crate::geometry::Au;
use crate::geometry::MAX_AU;
use crate::geometry::div_trunc;

verus! {

/// A computed value for `width`, `height` or a margin.
#[derive(Clone, Copy, PartialEq, Eq, Structural, Debug)]
pub enum LengthOrPercentageOrAuto {
    Length(Au),
    Percentage(i64),
    Auto,
}

/// A computed value for `min-width` or a padding side.
#[derive(Clone, Copy, PartialEq, Eq, Structural, Debug)]
pub enum LengthOrPercentage {
    Length(Au),
    Percentage(i64),
}

/// A computed value for `max-width`; `NoLimit` is the `none` keyword.
#[derive(Clone, Copy, PartialEq, Eq, Structural, Debug)]
pub enum LengthOrPercentageOrNone {
    Length(Au),
    Percentage(i64),
    NoLimit,
}

/// A percentage in basis points resolved against a containing length,
/// truncating toward zero.
pub open spec fn resolve_percent(containing: int, basis_points: int) -> int {
    div_trunc(containing * basis_points, 10000)
}

/// Percentages within `[-1000%, 1000%]`, so that resolution cannot
/// overflow; negative percentages occur on margins.
pub open spec fn percent_ok(basis_points: int) -> bool {
    -100_000 <= basis_points <= 100_000
}

/// Percentages within `[0, 1000%]`: what the size properties allow.
pub open spec fn percent_nonneg(basis_points: int) -> bool {
    0 <= basis_points <= 100_000
}

pub open spec fn lpa_ok(v: LengthOrPercentageOrAuto) -> bool {
    match v {
        LengthOrPercentageOrAuto::Length(a) => -MAX_AU <= a@ <= MAX_AU,
        LengthOrPercentageOrAuto::Percentage(p) => percent_ok(p as int),
        LengthOrPercentageOrAuto::Auto => true,
    }
}

pub open spec fn lp_ok(v: LengthOrPercentage) -> bool {
    match v {
        LengthOrPercentage::Length(a) => 0 <= a@ <= MAX_AU,
        LengthOrPercentage::Percentage(p) => percent_ok(p as int),
    }
}

pub open spec fn lpn_ok(v: LengthOrPercentageOrNone) -> bool {
    match v {
        LengthOrPercentageOrNone::Length(a) => 0 <= a@ <= MAX_AU,
        LengthOrPercentageOrNone::Percentage(p) => percent_ok(p as int),
        LengthOrPercentageOrNone::NoLimit => true,
    }
}

/// What `LengthOrPercentageOrAuto` resolves to: `None` stands for `auto`.
pub open spec fn from_style_spec(v: LengthOrPercentageOrAuto, containing: int) -> Option<int> {
    match v {
        LengthOrPercentageOrAuto::Length(a) => Some(a@),
        LengthOrPercentageOrAuto::Percentage(p) => Some(resolve_percent(containing, p as int)),
        LengthOrPercentageOrAuto::Auto => None,
    }
}

pub open spec fn specified_spec(v: LengthOrPercentage, containing: int) -> int {
    match v {
        LengthOrPercentage::Length(a) => a@,
        LengthOrPercentage::Percentage(p) => resolve_percent(containing, p as int),
    }
}

pub open spec fn specified_or_none_spec(v: LengthOrPercentageOrNone, containing: int) -> Option<
    int,
> {
    match v {
        LengthOrPercentageOrNone::Length(a) => Some(a@),
        LengthOrPercentageOrNone::Percentage(p) => Some(resolve_percent(containing, p as int)),
        LengthOrPercentageOrNone::NoLimit => None,
    }
}

/// Resolves a percentage in basis points against a containing length,
/// truncating toward zero.
fn resolve_percent_exec(containing: Au, basis_points: i64) -> (r: Au)
    requires
        -4 * MAX_AU <= containing@ <= 4 * MAX_AU,
        percent_ok(basis_points as int),
    ensures
        r@ == resolve_percent(containing@, basis_points as int),
{
    let c_abs = if containing.0 >= 0 {
        containing.0
    } else {
        -containing.0
    };
    let p_abs = if basis_points >= 0 {
        basis_points
    } else {
        -basis_points
    };
    proof {
        assert(0 <= c_abs * p_abs <= 4 * MAX_AU * 100_000 && (c_abs * p_abs == containing@
            * basis_points || c_abs * p_abs == -(containing@ * basis_points)))
            by (nonlinear_arith)
            requires
                c_abs == containing@ || c_abs == -containing@,
                p_abs == basis_points || p_abs == -basis_points,
                0 <= c_abs <= 4 * MAX_AU,
                0 <= p_abs <= 100_000,
        ;
        assert((containing.0 >= 0) == (basis_points >= 0) && containing@ * basis_points != 0
            ==> containing@ * basis_points > 0) by (nonlinear_arith);
        assert((containing.0 >= 0) != (basis_points >= 0) ==> containing@ * basis_points <= 0)
            by (nonlinear_arith)
            requires
                c_abs == containing@ || c_abs == -containing@,
                p_abs == basis_points || p_abs == -basis_points,
        ;
    }
    let q = (c_abs * p_abs) / 10000;
    let same_sign = (containing.0 >= 0) == (basis_points >= 0);
    if same_sign {
        proof {
            assert(containing@ * basis_points == c_abs * p_abs) by (nonlinear_arith)
                requires
                    (containing@ >= 0) == (basis_points >= 0),
                    c_abs == if containing@ >= 0 { containing@ } else { -containing@ },
                    p_abs == if basis_points >= 0 { basis_points as int } else { -basis_points },
            ;
        }
        Au(q)
    } else {
        proof {
            assert(containing@ * basis_points == -(c_abs * p_abs)) by (nonlinear_arith)
                requires
                    (containing@ >= 0) != (basis_points >= 0),
                    c_abs == if containing@ >= 0 { containing@ } else { -containing@ },
                    p_abs == if basis_points >= 0 { basis_points as int } else { -basis_points },
            ;
            if c_abs * p_abs > 0 {
                vstd::arithmetic::div_mod::lemma_div_pos_is_pos(c_abs * p_abs, 10000);
            }
        }
        Au(-q)
    }
}

/// A length that is either resolved or `auto`. The view is the resolved
/// length, `None` standing for `auto`.
#[derive(Clone, Copy, PartialEq, Eq, Structural, Debug)]
pub enum MaybeAuto {
    Auto,
    Specified(Au),
}

impl View for MaybeAuto {
    type V = Option<int>;

    open spec fn view(&self) -> Option<int> {
        match *self {
            MaybeAuto::Auto => None,
            MaybeAuto::Specified(a) => Some(a@),
        }
    }
}

/// The resolved value, or a default where the value is `auto`.
pub open spec fn specified_or(m: Option<int>, default: int) -> int {
    match m {
        Some(v) => v,
        None => default,
    }
}

impl MaybeAuto {
    /// Resolves a computed length/percentage/auto against a containing
    /// length.
    pub fn from_style(v: LengthOrPercentageOrAuto, containing: Au) -> (r: MaybeAuto)
        requires
            lpa_ok(v),
            -4 * MAX_AU <= containing@ <= 4 * MAX_AU,
        ensures
            r@ == from_style_spec(v, containing@),
    {
        match v {
            LengthOrPercentageOrAuto::Length(a) => MaybeAuto::Specified(a),
            LengthOrPercentageOrAuto::Percentage(p) => MaybeAuto::Specified(
                resolve_percent_exec(containing, p),
            ),
            LengthOrPercentageOrAuto::Auto => MaybeAuto::Auto,
        }
    }

    pub fn specified_or_zero(self) -> (r: Au)
        ensures
            r@ == specified_or(self@, 0),
    {
        match self {
            MaybeAuto::Auto => Au(0),
            MaybeAuto::Specified(a) => a,
        }
    }

    pub fn specified_or_default(self, default: Au) -> (r: Au)
        ensures
            r@ == specified_or(self@, default@),
    {
        match self {
            MaybeAuto::Auto => default,
            MaybeAuto::Specified(a) => a,
        }
    }
}

/// Resolves a `min-width`-like value, which is never `auto`.
pub fn specified(v: LengthOrPercentage, containing: Au) -> (r: Au)
    requires
        lp_ok(v),
        -4 * MAX_AU <= containing@ <= 4 * MAX_AU,
    ensures
        r@ == specified_spec(v, containing@),
{
    match v {
        LengthOrPercentage::Length(a) => a,
        LengthOrPercentage::Percentage(p) => resolve_percent_exec(containing, p),
    }
}

/// Resolves a `max-width`-like value; `None` stands for the `none` keyword.
pub fn specified_or_none(v: LengthOrPercentageOrNone, containing: Au) -> (r: Option<Au>)
    requires
        lpn_ok(v),
        -4 * MAX_AU <= containing@ <= 4 * MAX_AU,
    ensures
        match r {
            Some(a) => specified_or_none_spec(v, containing@) == Some(a@),
            None => specified_or_none_spec(v, containing@) is None,
        },
{
    match v {
        LengthOrPercentageOrNone::Length(a) => Some(a),
        LengthOrPercentageOrNone::Percentage(p) => Some(resolve_percent_exec(containing, p)),
        LengthOrPercentageOrNone::NoLimit => None,
    }
}

} // verus!
