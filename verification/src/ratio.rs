//! Split ratios in fixed point. A ratio is held in thousandths: `1200` stands
//! for a left side 1.2 times as large as the right side.
use crate::decimal::{decimal, digit_char, push_decimal};
use vstd::prelude::*;
use vstd::string::StringExecFns;

verus! {

/// The smallest split fraction that the window manager accepts, in thousandths.
pub const HYPR_SPLIT_MIN: u32 = 100;

/// The largest split fraction that the window manager accepts, in thousandths.
pub const HYPR_SPLIT_MAX: u32 = 1900;

/// The smallest user ratio that the conversion works with, in thousandths.
pub const USER_RATIO_FLOOR: u32 = 10;

/// `2r / (r + 1)` in thousandths, rounded to the nearest thousandth (a half
/// rounds up), for a ratio `r` given in thousandths.
pub open spec fn split_fraction(r: int) -> int {
    (2 * (2000 * r) + (r + 1000)) / (2 * (r + 1000))
}

/// The window manager's split fraction for a user ratio: `2r / (r + 1)` of the
/// ratio raised to the floor, limited to what the window manager accepts.
pub open spec fn native_ratio(user: int) -> int {
    let safe = if user < USER_RATIO_FLOOR {
        USER_RATIO_FLOOR as int
    } else {
        user
    };
    let converted = split_fraction(safe);
    if converted < HYPR_SPLIT_MIN {
        HYPR_SPLIT_MIN as int
    } else if converted > HYPR_SPLIT_MAX {
        HYPR_SPLIT_MAX as int
    } else {
        converted
    }
}

/// Converts a user ratio (left size over right size) to the split fraction
/// that the window manager works with.
pub fn to_hypr_split_ratio(user_ratio: u32) -> (native: u32)
    ensures
        native == native_ratio(user_ratio as int),
        HYPR_SPLIT_MIN <= native <= HYPR_SPLIT_MAX,
{
    let safe: u64 = if user_ratio < USER_RATIO_FLOOR {
        USER_RATIO_FLOOR as u64
    } else {
        user_ratio as u64
    };
    let converted: u64 = (2 * (2000 * safe) + (safe + 1000)) / (2 * (safe + 1000));
    if converted < HYPR_SPLIT_MIN as u64 {
        HYPR_SPLIT_MIN
    } else if converted > HYPR_SPLIT_MAX as u64 {
        HYPR_SPLIT_MAX
    } else {
        converted as u32
    }
}

proof fn lemma_split_fraction_monotonic(a: int, b: int)
    requires
        0 <= a <= b,
    ensures
        split_fraction(a) <= split_fraction(b),
{
    let na = 2 * (2000 * a) + (a + 1000);
    let da = 2 * (a + 1000);
    let nb = 2 * (2000 * b) + (b + 1000);
    let db = 2 * (b + 1000);
    let qa = na / da;
    assert(qa * da <= na) by (nonlinear_arith)
        requires
            qa == na / da,
            da > 0,
    ;
    assert(na * db <= nb * da) by (nonlinear_arith)
        requires
            0 <= a <= b,
            na == 2 * (2000 * a) + (a + 1000),
            da == 2 * (a + 1000),
            nb == 2 * (2000 * b) + (b + 1000),
            db == 2 * (b + 1000),
    ;
    assert(qa * db <= nb) by (nonlinear_arith)
        requires
            qa * da <= na,
            na * db <= nb * da,
            da > 0,
            db > 0,
            na >= 0,
    ;
    assert(qa <= nb / db) by (nonlinear_arith)
        requires
            qa * db <= nb,
            db > 0,
    ;
}

/// A larger user ratio never gives a smaller split fraction.
pub proof fn law_native_ratio_monotonic(a: int, b: int)
    requires
        a <= b,
    ensures
        native_ratio(a) <= native_ratio(b),
{
    let sa = if a < USER_RATIO_FLOOR {
        USER_RATIO_FLOOR as int
    } else {
        a
    };
    let sb = if b < USER_RATIO_FLOOR {
        USER_RATIO_FLOOR as int
    } else {
        b
    };
    lemma_split_fraction_monotonic(sa, sb);
}

/// Equal sides give the fraction one.
pub proof fn law_native_ratio_of_one()
    ensures
        native_ratio(1000) == 1000,
{
    assert(split_fraction(1000) == 4_002_000int / 4_000int);
}

/// The split fraction always lies within the limits; it is the lower limit for
/// every ratio up to 52 thousandths (zero and below included), and the upper
/// limit for every ratio from 19 on.
pub proof fn law_native_ratio_bounded(r: int)
    ensures
        HYPR_SPLIT_MIN <= native_ratio(r) <= HYPR_SPLIT_MAX,
        r <= 52 ==> native_ratio(r) == HYPR_SPLIT_MIN,
        r >= 19_000 ==> native_ratio(r) == HYPR_SPLIT_MAX,
{
    if r <= 52 {
        law_native_ratio_monotonic(r, 52);
        assert(split_fraction(52) == 209_052int / 2_104int);
        assert(native_ratio(52) == 100);
    }
    if r >= 19_000 {
        law_native_ratio_monotonic(19_000, r);
        assert(split_fraction(19_000) == 76_020_000int / 40_000int);
        assert(native_ratio(19_000) == 1900);
    }
}

/// A number of thousandths written with three decimals: `1091` is `1.091`.
pub open spec fn thousandths_text(n: nat) -> Seq<char> {
    decimal(n / 1000) + seq![
        '.',
        digit_char((n / 100 % 10) as int),
        digit_char((n / 10 % 10) as int),
        digit_char((n % 10) as int),
    ]
}

/// The argument of the window manager's `splitratio` command that sets the
/// split fraction to exactly `native` thousandths.
pub open spec fn split_ratio_arg(native: nat) -> Seq<char> {
    "exact "@ + thousandths_text(native)
}

/// Writes the `splitratio` argument for a split fraction given in thousandths.
pub fn split_ratio_argument(native: u32) -> (arg: String)
    ensures
        arg@ == split_ratio_arg(native as nat),
{
    let mut arg = String::new();
    arg.append("exact ");
    push_decimal(&mut arg, (native / 1000) as u64);
    arg.push('.');
    let h: u8 = (native / 100 % 10) as u8;
    let t: u8 = (native / 10 % 10) as u8;
    let u: u8 = (native % 10) as u8;
    arg.push((48 + h) as char);
    arg.push((48 + t) as char);
    arg.push((48 + u) as char);
    assert(arg@ =~= split_ratio_arg(native as nat));
    arg
}

} // verus!
