//! The calendar, and how an instant is spelled.

use vstd::prelude::*;
use crate::calendar::{
    day_number, div_toward_zero, is_date, is_iso8601, is_leap, month_len, month_start, year_len,
    year_start,
};
use crate::text::signed_padded;
use vstd::arithmetic::div_mod::lemma_fundamental_div_mod;

verus! {

/// Every fourth year is a leap year, but of the hundredth ones only every fourth.
pub proof fn law_which_years_are_leap_years(y: int)
    ensures
        is_leap(y) <==> (y % 4 == 0 && y % 100 != 0) || y % 400 == 0,
        year_len(y) == if is_leap(y) {
            366int
        } else {
            365
        },
{
}

/// The days of the months; those of the twelve add up to the year.
pub proof fn law_the_days_of_the_months(y: int)
    ensures
        month_len(y, 1) == 31 && month_len(y, 3) == 31 && month_len(y, 5) == 31 && month_len(y, 7)
            == 31 && month_len(y, 8) == 31 && month_len(y, 10) == 31 && month_len(y, 12) == 31,
        month_len(y, 4) == 30 && month_len(y, 6) == 30 && month_len(y, 9) == 30 && month_len(y, 11)
            == 30,
        month_len(y, 2) == year_len(y) - 337,
        month_start(y, 13) == year_len(y),
{
    reveal_with_fuel(month_start, 14);
}

/// The day after a day has the next number, across the ends of months and years, and
/// the first day of 1970 has the number 0.
pub proof fn law_days_follow_each_other(y: int, m: int, d: int)
    requires
        is_date(y, m, d),
    ensures
        day_number(1970, 1, 1) == 0,
        is_date(y, m, d + 1) ==> day_number(y, m, d + 1) == day_number(y, m, d) + 1,
        d == month_len(y, m) && m < 12 ==> day_number(y, m + 1, 1) == day_number(y, m, d) + 1,
        d == month_len(y, m) && m == 12 ==> day_number(y + 1, 1, 1) == day_number(y, m, d) + 1,
{
    law_the_days_of_the_months(y);
    law_years_follow_each_other(y);
    assert(month_start(y, 13) == month_start(y, 12) + month_len(y, 12));
}

/// A year begins where the one before it ends.
pub proof fn law_years_follow_each_other(y: int)
    ensures
        year_start(1970) == 0,
        year_start(y + 1) == year_start(y) + year_len(y),
{
}

/// Which days there are.
pub proof fn law_which_days_there_are(y: int, m: int, d: int)
    ensures
        is_date(y, m, d) <==> 1 <= m && m <= 12 && 1 <= d && d <= month_len(y, m),
{
}

/// Division toward zero leaves a remainder that is smaller than the divisor and has
/// the sign of what is divided.
pub proof fn law_division_toward_zero(a: int, b: int)
    requires
        b > 0,
    ensures
        ({
            let r = a - div_toward_zero(a, b) * b;
            &&& -b < r < b
            &&& a >= 0 ==> r >= 0
            &&& a <= 0 ==> r <= 0
        }),
{
    if a >= 0 {
        lemma_fundamental_div_mod(a, b);
        let q = a / b;
        assert(b * q == q * b) by (nonlinear_arith);
    } else {
        lemma_fundamental_div_mod(-a, b);
        let q = (-a) / b;
        assert((-q) * b == -(b * q)) by (nonlinear_arith);
    }
}

/// The spelling of an instant tells its day and the hours, minutes and seconds since
/// midnight, which add up to it; before 1970 they count back from midnight.
pub proof fn law_how_an_instant_is_spelled(t: Seq<char>, s: int)
    requires
        is_iso8601(t, s),
    ensures
        exists|y: int, mo: int, d: int, h: int, min: int, sec: int| #[trigger]
            spells(t, y, mo, d, h, min, sec) && is_date(y, mo, d) && -24 < h < 24 && -60 < min < 60
                && -60 < sec < 60 && day_number(y, mo, d) * 86400 + h * 3600 + min * 60 + sec == s
                && (s >= 0 ==> h >= 0 && min >= 0 && sec >= 0) && (s <= 0 ==> h <= 0 && min <= 0
                && sec <= 0),
{
    let days = div_toward_zero(s, 86400);
    let tod = s - days * 86400;
    let h = div_toward_zero(tod, 3600);
    let min = div_toward_zero(tod - h * 3600, 60);
    let sec = tod - h * 3600 - min * 60;
    law_division_toward_zero(s, 86400);
    law_division_toward_zero(tod, 3600);
    law_division_toward_zero(tod - h * 3600, 60);
    let (y, mo, d) = choose|y: int, mo: int, d: int|
        {
            &&& is_date(y, mo, d)
            &&& #[trigger] day_number(y, mo, d) == days
            &&& t == signed_padded(y, 4) + "-"@ + signed_padded(mo, 2) + "-"@ + signed_padded(d, 2)
                + "T"@ + signed_padded(h, 2) + ":"@ + signed_padded(min, 2) + ":"@ + signed_padded(
                sec,
                2,
            ) + "Z"@
        };
    assert(spells(t, y, mo, d, h, min, sec));
}

/// `t` is the date and the time of day in ISO 8601, in UTC.
pub open spec fn spells(
    t: Seq<char>,
    y: int,
    mo: int,
    d: int,
    h: int,
    min: int,
    sec: int,
) -> bool {
    t == signed_padded(y, 4) + "-"@ + signed_padded(mo, 2) + "-"@ + signed_padded(d, 2) + "T"@
        + signed_padded(h, 2) + ":"@ + signed_padded(min, 2) + ":"@ + signed_padded(sec, 2) + "Z"@
}

} // verus!
