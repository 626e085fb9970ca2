//! Civil dates of the proleptic Gregorian calendar, from day counts, and the
//! timestamps that the manifest and the pack profile record.

use vstd::prelude::*;
use crate::text::{signed_padded, signed_padded_of};

verus! {

/// Whether `y` is a leap year.
pub open spec fn is_leap(y: int) -> bool {
    y % 4 == 0 && (y % 100 != 0 || y % 400 == 0)
}

/// The number of days in year `y`.
pub open spec fn year_len(y: int) -> int {
    if is_leap(y) {
        366
    } else {
        365
    }
}

/// The number of days in month `m` of year `y`.
pub open spec fn month_len(y: int, m: int) -> int {
    if m == 2 {
        if is_leap(y) {
            29
        } else {
            28
        }
    } else if m == 4 || m == 6 || m == 9 || m == 11 {
        30
    } else {
        31
    }
}

/// Days from 1970-01-01 to the first day of year `y`, negative before 1970.
pub open spec fn year_start(y: int) -> int
    decreases
            if y >= 1970 {
                y - 1970
            } else {
                1970 - y
            },
{
    if y == 1970 {
        0
    } else if y > 1970 {
        year_start(y - 1) + year_len(y - 1)
    } else {
        year_start(y + 1) - year_len(y)
    }
}

/// Days from the first day of year `y` to the first day of its month `m`.
pub open spec fn month_start(y: int, m: int) -> int
    decreases m,
{
    if m <= 1 {
        0
    } else {
        month_start(y, m - 1) + month_len(y, m - 1)
    }
}

/// Whether `y`-`m`-`d` names a day of the calendar.
pub open spec fn is_date(y: int, m: int, d: int) -> bool {
    1 <= m <= 12 && 1 <= d <= month_len(y, m)
}

/// Days from 1970-01-01 to `y`-`m`-`d`.
pub open spec fn day_number(y: int, m: int, d: int) -> int {
    year_start(y) + month_start(y, m) + d - 1
}

/// Leap years up to and including year `y`, counted from year 1.
spec fn leaps_through(y: int) -> int {
    y / 4 - y / 100 + y / 400
}

proof fn lemma_leap_step(y: int)
    ensures
        leaps_through(y) - leaps_through(y - 1) == (if is_leap(y) {
            1int
        } else {
            0
        }),
{
    assert(y / 4 - (y - 1) / 4 == (if y % 4 == 0 { 1int } else { 0 }));
    assert(y / 100 - (y - 1) / 100 == (if y % 100 == 0 { 1int } else { 0 }));
    assert(y / 400 - (y - 1) / 400 == (if y % 400 == 0 { 1int } else { 0 }));
}

proof fn lemma_year_start(y: int)
    ensures
        year_start(y) == 365 * (y - 1970) + leaps_through(y - 1) - 477,
    decreases
            if y >= 1970 {
                y - 1970
            } else {
                1970 - y
            },
{
    if y > 1970 {
        lemma_year_start(y - 1);
        lemma_leap_step(y - 1);
    } else if y < 1970 {
        lemma_year_start(y + 1);
        lemma_leap_step(y);
    }
}

proof fn lemma_month_start(y: int)
    ensures
        month_start(y, 1) == 0,
        month_start(y, 2) == 31,
        forall|m: int|
            3 <= m <= 12 ==> #[trigger] month_start(y, m) == (153 * (m - 3) + 2) / 5 + (if is_leap(y) {
                60int
            } else {
                59
            }),
        forall|m: int|
            3 <= m <= 11 ==> #[trigger] month_len(y, m) == (153 * (m - 2) + 2) / 5 - (153 * (m - 3) + 2) / 5,
{
    reveal_with_fuel(month_start, 13);
    assert forall|m: int| 3 <= m <= 12 implies #[trigger] month_start(y, m) == (153 * (m - 3) + 2) / 5
        + (if is_leap(y) {
        60int
    } else {
        59
    }) by {
        assert(m == 3 || m == 4 || m == 5 || m == 6 || m == 7 || m == 8 || m == 9 || m == 10 || m
            == 11 || m == 12);
    }
    assert forall|m: int| 3 <= m <= 11 implies #[trigger] month_len(y, m) == (153 * (m - 2) + 2) / 5
        - (153 * (m - 3) + 2) / 5 by {
        assert(m == 3 || m == 4 || m == 5 || m == 6 || m == 7 || m == 8 || m == 9 || m == 10 || m
            == 11);
    }
}

/// The year of a 400-year cycle that holds day `doe` of the cycle, where years
/// begin in March, and the day within that year.
proof fn lemma_year_of_cycle(doe: int)
    requires
        0 <= doe <= 146096,
    ensures
        ({
            let yoe = (doe - doe / 1460 + doe / 36524 - doe / 146096) / 365;
            let doy = doe - (365 * yoe + yoe / 4 - yoe / 100);
            &&& 0 <= yoe <= 399
            &&& 0 <= doy <= 365
            &&& doy == 365 ==> (yoe % 4 == 3 && (yoe % 100 != 99 || yoe == 399))
        }),
{
    let yoe = (doe - doe / 1460 + doe / 36524 - doe / 146096) / 365;
    let c = doe / 36524;
    if doe == 146096 {
        assert(yoe == 399);
    } else {
        assert(0 <= c <= 3);
        let r = doe - 36524 * c;
        let q = r / 1461;
        let s = r - 1461 * q;
        assert(0 <= s < 1461);
        assert(0 <= q <= 24);
        assert(doe == 36524 * c + 1461 * q + s);
        let k = doe / 1460;
        // 36524 * c + 1461 * q + s == 1460 * (25 * c + q) + (24 * c + q + s)
        assert(0 <= 24 * c + q + s < 1460 + 97);
        assert(k == 25 * c + q || k == 25 * c + q + 1);
        let t = doe - k + c;
        assert(t == 36500 * c + 1460 * q + s || t == 36500 * c + 1460 * q + s - 1);
    }
}

/// Day `doy` of year `yoe` of cycle `era`, in years that begin in March, as a
/// date of years that begin in January.
proof fn lemma_date_of(era: int, yoe: int, doy: int)
    requires
        0 <= yoe <= 399,
        0 <= doy <= 365,
        doy == 365 ==> (yoe % 4 == 3 && (yoe % 100 != 99 || yoe == 399)),
    ensures
        ({
            let mp = (5 * doy + 2) / 153;
            let d = doy - (153 * mp + 2) / 5 + 1;
            let m = if mp < 10 {
                mp + 3
            } else {
                mp - 9
            };
            let y = yoe + era * 400;
            let y2 = if m <= 2 {
                y + 1
            } else {
                y
            };
            &&& 0 <= mp <= 11
            &&& is_date(y2, m, d)
            &&& day_number(y2, m, d) == era * 146097 + 365 * yoe + yoe / 4 - yoe / 100 + doy
                - 719468
        }),
{
    let mp = (5 * doy + 2) / 153;
    let start = (153 * mp + 2) / 5;
    let d = doy - start + 1;
    let y = yoe + era * 400;
    assert(y / 4 == yoe / 4 + 100 * era);
    assert(y / 100 == yoe / 100 + 4 * era);
    assert(y / 400 == era);
    assert(leaps_through(y) == 97 * era + yoe / 4 - yoe / 100);
    assert(1 <= d);
    if mp < 10 {
        let m = mp + 3;
        lemma_year_start(y);
        lemma_leap_step(y);
        lemma_month_start(y);
        assert(month_start(y, m) == start + (if is_leap(y) {
            60int
        } else {
            59
        }));
        if mp < 9 {
            assert(month_len(y, m) == (153 * (m - 2) + 2) / 5 - (153 * (m - 3) + 2) / 5);
        }
        assert(is_date(y, m, d));
    } else {
        let m = mp - 9;
        lemma_year_start(y + 1);
        lemma_month_start(y + 1);
        if mp == 11 && d == 29 {
            assert(doy == 365);
            assert((y + 1) % 4 == 0);
            if yoe == 399 {
                assert((y + 1) % 400 == 0);
            } else {
                assert((y + 1) % 100 != 0);
            }
        }
        assert(is_date(y + 1, m, d));
    }
}

/// The civil date `days` days after 1970-01-01: year, month and day of month.
pub fn days_to_ymd(days: i64) -> (r: (i64, i64, i64))
    requires
        days <= i64::MAX - 719468,
    ensures
        is_date(r.0 as int, r.1 as int, r.2 as int),
        day_number(r.0 as int, r.1 as int, r.2 as int) == days,
{
    let z: i64 = days + 719468;
    let era: i64 = (if z >= 0 {
        z
    } else {
        z - 146096
    }) / 146097;
    let doe: i64 = z - era * 146097;
    proof {
        assert(0 <= doe <= 146096);
        lemma_year_of_cycle(doe as int);
        let yoe = (doe - doe / 1460 + doe / 36524 - doe / 146096) / 365;
        lemma_date_of(era as int, yoe, doe - (365 * yoe + yoe / 4 - yoe / 100));
    }
    let yoe: i64 = (doe - doe / 1460 + doe / 36524 - doe / 146096) / 365;
    let y: i64 = yoe + era * 400;
    let doy: i64 = doe - (365 * yoe + yoe / 4 - yoe / 100);
    let mp: i64 = (5 * doy + 2) / 153;
    let d: i64 = doy - (153 * mp + 2) / 5 + 1;
    let m: i64 = if mp < 10 {
        mp + 3
    } else {
        mp - 9
    };
    let y2: i64 = if m <= 2 {
        y + 1
    } else {
        y
    };
    (y2, m, d)
}

/// Division that rounds toward zero.
pub open spec fn div_toward_zero(a: int, b: int) -> int
    recommends
        b > 0,
{
    if a >= 0 {
        a / b
    } else {
        -((-a) / b)
    }
}

/// `t` is the ISO 8601 spelling, in UTC, of `s` seconds after 1970-01-01.
///
/// Before 1970 the time of day counts back from midnight, as a remainder does
/// whose division rounds toward zero.
pub open spec fn is_iso8601(t: Seq<char>, s: int) -> bool {
    let days = div_toward_zero(s, 86400);
    let tod = s - days * 86400;
    let h = div_toward_zero(tod, 3600);
    let min = div_toward_zero(tod - h * 3600, 60);
    let sec = tod - h * 3600 - min * 60;
    exists|y: int, mo: int, d: int|
        {
            &&& is_date(y, mo, d)
            &&& #[trigger] day_number(y, mo, d) == days
            &&& t == signed_padded(y, 4) + "-"@ + signed_padded(mo, 2) + "-"@ + signed_padded(d, 2)
                + "T"@ + signed_padded(h, 2) + ":"@ + signed_padded(min, 2) + ":"@ + signed_padded(
                sec,
                2,
            ) + "Z"@
        }
}

/// The ISO 8601 spelling, in UTC, of the instant `s` seconds after 1970-01-01.
pub fn format_iso8601(s: i64) -> (r: String)
    ensures
        is_iso8601(r@, s as int),
{
    let days: i64 = s / 86400;
    let tod: i64 = s % 86400;
    let h: i64 = tod / 3600;
    let rest: i64 = tod % 3600;
    let m: i64 = rest / 60;
    let sec: i64 = tod % 60;
    assert(days == div_toward_zero(s as int, 86400));
    assert(tod == s - days * 86400);
    assert(h == div_toward_zero(tod as int, 3600));
    assert(rest == tod - h * 3600);
    assert(m == div_toward_zero(tod - h * 3600, 60));
    assert(sec == tod - h * 3600 - m * 60);
    let (y, mo, d) = days_to_ymd(days);
    let mut out = signed_padded_of(y, 4);
    out.append("-");
    out.append(signed_padded_of(mo, 2).as_str());
    out.append("-");
    out.append(signed_padded_of(d, 2).as_str());
    out.append("T");
    out.append(signed_padded_of(h, 2).as_str());
    out.append(":");
    out.append(signed_padded_of(m, 2).as_str());
    out.append(":");
    out.append(signed_padded_of(sec, 2).as_str());
    out.append("Z");
    assert(day_number(y as int, mo as int, d as int) == days);
    out
}

/// `std::time::SystemTime::now`, as whole seconds since 1970-01-01; zero
/// where the clock stands before that. Nothing is known of the value.
#[verifier::external_body]
fn unix_seconds() -> (r: u64) {
    std::time::SystemTime::now()
        .duration_since(std::time::UNIX_EPOCH)
        .unwrap_or_default()
        .as_secs()
}

/// The current time as an ISO 8601 timestamp in UTC.
pub fn now_iso8601() -> (r: String)
    ensures
        exists|secs: u64| #[trigger] is_iso8601(r@, (secs as i64) as int),
{
    let secs: u64 = unix_seconds();
    let out = format_iso8601(secs as i64);
    assert(is_iso8601(out@, (secs as i64) as int));
    out
}

} // verus!
