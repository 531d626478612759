//! UTC timestamps in the RFC 3339 / ISO-8601 form the file-tree store writes,
//! computed from seconds since the Unix epoch.

use vstd::prelude::*;

use crate::text::{padded_decimal, push_padded_decimal, string_push};

verus! {

/// The Gregorian leap-year rule.
pub open spec fn is_leap_year(y: int) -> bool {
    y % 4 == 0 && (y % 100 != 0 || y % 400 == 0)
}

/// Days in year `y`.
pub open spec fn year_len(y: int) -> nat {
    if is_leap_year(y) {
        366
    } else {
        365
    }
}

/// Days in month `m` (1 to 12) of year `y`.
pub open spec fn month_len(y: int, m: int) -> nat {
    if m == 2 {
        if is_leap_year(y) {
            29
        } else {
            28
        }
    } else if m == 4 || m == 6 || m == 9 || m == 11 {
        30
    } else {
        31
    }
}

/// Walk whole years from year `y`: the year day `d` falls in, and the day
/// within it.
pub open spec fn year_of(d: nat, y: nat) -> (nat, nat)
    decreases d,
{
    if d < year_len(y as int) {
        (y, d)
    } else {
        year_of((d - year_len(y as int)) as nat, y + 1)
    }
}

/// Walk whole months from month `m` of year `y`: the month day `d` of the year
/// falls in, and the day within it.
pub open spec fn month_of(d: nat, y: int, m: nat) -> (nat, nat)
    decreases 13 - m,
{
    if m > 12 || d < month_len(y, m as int) {
        (m, d)
    } else {
        month_of((d - month_len(y, m as int)) as nat, y, m + 1)
    }
}

/// (year, month, day of month) of the day `d` days after 1970-01-01.
pub open spec fn spec_days_to_ymd(d: nat) -> (nat, nat, nat) {
    let (y, r) = year_of(d, 1970);
    let (m, dd) = month_of(r, y as int, 1);
    (y, m, dd + 1)
}

/// Days from 1970-01-01 to the first day of year `y` (for `y >= 1970`).
pub open spec fn days_before_year(y: int) -> nat
    decreases y - 1970,
{
    if y <= 1970 {
        0
    } else {
        days_before_year(y - 1) + year_len(y - 1)
    }
}

/// Days from the first of the year to the first of month `m` of year `y`.
pub open spec fn days_before_month(y: int, m: int) -> nat
    decreases m,
{
    if m <= 1 {
        0
    } else {
        days_before_month(y, m - 1) + month_len(y, m - 1)
    }
}

proof fn lemma_year_of(d: nat, y0: nat)
    requires
        y0 >= 1970,
    ensures
        year_of(d, y0).0 >= y0,
        year_of(d, y0).1 < year_len(year_of(d, y0).0 as int),
        days_before_year(y0 as int) + d == days_before_year(year_of(d, y0).0 as int) + year_of(d, y0).1,
    decreases d,
{
    if d >= year_len(y0 as int) {
        lemma_year_of((d - year_len(y0 as int)) as nat, y0 + 1);
    }
}

proof fn lemma_months_fill_year(y: int)
    ensures
        days_before_month(y, 13) == year_len(y),
{
    reveal_with_fuel(days_before_month, 13);
}

proof fn lemma_month_of(r: nat, y: int, m: nat)
    requires
        1 <= m <= 12,
        days_before_month(y, m as int) + r < days_before_month(y, 13),
    ensures
        m <= month_of(r, y, m).0 <= 12,
        month_of(r, y, m).1 < month_len(y, month_of(r, y, m).0 as int),
        days_before_month(y, m as int) + r == days_before_month(y, month_of(r, y, m).0 as int)
            + month_of(r, y, m).1,
    decreases 13 - m,
{
    if r >= month_len(y, m as int) {
        if m == 12 {
            assert(days_before_month(y, 13) == days_before_month(y, 12) + month_len(y, 12));
        } else {
            lemma_month_of((r - month_len(y, m as int)) as nat, y, m + 1);
        }
    }
}

/// `days_to_ymd` gives a valid calendar date (month 1 to 12, day within the
/// month, year from 1970 on), and that date lies exactly `d` days after
/// 1970-01-01.
pub proof fn lemma_days_to_ymd_is_calendar_date(d: nat)
    ensures
        ({
            let (y, m, day) = spec_days_to_ymd(d);
            &&& y >= 1970
            &&& 1 <= m <= 12
            &&& 1 <= day <= month_len(y as int, m as int)
            &&& days_before_year(y as int) + days_before_month(y as int, m as int) + day - 1 == d
        }),
{
    lemma_year_of(d, 1970);
    let (y, r) = year_of(d, 1970);
    lemma_months_fill_year(y as int);
    lemma_month_of(r, y as int, 1);
}

/// Whether `y` is a leap year.
pub fn is_leap(y: u32) -> (b: bool)
    ensures
        b == is_leap_year(y as int),
{
    y % 4 == 0 && (y % 100 != 0 || y % 400 == 0)
}

fn days_in_month(y: u32, m: u32) -> (n: u32)
    requires
        1 <= m <= 12,
    ensures
        n == month_len(y as int, m as int),
{
    if m == 2 {
        if is_leap(y) {
            29
        } else {
            28
        }
    } else if m == 4 || m == 6 || m == 9 || m == 11 {
        30
    } else {
        31
    }
}

/// The calendar date (year, month, day) `d` days after 1970-01-01.
pub fn days_to_ymd(d: u32) -> (r: (u32, u32, u32))
    ensures
        (r.0 as nat, r.1 as nat, r.2 as nat) == spec_days_to_ymd(d as nat),
{
    let ghost d0 = d as nat;
    let mut d = d;
    let mut year: u32 = 1970;
    loop
        invariant
            year >= 1970,
            365 * (year - 1970) + d <= d0,
            d0 <= u32::MAX,
            year_of(d0, 1970) == year_of(d as nat, year as nat),
        ensures
            year_of(d0, 1970) == (year as nat, d as nat),
            d < 366,
        decreases d,
    {
        let days_in_year: u32 = if is_leap(year) {
            366
        } else {
            365
        };
        if d < days_in_year {
            break;
        }
        d = d - days_in_year;
        year = year + 1;
    }
    let ghost r0 = d as nat;
    let mut month: u32 = 1;
    while month <= 12 && d >= days_in_month(year, month)
        invariant
            1 <= month <= 13,
            d <= r0,
            r0 < 366,
            month_of(r0, year as int, 1) == month_of(d as nat, year as int, month as nat),
        decreases 13 - month,
    {
        d = d - days_in_month(year, month);
        month = month + 1;
    }
    assert(month_of(d as nat, year as int, month as nat) == (month as nat, d as nat));
    (year, month, d + 1)
}

/// The ISO-8601 UTC stamp `YYYY-MM-DDTHH:MM:SSZ` of `secs` seconds after the
/// epoch; the day count is taken modulo 2^32.
pub open spec fn spec_iso8601(secs: nat) -> Seq<char> {
    let day_total = ((secs / 60) / 60) / 24;
    let (y, mo, d) = spec_days_to_ymd(day_total % 0x1_0000_0000);
    padded_decimal(y, 4) + seq!['-'] + padded_decimal(mo, 2) + seq!['-'] + padded_decimal(d, 2)
        + seq!['T'] + padded_decimal(((secs / 60) / 60) % 24, 2) + seq![':'] + padded_decimal(
        (secs / 60) % 60,
        2,
    ) + seq![':'] + padded_decimal(secs % 60, 2) + seq!['Z']
}

/// The calendar day after (year, month, day).
pub open spec fn next_day(date: (nat, nat, nat)) -> (nat, nat, nat) {
    let (y, m, d) = date;
    if d < month_len(y as int, m as int) {
        (y, m, d + 1)
    } else if m < 12 {
        (y, m + 1, 1)
    } else {
        (y + 1, 1, 1)
    }
}

/// (year, month, day) is a date from 1970 on.
pub open spec fn valid_date(date: (nat, nat, nat)) -> bool {
    let (y, m, d) = date;
    y >= 1970 && 1 <= m <= 12 && 1 <= d <= month_len(y as int, m as int)
}

/// Days from 1970-01-01 to a date.
pub open spec fn day_number(date: (nat, nat, nat)) -> int {
    let (y, m, d) = date;
    days_before_year(y as int) + days_before_month(y as int, m as int) + d - 1
}

proof fn lemma_years_ordered(y1: int, y2: int)
    requires
        1970 <= y1 < y2,
    ensures
        days_before_year(y1) + year_len(y1) <= days_before_year(y2),
    decreases y2 - y1,
{
    if y2 - 1 > y1 {
        lemma_years_ordered(y1, y2 - 1);
    }
}

proof fn lemma_months_ordered(y: int, m1: int, m2: int)
    requires
        1 <= m1 < m2 <= 13,
    ensures
        days_before_month(y, m1) + month_len(y, m1) <= days_before_month(y, m2),
    decreases m2 - m1,
{
    if m2 - 1 > m1 {
        lemma_months_ordered(y, m1, m2 - 1);
    }
}

proof fn lemma_day_within_year(date: (nat, nat, nat))
    requires
        valid_date(date),
    ensures
        days_before_month(date.0 as int, date.1 as int) + date.2 - 1 < year_len(date.0 as int),
{
    let (y, m, d) = date;
    lemma_months_fill_year(y as int);
    if m < 12 {
        lemma_months_ordered(y as int, m as int, 13);
    } else {
        assert(days_before_month(y as int, 13) == days_before_month(y as int, 12) + month_len(y as int, 12));
    }
}

proof fn lemma_day_number_injective(a: (nat, nat, nat), b: (nat, nat, nat))
    requires
        valid_date(a),
        valid_date(b),
        day_number(a) == day_number(b),
    ensures
        a == b,
{
    lemma_day_within_year(a);
    lemma_day_within_year(b);
    if a.0 < b.0 {
        lemma_years_ordered(a.0 as int, b.0 as int);
    } else if b.0 < a.0 {
        lemma_years_ordered(b.0 as int, a.0 as int);
    }
    assert(a.0 == b.0);
    if a.1 < b.1 {
        lemma_months_ordered(a.0 as int, a.1 as int, b.1 as int);
    } else if b.1 < a.1 {
        lemma_months_ordered(a.0 as int, b.1 as int, a.1 as int);
    }
}

/// The day after day `n` is the calendar day after the date of `n`.
pub proof fn law_next_day_is_calendar_successor(n: nat)
    ensures
        spec_days_to_ymd(n + 1) == next_day(spec_days_to_ymd(n)),
        valid_date(spec_days_to_ymd(n)),
        day_number(spec_days_to_ymd(n)) == n,
{
    lemma_days_to_ymd_is_calendar_date(n);
    lemma_days_to_ymd_is_calendar_date(n + 1);
    let a = spec_days_to_ymd(n);
    let nx = next_day(a);
    let (y, m, d) = a;
    if d < month_len(y as int, m as int) {
    } else if m < 12 {
        assert(days_before_month(y as int, (m + 1) as int) == days_before_month(y as int, m as int) + month_len(y as int, m as int));
    } else {
        lemma_months_fill_year(y as int);
        assert(days_before_month(y as int, 13) == days_before_month(y as int, 12) + month_len(y as int, 12));
        assert(days_before_year((y + 1) as int) == days_before_year(y as int) + year_len(y as int));
        assert(days_before_month((y + 1) as int, 1) == 0);
    }
    assert(valid_date(nx));
    assert(day_number(nx) == n + 1);
    lemma_day_number_injective(spec_days_to_ymd(n + 1), nx);
}

/// `x` is the stamp of some second.
pub open spec fn is_iso8601_stamp(x: Seq<char>) -> bool {
    exists|secs: u64| #[trigger] spec_iso8601(secs as nat) == x
}

/// Format `secs` seconds after the epoch as an ISO-8601 UTC stamp.
pub fn format_iso8601(secs: u64) -> (r: String)
    ensures
        r@ == spec_iso8601(secs as nat),
{
    let min = secs / 60;
    let hour = min / 60;
    let day_total = hour / 24;
    let sec = secs % 60;
    let min = min % 60;
    let hour = hour % 24;
    let day32: u32 = (day_total % 0x1_0000_0000) as u32;
    let (year, month, day) = days_to_ymd(day32);
    let mut s = String::new();
    push_padded_decimal(&mut s, year as u64, 4);
    string_push(&mut s, '-');
    push_padded_decimal(&mut s, month as u64, 2);
    string_push(&mut s, '-');
    push_padded_decimal(&mut s, day as u64, 2);
    string_push(&mut s, 'T');
    push_padded_decimal(&mut s, hour, 2);
    string_push(&mut s, ':');
    push_padded_decimal(&mut s, min, 2);
    string_push(&mut s, ':');
    push_padded_decimal(&mut s, sec, 2);
    string_push(&mut s, 'Z');
    proof {
        assert(s@ =~= spec_iso8601(secs as nat));
    }
    s
}

/// The current UTC time as an ISO-8601 stamp.
pub fn now_iso8601() -> (r: String)
    ensures
        is_iso8601_stamp(r@),
{
    let secs = crate::clock::now_unix_secs();
    let r = format_iso8601(secs);
    assert(spec_iso8601(secs as nat) == r@);
    r
}

} // verus!
