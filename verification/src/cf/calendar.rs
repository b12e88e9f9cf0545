//! Day numbers of the Julian and the Gregorian calendars.
//!
//! A day number counts days continuously across both calendars (the
//! astronomical Julian Day Number at noon): Julian 1582-10-04 is day
//! 2299160 and Gregorian 1582-10-15, the next day, is day 2299161. The
//! formulas hold for every year, with division rounded down.

use vstd::prelude::*;
use vstd::arithmetic::div_mod::{
    lemma_div_is_ordered, lemma_fundamental_div_mod, lemma_fundamental_div_mod_converse,
};

verus! {

/// The year counted from March 4801 BCE, so that leap days end a year.
pub open spec fn march_year(y: int, m: int) -> int {
    y + 4800 - (14 - m) / 12
}

/// The month counted from March (0 = March, 11 = February).
pub open spec fn march_month(m: int) -> int {
    m + 12 * ((14 - m) / 12) - 3
}

/// The day number of Julian calendar date `y-m-d`.
pub open spec fn julian_day_number(y: int, m: int, d: int) -> int {
    let yy = march_year(y, m);
    d + (153 * march_month(m) + 2) / 5 + 365 * yy + yy / 4 - 32083
}

/// The day number of Gregorian calendar date `y-m-d`.
pub open spec fn gregorian_day_number(y: int, m: int, d: int) -> int {
    let yy = march_year(y, m);
    d + (153 * march_month(m) + 2) / 5 + 365 * yy + yy / 4 - yy / 100 + yy / 400 - 32045
}

/// The Julian calendar date (year, month, day) of day number `j`.
pub open spec fn julian_date_of_day(j: int) -> (int, int, int) {
    let c = j + 32082;
    let d = (4 * c + 3) / 1461;
    let e = c - (1461 * d) / 4;
    let m = (5 * e + 2) / 153;
    (d - 4800 + m / 10, m + 3 - 12 * (m / 10), e - (153 * m + 2) / 5 + 1)
}

/// The Gregorian calendar date (year, month, day) of day number `j`.
pub open spec fn gregorian_date_of_day(j: int) -> (int, int, int) {
    let a = j + 32044;
    let b = (4 * a + 3) / 146097;
    let c = a - (146097 * b) / 4;
    let d = (4 * c + 3) / 1461;
    let e = c - (1461 * d) / 4;
    let m = (5 * e + 2) / 153;
    (100 * b + d - 4800 + m / 10, m + 3 - 12 * (m / 10), e - (153 * m + 2) / 5 + 1)
}

/// Whether `y` is a leap year of the Julian calendar (every fourth year).
pub open spec fn is_julian_leap_year(y: int) -> bool {
    (y / 4) * 4 == y
}

/// The number of days of month `m` of year `y` in the Julian calendar.
pub open spec fn julian_month_length(y: int, m: int) -> int {
    if m == 2 {
        if is_julian_leap_year(y) {
            29
        } else {
            28
        }
    } else if m == 4 || m == 6 || m == 9 || m == 11 {
        30
    } else {
        31
    }
}

/// `y-m-d` is a date of the Julian calendar.
pub open spec fn is_julian_date(y: int, m: int, d: int) -> bool {
    1 <= m <= 12 && 1 <= d <= julian_month_length(y, m)
}

/// Whether `y` is a leap year of the Gregorian calendar.
pub open spec fn is_gregorian_leap_year(y: int) -> bool {
    (y / 4) * 4 == y && ((y / 100) * 100 != y || (y / 400) * 400 == y)
}

/// The number of days of month `m` of year `y` in the Gregorian calendar.
pub open spec fn gregorian_month_length(y: int, m: int) -> int {
    if m == 2 {
        if is_gregorian_leap_year(y) {
            29
        } else {
            28
        }
    } else if m == 4 || m == 6 || m == 9 || m == 11 {
        30
    } else {
        31
    }
}

/// `y-m-d` is a date of the Gregorian calendar.
pub open spec fn is_gregorian_date(y: int, m: int, d: int) -> bool {
    1 <= m <= 12 && 1 <= d <= gregorian_month_length(y, m)
}

/// The numbers that the day-number arithmetic here handles without overflow.
pub open spec fn in_day_range(x: int) -> bool {
    -0x1000_0000_0000_0000 <= x <= 0x1000_0000_0000_0000
}

/// The day of the March-based year on which month `mm` (0 = March) starts.
proof fn month_start_facts(mm: int, d: int, len: int)
    requires
        0 <= mm <= 11,
        1 <= d <= len,
        len <= (if mm == 11 {
            29int
        } else if mm == 1 || mm == 3 || mm == 6 || mm == 8 {
            30
        } else {
            31
        }),
    ensures
        ({
            let day_of_year = d - 1 + (153 * mm + 2) / 5;
            &&& 0 <= day_of_year <= 365
            &&& (5 * day_of_year + 2) / 153 == mm
            &&& day_of_year == 365 ==> mm == 11 && d == 29
        }),
{
    let t = (153 * mm + 2) / 5;
    let dy = d - 1 + t;
    let r = 5 * dy + 2 - 153 * mm;
    // the first day of each month: 0, 31, 61, 92, 122, 153, 184, 214, 245, 275, 306, 337
    assert(0 <= dy <= 365 && (dy == 365 ==> mm == 11 && d == 29) && 0 <= r < 153) by {
        if mm == 0 { assert(t == 0); }
        else if mm == 1 { assert(t == 31); }
        else if mm == 2 { assert(t == 61); }
        else if mm == 3 { assert(t == 92); }
        else if mm == 4 { assert(t == 122); }
        else if mm == 5 { assert(t == 153); }
        else if mm == 6 { assert(t == 184); }
        else if mm == 7 { assert(t == 214); }
        else if mm == 8 { assert(t == 245); }
        else if mm == 9 { assert(t == 275); }
        else if mm == 10 { assert(t == 306); }
        else { assert(t == 337); }
    }
    lemma_fundamental_div_mod_converse(5 * dy + 2, 153, mm, r);
}

/// Reading the day number of a Julian date back gives the same date.
pub proof fn julian_date_round_trip(y: int, m: int, d: int)
    requires
        is_julian_date(y, m, d),
    ensures
        julian_date_of_day(julian_day_number(y, m, d)) == (y, m, d),
{
    let a: int = if m <= 2 { 1 } else { 0 };
    lemma_fundamental_div_mod_converse(14 - m, 12, a, 14 - m - 12 * a);
    let yy = march_year(y, m);
    let mm = march_month(m);
    assert(mm == m + 12 * a - 3 && yy == y + 4800 - a);
    let q = yy / 4;
    let r = yy % 4;
    lemma_fundamental_div_mod(yy, 4);
    vstd::arithmetic::div_mod::lemma_mod_bound(yy, 4);
    assert(mm == 11 ==> (is_julian_leap_year(y) <==> r == 3)) by {
        if mm == 11 {
            let qy = y / 4;
            let ry = y % 4;
            lemma_fundamental_div_mod(y, 4);
            vstd::arithmetic::div_mod::lemma_mod_bound(y, 4);
            assert(yy == y + 4799);
            if ry == 0 {
                lemma_fundamental_div_mod_converse(yy, 4, qy + 1199, 3);
            } else {
                lemma_fundamental_div_mod_converse(yy, 4, qy + 1200, ry - 1);
            }
        }
    }
    let len = julian_month_length(y, m);
    month_start_facts(mm, d, len);
    let t = (153 * mm + 2) / 5;
    let dy = d - 1 + t;
    let c = julian_day_number(y, m, d) + 32082;
    assert(c == dy + 365 * yy + q);
    assert(4 * c + 3 == 1461 * yy + (4 * dy + 3 - r));
    lemma_fundamental_div_mod_converse(4 * c + 3, 1461, yy, 4 * dy + 3 - r);
    lemma_fundamental_div_mod_converse(1461 * yy, 4, 1461 * q + 365 * r, r);
    let e = c - (1461 * yy) / 4;
    assert(e == dy);
    let m5 = (5 * e + 2) / 153;
    assert(m5 == mm);
    lemma_fundamental_div_mod_converse(mm, 10, a, mm - 10 * a);
}

/// Reading the day number of a Gregorian date back gives the same date.
pub proof fn gregorian_date_round_trip(y: int, m: int, d: int)
    requires
        is_gregorian_date(y, m, d),
    ensures
        gregorian_date_of_day(gregorian_day_number(y, m, d)) == (y, m, d),
{
    let a: int = if m <= 2 { 1 } else { 0 };
    lemma_fundamental_div_mod_converse(14 - m, 12, a, 14 - m - 12 * a);
    let yy = march_year(y, m);
    let mm = march_month(m);
    assert(mm == m + 12 * a - 3 && yy == y + 4800 - a);
    // yy = 400 p + 100 c + 4 q + r
    let p = yy / 400;
    let r1 = yy % 400;
    lemma_fundamental_div_mod(yy, 400);
    vstd::arithmetic::div_mod::lemma_mod_bound(yy, 400);
    let c = r1 / 100;
    let r2 = r1 % 100;
    lemma_fundamental_div_mod(r1, 100);
    vstd::arithmetic::div_mod::lemma_mod_bound(r1, 100);
    let q = r2 / 4;
    let r = r2 % 4;
    lemma_fundamental_div_mod(r2, 4);
    vstd::arithmetic::div_mod::lemma_mod_bound(r2, 4);
    assert(0 <= c <= 3) by {
        lemma_fundamental_div_mod_converse(r1, 100, c, r2);
    }
    assert(0 <= q <= 24) by {
        lemma_fundamental_div_mod_converse(r2, 4, q, r);
    }
    assert(yy == 400 * p + 100 * c + 4 * q + r);
    lemma_fundamental_div_mod_converse(yy, 4, 100 * p + 25 * c + q, r);
    lemma_fundamental_div_mod_converse(yy, 100, 4 * p + c, 4 * q + r);
    lemma_fundamental_div_mod_converse(yy, 400, p, 100 * c + 4 * q + r);
    let len = gregorian_month_length(y, m);
    month_start_facts(mm, d, len);
    let t = (153 * mm + 2) / 5;
    let dy = d - 1 + t;
    // a February 29th lies in a leap year
    assert(dy == 365 ==> r == 3 && (q == 24 ==> c == 3)) by {
        if dy == 365 {
            assert(mm == 11 && d == 29);
            assert(a == 1 && yy == y + 4799);
            assert(is_gregorian_leap_year(y));
            let k = 100 * (p - 12) + 25 * c + q;
            assert(y == 4 * k + r + 1);
            if r < 3 {
                lemma_fundamental_div_mod_converse(y, 4, k, r + 1);
            } else {
                assert(y == 400 * (p - 12) + 100 * c + 4 * (q + 1));
                if q == 24 && c != 3 {
                    lemma_fundamental_div_mod_converse(y, 100, 4 * (p - 12) + c + 1, 0);
                    lemma_fundamental_div_mod_converse(y, 400, p - 12, 100 * (c + 1));
                }
            }
        }
    }
    let j1 = gregorian_day_number(y, m, d) + 32044;
    assert(j1 == dy + 146097 * p + 36524 * c + 1461 * q + 365 * r);
    let rem1 = 5844 * q + 1460 * r + 4 * dy + 3 - c;
    assert(4 * j1 + 3 == 146097 * (4 * p + c) + rem1);
    lemma_fundamental_div_mod_converse(4 * j1 + 3, 146097, 4 * p + c, rem1);
    lemma_fundamental_div_mod_converse(146097 * (4 * p + c), 4, 146097 * p + 36524 * c, c);
    let cc = j1 - (146097 * (4 * p + c)) / 4;
    assert(cc == dy + 1461 * q + 365 * r);
    lemma_fundamental_div_mod_converse(4 * cc + 3, 1461, 4 * q + r, 4 * dy + 3 - r);
    lemma_fundamental_div_mod_converse(1461 * (4 * q + r), 4, 1461 * q + 365 * r, r);
    let e = cc - (1461 * (4 * q + r)) / 4;
    assert(e == dy);
    lemma_fundamental_div_mod_converse(mm, 10, a, mm - 10 * a);
}

/// The month (0 = March) of a day of the March-based year.
proof fn month_of_day_of_year(e: int) -> (m: int)
    requires
        0 <= e <= 365,
    ensures
        m == (5 * e + 2) / 153,
        0 <= m <= 11,
        m / 10 == (14 - (m + 3 - 12 * (m / 10))) / 12,
        (m + 3 - 12 * (m / 10)) + 12 * ((14 - (m + 3 - 12 * (m / 10))) / 12) - 3 == m,
{
    let m = (5 * e + 2) / 153;
    lemma_fundamental_div_mod(5 * e + 2, 153);
    vstd::arithmetic::div_mod::lemma_mod_bound(5 * e + 2, 153);
    assert(0 <= m <= 11);
    let a: int = if m >= 10 { 1 } else { 0 };
    lemma_fundamental_div_mod_converse(m, 10, a, m - 10 * a);
    let month = m + 3 - 12 * a;
    lemma_fundamental_div_mod_converse(14 - month, 12, a, 14 - month - 12 * a);
    m
}

/// Every day number is the day number of the Julian date read from it.
pub proof fn julian_day_round_trip(j: int)
    ensures
        ({
            let date = julian_date_of_day(j);
            julian_day_number(date.0, date.1, date.2) == j
        }),
{
    let c = j + 32082;
    let d4 = (4 * c + 3) / 1461;
    let s = (4 * c + 3) % 1461;
    lemma_fundamental_div_mod(4 * c + 3, 1461);
    vstd::arithmetic::div_mod::lemma_mod_bound(4 * c + 3, 1461);
    let qq = d4 / 4;
    let rr = d4 % 4;
    lemma_fundamental_div_mod(d4, 4);
    vstd::arithmetic::div_mod::lemma_mod_bound(d4, 4);
    lemma_fundamental_div_mod_converse(1461 * d4, 4, 1461 * qq + 365 * rr, rr);
    let e = c - (1461 * d4) / 4;
    assert(4 * e == rr + s - 3);
    assert(0 <= e <= 365);
    let m = month_of_day_of_year(e);
    lemma_fundamental_div_mod_converse(d4, 4, qq, rr);
}

/// Every day number is the day number of the Gregorian date read from it.
pub proof fn gregorian_day_round_trip(j: int)
    ensures
        ({
            let date = gregorian_date_of_day(j);
            gregorian_day_number(date.0, date.1, date.2) == j
        }),
{
    let a = j + 32044;
    let b = (4 * a + 3) / 146097;
    let s1 = (4 * a + 3) % 146097;
    lemma_fundamental_div_mod(4 * a + 3, 146097);
    vstd::arithmetic::div_mod::lemma_mod_bound(4 * a + 3, 146097);
    let pp = b / 4;
    let cc = b % 4;
    lemma_fundamental_div_mod(b, 4);
    vstd::arithmetic::div_mod::lemma_mod_bound(b, 4);
    lemma_fundamental_div_mod_converse(146097 * b, 4, 146097 * pp + 36524 * cc, cc);
    let c = a - (146097 * b) / 4;
    assert(4 * c == cc + s1 - 3);
    assert(0 <= c <= 36524);
    let d = (4 * c + 3) / 1461;
    let s2 = (4 * c + 3) % 1461;
    lemma_fundamental_div_mod(4 * c + 3, 1461);
    vstd::arithmetic::div_mod::lemma_mod_bound(4 * c + 3, 1461);
    assert(0 <= d <= 99);
    let qq = d / 4;
    let rr = d % 4;
    lemma_fundamental_div_mod(d, 4);
    vstd::arithmetic::div_mod::lemma_mod_bound(d, 4);
    assert(0 <= qq <= 24);
    lemma_fundamental_div_mod_converse(1461 * d, 4, 1461 * qq + 365 * rr, rr);
    let e = c - (1461 * d) / 4;
    assert(4 * e == rr + s2 - 3);
    assert(0 <= e <= 365);
    let m = month_of_day_of_year(e);
    let yy = 100 * b + d;
    assert(yy == 400 * pp + 100 * cc + 4 * qq + rr);
    lemma_fundamental_div_mod_converse(yy, 4, 100 * pp + 25 * cc + qq, rr);
    lemma_fundamental_div_mod_converse(yy, 100, 4 * pp + cc, 4 * qq + rr);
    lemma_fundamental_div_mod_converse(yy, 400, pp, 100 * cc + 4 * qq + rr);
}

/// Date `a` comes before date `b` (year, then month, then day).
pub open spec fn date_lt(a: (int, int, int), b: (int, int, int)) -> bool {
    ||| a.0 < b.0
    ||| a.0 == b.0 && a.1 < b.1
    ||| a.0 == b.0 && a.1 == b.1 && a.2 < b.2
}

/// The civil date of day `x` of month `mm` (0 = March) of March-based
/// year `yy`.
pub open spec fn civil_of_march(yy: int, mm: int, x: int) -> (int, int, int) {
    (yy - 4800 + mm / 10, mm + 3 - 12 * (mm / 10), x)
}

/// Ordering in March-based years, months and days orders the civil dates
/// alike.
proof fn civil_of_march_order(yy1: int, mm1: int, x1: int, yy2: int, mm2: int, x2: int)
    requires
        0 <= mm1 <= 11,
        0 <= mm2 <= 11,
        date_lt((yy1, mm1, x1), (yy2, mm2, x2)),
    ensures
        date_lt(civil_of_march(yy1, mm1, x1), civil_of_march(yy2, mm2, x2)),
{
    let a1: int = if mm1 >= 10 { 1 } else { 0 };
    let a2: int = if mm2 >= 10 { 1 } else { 0 };
    lemma_fundamental_div_mod_converse(mm1, 10, a1, mm1 - 10 * a1);
    lemma_fundamental_div_mod_converse(mm2, 10, a2, mm2 - 10 * a2);
}

/// Where `x = l * n + n / 4 + r` counts the units of cycles of `l` or, in
/// every fourth cycle, `l + 1` units, a larger `x` has a later cycle `n` or
/// a later unit `r` of the same cycle.
proof fn leap_cycle_order(l: int, n1: int, r1: int, n2: int, r2: int)
    requires
        l >= 1,
        0 <= r1 && (r1 <= l - 1 || (r1 == l && n1 % 4 == 3)),
        0 <= r2 && (r2 <= l - 1 || (r2 == l && n2 % 4 == 3)),
        l * n1 + n1 / 4 + r1 < l * n2 + n2 / 4 + r2,
    ensures
        n1 < n2 || (n1 == n2 && r1 < r2),
{
    if n1 > n2 {
        assert(l * n1 - l * n2 >= l) by (nonlinear_arith)
            requires
                n1 >= n2 + 1,
                l >= 1,
        ;
        lemma_div_is_ordered(n2 + 1, n1, 4);
        lemma_fundamental_div_mod(n2, 4);
        vstd::arithmetic::div_mod::lemma_mod_bound(n2, 4);
        if n2 % 4 == 3 {
            lemma_fundamental_div_mod_converse(n2 + 1, 4, n2 / 4 + 1, 0);
        } else {
            lemma_fundamental_div_mod_converse(n2 + 1, 4, n2 / 4, n2 % 4 + 1);
        }
    }
}

/// A later day of the March-based year falls in a later month or on a
/// later day of the same month.
proof fn month_and_day_order(e1: int, e2: int)
    requires
        0 <= e1 < e2 <= 365,
    ensures
        ({
            let m1 = (5 * e1 + 2) / 153;
            let m2 = (5 * e2 + 2) / 153;
            date_lt((0, m1, e1 - (153 * m1 + 2) / 5 + 1), (0, m2, e2 - (153 * m2 + 2) / 5 + 1))
        }),
{
    lemma_div_is_ordered(5 * e1 + 2, 5 * e2 + 2, 153);
}

/// A later day number has a later Julian date.
pub proof fn julian_date_of_day_increases(j1: int, j2: int)
    requires
        j1 < j2,
    ensures
        date_lt(julian_date_of_day(j1), julian_date_of_day(j2)),
{
    let c1 = j1 + 32082;
    let c2 = j2 + 32082;
    let d1 = (4 * c1 + 3) / 1461;
    let d2 = (4 * c2 + 3) / 1461;
    let e1 = c1 - (1461 * d1) / 4;
    let e2 = c2 - (1461 * d2) / 4;
    julian_year_split(c1);
    julian_year_split(c2);
    leap_cycle_order(365, d1, e1, d2, e2);
    let m1 = month_of_day_of_year(e1);
    let m2 = month_of_day_of_year(e2);
    if d1 == d2 {
        month_and_day_order(e1, e2);
    }
    civil_of_march_order(
        d1,
        m1,
        e1 - (153 * m1 + 2) / 5 + 1,
        d2,
        m2,
        e2 - (153 * m2 + 2) / 5 + 1,
    );
}

/// A later day number has a later Gregorian date.
pub proof fn gregorian_date_of_day_increases(j1: int, j2: int)
    requires
        j1 < j2,
    ensures
        date_lt(gregorian_date_of_day(j1), gregorian_date_of_day(j2)),
{
    let a1 = j1 + 32044;
    let a2 = j2 + 32044;
    let b1 = (4 * a1 + 3) / 146097;
    let b2 = (4 * a2 + 3) / 146097;
    let c1 = a1 - (146097 * b1) / 4;
    let c2 = a2 - (146097 * b2) / 4;
    gregorian_century_split(a1);
    gregorian_century_split(a2);
    leap_cycle_order(36524, b1, c1, b2, c2);
    let d1 = (4 * c1 + 3) / 1461;
    let d2 = (4 * c2 + 3) / 1461;
    let e1 = c1 - (1461 * d1) / 4;
    let e2 = c2 - (1461 * d2) / 4;
    julian_year_split(c1);
    julian_year_split(c2);
    if b1 == b2 {
        leap_cycle_order(365, d1, e1, d2, e2);
    }
    let m1 = month_of_day_of_year(e1);
    let m2 = month_of_day_of_year(e2);
    if b1 == b2 && d1 == d2 {
        month_and_day_order(e1, e2);
    }
    civil_of_march_order(
        100 * b1 + d1,
        m1,
        e1 - (153 * m1 + 2) / 5 + 1,
        100 * b2 + d2,
        m2,
        e2 - (153 * m2 + 2) / 5 + 1,
    );
}

/// A later Julian date has a larger day number.
pub proof fn julian_day_number_increases(y1: int, m1: int, d1: int, y2: int, m2: int, d2: int)
    requires
        is_julian_date(y1, m1, d1),
        is_julian_date(y2, m2, d2),
        date_lt((y1, m1, d1), (y2, m2, d2)),
    ensures
        julian_day_number(y1, m1, d1) < julian_day_number(y2, m2, d2),
{
    let j1 = julian_day_number(y1, m1, d1);
    let j2 = julian_day_number(y2, m2, d2);
    julian_date_round_trip(y1, m1, d1);
    julian_date_round_trip(y2, m2, d2);
    if j2 < j1 {
        julian_date_of_day_increases(j2, j1);
    }
}

/// A later Gregorian date has a larger day number.
pub proof fn gregorian_day_number_increases(y1: int, m1: int, d1: int, y2: int, m2: int, d2: int)
    requires
        is_gregorian_date(y1, m1, d1),
        is_gregorian_date(y2, m2, d2),
        date_lt((y1, m1, d1), (y2, m2, d2)),
    ensures
        gregorian_day_number(y1, m1, d1) < gregorian_day_number(y2, m2, d2),
{
    let j1 = gregorian_day_number(y1, m1, d1);
    let j2 = gregorian_day_number(y2, m2, d2);
    gregorian_date_round_trip(y1, m1, d1);
    gregorian_date_round_trip(y2, m2, d2);
    if j2 < j1 {
        gregorian_date_of_day_increases(j2, j1);
    }
}

/// Day `c` counted in four-year cycles of 1461 days: year `d` (every fourth
/// one a leap year) and day `e` of it.
proof fn julian_year_split(c: int)
    ensures
        ({
            let d = (4 * c + 3) / 1461;
            let e = c - (1461 * d) / 4;
            &&& c == 365 * d + d / 4 + e
            &&& 0 <= e && (e <= 364 || (e == 365 && d % 4 == 3))
            &&& (c >= 0 && c <= 36524 ==> 0 <= d <= 99)
        }),
{
    let d = (4 * c + 3) / 1461;
    let s = (4 * c + 3) % 1461;
    lemma_fundamental_div_mod(4 * c + 3, 1461);
    vstd::arithmetic::div_mod::lemma_mod_bound(4 * c + 3, 1461);
    let qq = d / 4;
    let rr = d % 4;
    lemma_fundamental_div_mod(d, 4);
    vstd::arithmetic::div_mod::lemma_mod_bound(d, 4);
    lemma_fundamental_div_mod_converse(1461 * d, 4, 1461 * qq + 365 * rr, rr);
}

/// Day `a` counted in 400-year cycles: century `b` (every fourth one a day
/// longer) and day `c` of it.
proof fn gregorian_century_split(a: int)
    ensures
        ({
            let b = (4 * a + 3) / 146097;
            let c = a - (146097 * b) / 4;
            &&& a == 36524 * b + b / 4 + c
            &&& 0 <= c && (c <= 36523 || (c == 36524 && b % 4 == 3))
        }),
{
    let b = (4 * a + 3) / 146097;
    let s1 = (4 * a + 3) % 146097;
    lemma_fundamental_div_mod(4 * a + 3, 146097);
    vstd::arithmetic::div_mod::lemma_mod_bound(4 * a + 3, 146097);
    let pp = b / 4;
    let cc = b % 4;
    lemma_fundamental_div_mod(b, 4);
    vstd::arithmetic::div_mod::lemma_mod_bound(b, 4);
    lemma_fundamental_div_mod_converse(146097 * b, 4, 146097 * pp + 36524 * cc, cc);
}

/// `x` divided by `b`, rounded down.
pub fn floor_div(x: i64, b: i64) -> (q: i64)
    requires
        b > 0,
        in_day_range(x as int),
    ensures
        q == x as int / b as int,
        x >= 0 ==> 0 <= q <= x,
        x < 0 ==> x <= q < 0,
        b * q <= x < b * q + b,
{
    if x >= 0 {
        assert(0 <= x as int / b as int <= x) by (nonlinear_arith)
            requires
                x >= 0,
                b > 0,
        ;
        proof {
            lemma_fundamental_div_mod(x as int, b as int);
            vstd::arithmetic::div_mod::lemma_mod_bound(x as int, b as int);
        }
        x / b
    } else {
        let p = (-x - 1) / b;
        proof {
            let pi = (-x - 1) as int;
            let bi = b as int;
            assert(0 <= pi / bi <= pi) by (nonlinear_arith)
                requires
                    pi >= 0,
                    bi > 0,
            ;
            lemma_fundamental_div_mod(pi, bi);
            assert(0 <= pi % bi < bi) by {
                vstd::arithmetic::div_mod::lemma_mod_bound(pi, bi);
            }
            let q = -(pi / bi) - 1;
            let r = bi - 1 - pi % bi;
            assert(x as int == q * bi + r) by (nonlinear_arith)
                requires
                    pi == bi * (pi / bi) + pi % bi,
                    pi == -(x as int) - 1,
                    q == -(pi / bi) - 1,
                    r == bi - 1 - pi % bi,
            ;
            lemma_fundamental_div_mod_converse(x as int, bi, q, r);
            assert(bi * q == q * bi) by (nonlinear_arith);
        }
        -p - 1
    }
}

/// Whether `y-m-d` is a date of the Julian calendar.
pub fn julian_date_is_valid(y: i64, m: i64, d: i64) -> (r: bool)
    requires
        -0x1_0000_0000 <= y <= 0x1_0000_0000,
    ensures
        r == is_julian_date(y as int, m as int, d as int),
{
    if m < 1 || m > 12 || d < 1 {
        return false;
    }
    let len: i64 = if m == 2 {
        if floor_div(y, 4) * 4 == y {
            29
        } else {
            28
        }
    } else if m == 4 || m == 6 || m == 9 || m == 11 {
        30
    } else {
        31
    };
    d <= len
}

/// The day number of Julian calendar date `y-m-d`.
pub fn julian_day(y: i64, m: i64, d: i64) -> (r: i64)
    requires
        -0x1_0000_0000 <= y <= 0x1_0000_0000,
        -0x1_0000_0000 <= m <= 0x1_0000_0000,
        -0x1_0000_0000 <= d <= 0x1_0000_0000,
    ensures
        r == julian_day_number(y as int, m as int, d as int),
        -0x4_0000_0000_0000 <= r <= 0x4_0000_0000_0000,
{
    let a = floor_div(14 - m, 12);
    let yy = y + 4800 - a;
    let mm = m + 12 * a - 3;
    let t = floor_div(153 * mm + 2, 5);
    let q = floor_div(yy, 4);
    d + t + 365 * yy + q - 32083
}

/// The day number of Gregorian calendar date `y-m-d`.
pub fn gregorian_day(y: i64, m: i64, d: i64) -> (r: i64)
    requires
        -0x1_0000_0000 <= y <= 0x1_0000_0000,
        -0x1_0000_0000 <= m <= 0x1_0000_0000,
        -0x1_0000_0000 <= d <= 0x1_0000_0000,
    ensures
        r == gregorian_day_number(y as int, m as int, d as int),
        -0x4_0000_0000_0000 <= r <= 0x4_0000_0000_0000,
{
    let a = floor_div(14 - m, 12);
    let yy = y + 4800 - a;
    let mm = m + 12 * a - 3;
    let t = floor_div(153 * mm + 2, 5);
    let q4 = floor_div(yy, 4);
    let q100 = floor_div(yy, 100);
    let q400 = floor_div(yy, 400);
    d + t + 365 * yy + q4 - q100 + q400 - 32045
}

/// The Julian calendar date (year, month, day) of day number `j`.
pub fn julian_date(j: i64) -> (r: (i64, i64, i64))
    requires
        -0x4_0000_0000_0000 <= j <= 0x4_0000_0000_0000,
    ensures
        r.0 == julian_date_of_day(j as int).0,
        r.1 == julian_date_of_day(j as int).1,
        r.2 == julian_date_of_day(j as int).2,
{
    let c = j + 32082;
    let d = floor_div(4 * c + 3, 1461);
    let h = floor_div(1461 * d, 4);
    let e = c - h;
    let m = floor_div(5 * e + 2, 153);
    let m10 = floor_div(m, 10);
    let t = floor_div(153 * m + 2, 5);
    (d - 4800 + m10, m + 3 - 12 * m10, e - t + 1)
}

/// The Gregorian calendar date (year, month, day) of day number `j`.
pub fn gregorian_date(j: i64) -> (r: (i64, i64, i64))
    requires
        -0x4_0000_0000_0000 <= j <= 0x4_0000_0000_0000,
    ensures
        r.0 == gregorian_date_of_day(j as int).0,
        r.1 == gregorian_date_of_day(j as int).1,
        r.2 == gregorian_date_of_day(j as int).2,
{
    let a = j + 32044;
    let b = floor_div(4 * a + 3, 146097);
    let h = floor_div(146097 * b, 4);
    let c = a - h;
    let d = floor_div(4 * c + 3, 1461);
    let h2 = floor_div(1461 * d, 4);
    let e = c - h2;
    let m = floor_div(5 * e + 2, 153);
    let m10 = floor_div(m, 10);
    let t = floor_div(153 * m + 2, 5);
    (100 * b + d - 4800 + m10, m + 3 - 12 * m10, e - t + 1)
}

/// Gregorian day numbers count the days one by one: the day after a date,
/// within a month, from the last day of a month to the first of the next,
/// and from December 31 to January 1, has the next day number; February
/// ends on the 29th in leap years (every fourth year, but not every
/// hundredth unless every four hundredth) and on the 28th otherwise.
pub proof fn gregorian_days_follow_each_other(y: int, m: int, d: int)
    requires
        is_gregorian_date(y, m, d),
    ensures
        d < gregorian_month_length(y, m) ==> gregorian_day_number(y, m, d + 1)
            == gregorian_day_number(y, m, d) + 1,
        d == gregorian_month_length(y, m) && m < 12 ==> gregorian_day_number(y, m + 1, 1)
            == gregorian_day_number(y, m, d) + 1,
        d == gregorian_month_length(y, m) && m == 12 ==> gregorian_day_number(y + 1, 1, 1)
            == gregorian_day_number(y, m, d) + 1,
        gregorian_month_length(y, 2) == if y % 4 == 0 && (y % 100 != 0 || y % 400 == 0) {
            29int
        } else {
            28int
        },
{
    let q4 = y / 4;
    let r4 = y % 4;
    lemma_fundamental_div_mod(y, 4);
    vstd::arithmetic::div_mod::lemma_mod_bound(y, 4);
    let q100 = y / 100;
    let r100 = y % 100;
    lemma_fundamental_div_mod(y, 100);
    vstd::arithmetic::div_mod::lemma_mod_bound(y, 100);
    let q400 = y / 400;
    let r400 = y % 400;
    lemma_fundamental_div_mod(y, 400);
    vstd::arithmetic::div_mod::lemma_mod_bound(y, 400);
    if d == gregorian_month_length(y, m) && m == 2 {
        let yy = y + 4799;
        assert(march_year(y, 2) == yy && march_year(y, 3) == yy + 1);
        if r4 == 0 {
            lemma_fundamental_div_mod_converse(yy, 4, q4 + 1199, 3);
            lemma_fundamental_div_mod_converse(yy + 1, 4, q4 + 1200, 0);
        } else {
            lemma_fundamental_div_mod_converse(yy, 4, q4 + 1200, r4 - 1);
            lemma_fundamental_div_mod_converse(yy + 1, 4, q4 + 1200, r4);
        }
        if r100 == 0 {
            lemma_fundamental_div_mod_converse(yy, 100, q100 + 47, 99);
            lemma_fundamental_div_mod_converse(yy + 1, 100, q100 + 48, 0);
        } else {
            lemma_fundamental_div_mod_converse(yy, 100, q100 + 48, r100 - 1);
            lemma_fundamental_div_mod_converse(yy + 1, 100, q100 + 48, r100);
        }
        if r400 == 0 {
            lemma_fundamental_div_mod_converse(yy, 400, q400 + 11, 399);
            lemma_fundamental_div_mod_converse(yy + 1, 400, q400 + 12, 0);
        } else {
            lemma_fundamental_div_mod_converse(yy, 400, q400 + 12, r400 - 1);
            lemma_fundamental_div_mod_converse(yy + 1, 400, q400 + 12, r400);
        }
    }
}

/// Julian day numbers count the days one by one: the day after a date,
/// within a month, from the last day of a month to the first of the next,
/// and from December 31 to January 1, has the next day number; February
/// ends on the 29th in every fourth year and on the 28th otherwise.
pub proof fn julian_days_follow_each_other(y: int, m: int, d: int)
    requires
        is_julian_date(y, m, d),
    ensures
        d < julian_month_length(y, m) ==> julian_day_number(y, m, d + 1) == julian_day_number(
            y,
            m,
            d,
        ) + 1,
        d == julian_month_length(y, m) && m < 12 ==> julian_day_number(y, m + 1, 1)
            == julian_day_number(y, m, d) + 1,
        d == julian_month_length(y, m) && m == 12 ==> julian_day_number(y + 1, 1, 1)
            == julian_day_number(y, m, d) + 1,
        julian_month_length(y, 2) == if y % 4 == 0 {
            29int
        } else {
            28int
        },
{
    let q4 = y / 4;
    let r4 = y % 4;
    lemma_fundamental_div_mod(y, 4);
    vstd::arithmetic::div_mod::lemma_mod_bound(y, 4);
    if d == julian_month_length(y, m) && m == 2 {
        let yy = y + 4799;
        assert(march_year(y, 2) == yy && march_year(y, 3) == yy + 1);
        if r4 == 0 {
            lemma_fundamental_div_mod_converse(yy, 4, q4 + 1199, 3);
            lemma_fundamental_div_mod_converse(yy + 1, 4, q4 + 1200, 0);
        } else {
            lemma_fundamental_div_mod_converse(yy, 4, q4 + 1200, r4 - 1);
            lemma_fundamental_div_mod_converse(yy + 1, 4, q4 + 1200, r4);
        }
    }
}

} // verus!
