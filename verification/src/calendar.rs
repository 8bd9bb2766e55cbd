//! Proleptic Gregorian calendar dates for day counts since 1970-01-01, in
//! the `YYYY-MM-DD` form the audit queries use.

use vstd::prelude::*;
use vstd::string::*;

use crate::text::{nat_digits, push_char, push_u64};

verus! {

/// Whether `y` is a Gregorian leap year.
pub open spec fn is_leap_year(y: int) -> bool {
    y % 4 == 0 && (y % 100 != 0 || y % 400 == 0)
}

/// The number of days in month `m` (1..=12) of year `y`.
pub open spec fn days_in_month(y: int, m: int) -> int {
    if m == 2 {
        if is_leap_year(y) { 29 } else { 28 }
    } else if m == 4 || m == 6 || m == 9 || m == 11 {
        30
    } else {
        31
    }
}

/// The days from January 1 of year `y` to the first of month `m`.
pub open spec fn days_before_month(y: int, m: int) -> int
    decreases m,
{
    if m <= 1 {
        0
    } else {
        days_before_month(y, m - 1) + days_in_month(y, m - 1)
    }
}

/// The days from 0001-01-01 to January 1 of year `y`: 365 a year plus one
/// for each leap year before it.
pub open spec fn days_before_year(y: int) -> int {
    365 * (y - 1) + (y - 1) / 4 - (y - 1) / 100 + (y - 1) / 400
}

/// Whether `y-m-d` names a day of the calendar.
pub open spec fn is_valid_date(y: int, m: int, d: int) -> bool {
    1 <= m <= 12 && 1 <= d <= days_in_month(y, m)
}

/// The signed number of days from 1970-01-01 to `y-m-d`.
pub open spec fn days_since_epoch(y: int, m: int, d: int) -> int {
    days_before_year(y) + days_before_month(y, m) + d - 1 - days_before_year(1970)
}

/// `s` left-padded with `'0'` to `width` characters.
pub open spec fn zero_pad(s: Seq<char>, width: nat) -> Seq<char> {
    if s.len() >= width {
        s
    } else {
        Seq::new((width - s.len()) as nat, |i: int| '0') + s
    }
}

/// `n` rendered as `format!("{n:0width$}")` does: zero-padded to `width`
/// characters, the sign counted in the width.
pub open spec fn padded_decimal(n: int, width: nat) -> Seq<char> {
    if n < 0 {
        seq!['-'] + zero_pad(nat_digits((-n) as nat), if width >= 1 { (width - 1) as nat } else { 0 })
    } else {
        zero_pad(nat_digits(n as nat), width)
    }
}

/// `YYYY-MM-DD` for the given date.
pub open spec fn iso_date_text(y: int, m: int, d: int) -> Seq<char> {
    padded_decimal(y, 4) + seq!['-'] + padded_decimal(m, 2) + seq!['-'] + padded_decimal(d, 2)
}

/// The month starts of a year, counted from January 1.
proof fn lemma_month_starts(y: int)
    ensures
        days_before_month(y, 1) == 0,
        days_before_month(y, 2) == 31,
        days_before_month(y, 3) == 59 + (if is_leap_year(y) { 1int } else { 0 }),
        forall|k: int|
            #![trigger days_before_month(y, k)]
            3 <= k <= 12 ==> days_before_month(y, k) == days_before_month(y, 3) + (153 * (k - 3)
                + 2) / 5,
        days_before_month(y, 13) == 365 + (if is_leap_year(y) { 1int } else { 0 }),
{
    reveal_with_fuel(days_before_month, 13);
    assert forall|k: int|
        #![trigger days_before_month(y, k)]
        3 <= k <= 12 implies days_before_month(y, k) == days_before_month(y, 3) + (153 * (k - 3)
            + 2) / 5 by {
        reveal_with_fuel(days_before_month, 13);
    }
}

/// A year adds 365 days, 366 when it is a leap year.
proof fn lemma_year_length(y: int)
    ensures
        days_before_year(y + 1) == days_before_year(y) + 365 + (if is_leap_year(y) { 1int } else { 0 }),
{
    lemma_div_step(y, 4);
    lemma_div_step(y, 100);
    lemma_div_step(y, 400);
    let a = y / 4 - (y - 1) / 4;
    let b = y / 100 - (y - 1) / 100;
    let c = y / 400 - (y - 1) / 400;
    assert(days_before_year(y + 1) - days_before_year(y) == 365 + a - b + c);
    assert(a - b + c == (if is_leap_year(y) { 1int } else { 0 })) by {
        if y % 400 == 0 {
            assert(y % 100 == 0 && y % 4 == 0) by {
                vstd::arithmetic::div_mod::lemma_fundamental_div_mod(y, 400);
            }
        } else if y % 100 == 0 {
            assert(y % 4 == 0) by {
                vstd::arithmetic::div_mod::lemma_fundamental_div_mod(y, 100);
            }
        }
    }
}

/// Stepping `y - 1` to `y` raises `y / k` by one exactly at multiples of `k`.
proof fn lemma_div_step(y: int, k: int)
    requires
        k > 0,
    ensures
        y / k - (y - 1) / k == (if y % k == 0 { 1int } else { 0 }),
{
    vstd::arithmetic::div_mod::lemma_fundamental_div_mod(y, k);
    vstd::arithmetic::div_mod::lemma_fundamental_div_mod(y - 1, k);
    let q = y / k;
    let p = (y - 1) / k;
    assert(0 <= y % k < k);
    assert(0 <= (y - 1) % k < k);
    assert(k * q + y % k == k * p + (y - 1) % k + 1);
    if y % k == 0 {
        assert(q - p == 1) by (nonlinear_arith)
            requires
                k * q + y % k == k * p + (y - 1) % k + 1,
                y % k == 0,
                0 <= (y - 1) % k < k,
                k > 0,
        ;
    } else {
        assert(q - p == 0) by (nonlinear_arith)
            requires
                k * q + y % k == k * p + (y - 1) % k + 1,
                0 < y % k < k,
                0 <= (y - 1) % k < k,
        ;
    }
}

/// Shifting a year by whole 400-year cycles keeps it leap or not.
proof fn lemma_leap_cycle(e: int, k: int)
    ensures
        is_leap_year(400 * e + k) == is_leap_year(k),
{
    assert((400 * e + k) % 4 == k % 4);
    assert((400 * e + k) % 100 == k % 100);
    assert((400 * e + k) % 400 == k % 400);
}

/// Days before March 1 of year `400 * e + k` (`0 <= k < 400`), in terms of
/// the cycle count and the year within the cycle.
proof fn lemma_march_first(e: int, k: int)
    requires
        0 <= k < 400,
    ensures
        days_before_year(400 * e + k) + days_before_month(400 * e + k, 3) == 146097 * e + 365 * k
            + k / 4 - k / 100 - 306,
{
    lemma_month_starts(400 * e + k);
    lemma_leap_cycle(e, k);
    let a = 400 * e + k - 1;
    assert(a / 4 == 100 * e + (k - 1) / 4);
    assert(a / 100 == 4 * e + (k - 1) / 100);
    assert(a / 400 == e + (k - 1) / 400);
}

/// The year within a 400-year cycle and the day within that year (years
/// starting March 1), as computed from the day within the cycle.
proof fn lemma_year_of_cycle(doe: int)
    requires
        0 <= doe < 146097,
    ensures
        ({
            let yoe = (doe - doe / 1460 + doe / 36524 - doe / 146096) / 365;
            let doy = doe - (365 * yoe + yoe / 4 - yoe / 100);
            &&& 0 <= yoe < 400
            &&& 0 <= doy
            &&& doy < 365 + (if is_leap_year(yoe + 1) { 1int } else { 0 })
        }),
{
    let c: int = if doe == 146096 { 3 } else { doe / 36524 };
    let r1 = doe - 36524 * c;
    assert(0 <= c <= 3);
    assert(0 <= r1 <= 36524);
    let q = r1 / 1461;
    let r2 = r1 - 1461 * q;
    assert(0 <= q <= 24);
    assert(0 <= r2 <= 1460);
    let r: int = if r2 >= 1460 { 3 } else { r2 / 365 };
    let doy0 = r2 - 365 * r;
    assert(0 <= r <= 3);
    assert(0 <= doy0 <= 365);
    assert(doy0 == 365 ==> r == 3 && (q != 24 || c == 3));
    let y = 100 * c + 4 * q + r;
    assert(doe == 36524 * c + 1461 * q + 365 * r + doy0);
    let e = (24 * c + q + 365 * r + doy0) / 1460;
    assert(doe == 1460 * (25 * c + q) + (24 * c + q + 365 * r + doy0));
    assert(doe / 1460 == 25 * c + q + e);
    assert(0 <= e <= 1);
    assert(doy0 == 365 ==> e == 1);
    assert(e == 1 ==> doy0 >= 1);
    if doe == 146096 {
        assert(doe / 36524 == 4);
        assert(doe / 146096 == 1);
    } else {
        assert(doe / 36524 == c);
        assert(doe / 146096 == 0);
    }
    let n = doe - doe / 1460 + doe / 36524 - doe / 146096;
    assert(n == 365 * y + doy0 - e);
    assert(0 <= doy0 - e < 365);
    assert(n / 365 == y);
    assert(y / 4 == 25 * c + q);
    assert(y / 100 == c);
    assert(doe - (365 * y + y / 4 - y / 100) == doy0);
    assert(is_leap_year(y + 1) == (r == 3 && (q != 24 || c == 3)));
}

/// The month and day within a year that starts March 1.
proof fn lemma_month_of_year(doy: int, leap: bool)
    requires
        0 <= doy < 365 + (if leap { 1int } else { 0 }),
    ensures
        ({
            let mp = (5 * doy + 2) / 153;
            let d = doy - (153 * mp + 2) / 5 + 1;
            &&& 0 <= mp <= 11
            &&& 1 <= d
            &&& mp < 10 ==> d <= days_in_month(0, mp + 3)
            &&& mp == 10 ==> d <= 31
            &&& mp == 11 ==> d <= 28 + (if leap { 1int } else { 0 })
        }),
{
    let mp = (5 * doy + 2) / 153;
    if doy < 31 {
        assert(mp == 0);
    } else if doy < 61 {
        assert(mp == 1);
    } else if doy < 92 {
        assert(mp == 2);
    } else if doy < 122 {
        assert(mp == 3);
    } else if doy < 153 {
        assert(mp == 4);
    } else if doy < 184 {
        assert(mp == 5);
    } else if doy < 214 {
        assert(mp == 6);
    } else if doy < 245 {
        assert(mp == 7);
    } else if doy < 275 {
        assert(mp == 8);
    } else if doy < 306 {
        assert(mp == 9);
    } else if doy < 337 {
        assert(mp == 10);
    } else {
        assert(mp == 11);
    }
}

/// A date computed from a cycle count and the position within the cycle
/// is valid and lies `146097 * era + doe - 719468` days from 1970-01-01.
proof fn lemma_civil_date(era: int, doe: int)
    requires
        0 <= doe < 146097,
    ensures
        ({
            let yoe = (doe - doe / 1460 + doe / 36524 - doe / 146096) / 365;
            let doy = doe - (365 * yoe + yoe / 4 - yoe / 100);
            let mp = (5 * doy + 2) / 153;
            let d = doy - (153 * mp + 2) / 5 + 1;
            let m = if mp < 10 { mp + 3 } else { mp - 9 };
            let y = if m <= 2 { yoe + era * 400 + 1 } else { yoe + era * 400 };
            &&& 0 <= yoe < 400
            &&& 0 <= doy <= 365
            &&& 0 <= mp <= 11
            &&& 1 <= d <= 31
            &&& is_valid_date(y, m, d)
            &&& days_since_epoch(y, m, d) == 146097 * era + doe - 719468
        }),
{
    let yoe = (doe - doe / 1460 + doe / 36524 - doe / 146096) / 365;
    let doy = doe - (365 * yoe + yoe / 4 - yoe / 100);
    let mp = (5 * doy + 2) / 153;
    let d = doy - (153 * mp + 2) / 5 + 1;
    let y0 = yoe + era * 400;
    lemma_year_of_cycle(doe);
    let leap = is_leap_year(yoe + 1);
    lemma_month_of_year(doy, leap);
    lemma_march_first(era, yoe);
    lemma_leap_cycle(era, yoe + 1);
    assert(400 * era + yoe == y0);
    assert(400 * era + (yoe + 1) == y0 + 1);
    lemma_month_starts(y0);
    lemma_month_starts(y0 + 1);
    lemma_year_length(y0);
    assert(days_before_year(1970) == 719162);
    if mp < 10 {
        let m = mp + 3;
        assert(days_before_month(y0, m) == days_before_month(y0, 3) + (153 * (m - 3) + 2) / 5);
        assert(days_in_month(y0, m) == days_in_month(0, mp + 3));
    } else if mp == 10 {
        assert((153 * mp + 2) / 5 == 306);
    } else {
        assert((153 * mp + 2) / 5 == 337);
        assert(is_leap_year(y0 + 1) == leap);
    }
}

/// Appends `n` in decimal, zero-padded to `width` characters.
fn push_zero_padded(s: &mut String, n: u64, width: usize)
    ensures
        final(s)@ == old(s)@ + zero_pad(nat_digits(n as nat), width as nat),
{
    let mut digits = String::new();
    push_u64(&mut digits, n);
    proof {
        assert(digits@ =~= nat_digits(n as nat));
    }
    let len = digits.unicode_len();
    let ghost start = s@;
    let mut i = len;
    while i < width
        invariant
            len == digits@.len(),
            len <= i || i == len,
            len <= i,
            i <= width || i == len,
            s@ == start + Seq::new((i - len) as nat, |j: int| '0'),
        decreases width - i,
    {
        push_char(s, '0');
        proof {
            assert(s@ =~= start + Seq::new((i + 1 - len) as nat, |j: int| '0'));
        }
        i = i + 1;
    }
    s.append(digits.as_str());
    proof {
        if len >= width {
            assert(s@ =~= start + nat_digits(n as nat));
        } else {
            assert(i == width);
            assert(s@ =~= start + (Seq::new((width - len) as nat, |j: int| '0') + nat_digits(n as nat)));
        }
    }
}

/// The calendar date `days` days after 1970-01-01, as `(year, month, day)`.
fn civil_from_days(days: i64) -> (r: (i64, i64, i64))
    requires
        days <= i64::MAX - 719468,
    ensures
        is_valid_date(r.0 as int, r.1 as int, r.2 as int),
        days_since_epoch(r.0 as int, r.1 as int, r.2 as int) == days,
        1 <= r.1 <= 12,
        1 <= r.2 <= 31,
        r.0 > i64::MIN,
{
    let z: i64 = days + 719468;
    let era: i64 = if z >= 0 {
        z / 146097
    } else {
        -((146096 - z) / 146097)
    };
    assert(era as int == (z as int) / 146097);
    let doe: i64 = z - era * 146097;
    let yoe: i64 = (doe - doe / 1460 + doe / 36524 - doe / 146096) / 365;
    let doy: i64 = doe - (365 * yoe + yoe / 4 - yoe / 100);
    let mp: i64 = (5 * doy + 2) / 153;
    let d: i64 = doy - (153 * mp + 2) / 5 + 1;
    let m: i64 = if mp < 10 { mp + 3 } else { mp - 9 };
    proof {
        lemma_civil_date(era as int, doe as int);
    }
    let y: i64 = if m <= 2 { yoe + era * 400 + 1 } else { yoe + era * 400 };
    (y, m, d)
}

/// `YYYY-MM-DD` for a date whose month and day are in range.
fn format_iso_date(y: i64, m: i64, d: i64) -> (r: String)
    requires
        y > i64::MIN,
        1 <= m <= 12,
        1 <= d <= 31,
    ensures
        r@ == iso_date_text(y as int, m as int, d as int),
{
    let mut s = String::new();
    if y < 0 {
        push_char(&mut s, '-');
        push_zero_padded(&mut s, (-y) as u64, 3);
    } else {
        push_zero_padded(&mut s, y as u64, 4);
    }
    push_char(&mut s, '-');
    push_zero_padded(&mut s, m as u64, 2);
    push_char(&mut s, '-');
    push_zero_padded(&mut s, d as u64, 2);
    proof {
        assert(s@ =~= iso_date_text(y as int, m as int, d as int));
    }
    s
}

/// The calendar date `days` days after 1970-01-01 (before it when
/// negative), as `YYYY-MM-DD`: the year zero-padded to four characters
/// with its sign counted, month and day to two.
pub fn iso_date_from_days_since_epoch(days: i64) -> (r: String)
    requires
        days <= i64::MAX - 719468,
    ensures
        exists|y: int, m: int, d: int|
            #![trigger days_since_epoch(y, m, d)]
            is_valid_date(y, m, d) && days_since_epoch(y, m, d) == days && r@ == iso_date_text(y, m, d),
{
    let (y, m, d) = civil_from_days(days);
    let s = format_iso_date(y, m, d);
    assert(days_since_epoch(y as int, m as int, d as int) == days);
    s
}

/// Later years start later.
proof fn lemma_year_starts_increase(a: int, b: int)
    requires
        a <= b,
    ensures
        days_before_year(a) <= days_before_year(b),
        a < b ==> days_before_year(a + 1) <= days_before_year(b),
    decreases b - a,
{
    if a < b {
        lemma_year_length(b - 1);
        lemma_year_starts_increase(a, b - 1);
    }
}

/// Later months of a year start later.
proof fn lemma_month_starts_increase(y: int, a: int, b: int)
    requires
        1 <= a <= b,
    ensures
        days_before_month(y, a) <= days_before_month(y, b),
    decreases b - a,
{
    if a < b {
        lemma_month_starts_increase(y, a, b - 1);
    }
}

/// The day count of a valid date falls inside its year and its month.
proof fn lemma_date_bounds(y: int, m: int, d: int)
    requires
        is_valid_date(y, m, d),
    ensures
        days_before_month(y, m) + d <= days_before_month(y, m + 1),
        days_before_year(y) <= days_since_epoch(y, m, d) + days_before_year(1970) < days_before_year(
            y + 1,
        ),
{
    lemma_month_starts_increase(y, m + 1, 13);
    lemma_month_starts(y);
    lemma_year_length(y);
}

/// A day count names at most one valid date: two valid dates the same
/// number of days from 1970-01-01 are the same date.
pub proof fn law_day_count_names_one_date(y1: int, m1: int, d1: int, y2: int, m2: int, d2: int)
    requires
        is_valid_date(y1, m1, d1),
        is_valid_date(y2, m2, d2),
        days_since_epoch(y1, m1, d1) == days_since_epoch(y2, m2, d2),
    ensures
        y1 == y2,
        m1 == m2,
        d1 == d2,
{
    lemma_date_bounds(y1, m1, d1);
    lemma_date_bounds(y2, m2, d2);
    if y1 < y2 {
        lemma_year_starts_increase(y1, y2);
    } else if y2 < y1 {
        lemma_year_starts_increase(y2, y1);
    }
    assert(y1 == y2);
    if m1 < m2 {
        lemma_month_starts_increase(y1, m1 + 1, m2);
    } else if m2 < m1 {
        lemma_month_starts_increase(y1, m2 + 1, m1);
    }
}

} // verus!
