use vstd::arithmetic::div_mod::lemma_fundamental_div_mod;
use vstd::prelude::*;

verus! {

/// First day covered by the round-trip lemmas: CJDN of 1901-01-01.
pub const CJDN_LOWER: i64 = 2415386;

/// Last day covered by the round-trip lemmas: CJDN of 2099-12-31.
pub const CJDN_UPPER: i64 = 2488069;

pub open spec fn is_leap_year(y: int) -> bool {
    y % 4 == 0 && (y % 100 != 0 || y % 400 == 0)
}

pub open spec fn days_in_month(y: int, m: int) -> int {
    if m == 2 {
        if is_leap_year(y) { 29 } else { 28 }
    } else if m == 4 || m == 6 || m == 9 || m == 11 {
        30
    } else {
        31
    }
}

/// A day that exists in the proleptic Gregorian calendar.
pub open spec fn is_gregorian_date(y: int, m: int, d: int) -> bool {
    1 <= m <= 12 && 1 <= d <= days_in_month(y, m)
}

/// `floor(30.6001 * k)`: in a year that starts with March as month 3, the
/// start of month `k - 1`, counted in days from a fixed origin.
pub open spec fn month_offset(k: int) -> int {
    (306001 * k) / 10000
}

/// The CJDN of a Gregorian date, by the Julian Day formula with a century
/// correction; January and February count as months 13 and 14 of the year before.
pub open spec fn cjdn_of(y: int, m: int, d: int) -> int {
    let yy = if m < 3 { y - 1 } else { y };
    let mm = if m < 3 { m + 12 } else { m };
    let a = yy / 100;
    let jgc = a - a / 4 - 2;
    (1461 * (yy + 4716)) / 4 + month_offset(mm + 1) + d - jgc - 1524
}

/// The Gregorian date `(year, month, day)` of a CJDN, by the inverse algorithm;
/// a computed year that is not positive is moved one further down.
pub open spec fn gregorian_of(z: int) -> (int, int, int) {
    let alpha = (4 * z - 7468865) / 146097;
    let a = z + 1 + alpha - alpha / 4;
    let b = a + 1524;
    let c = (20 * b - 2442) / 7305;
    let d = (1461 * c) / 4;
    let e = (10000 * (b - d)) / 306001;
    let day = b - d - month_offset(e);
    let month = if e > 13 { e - 13 } else { e - 1 };
    let year = if month > 2 { c - 4716 } else { c - 4715 };
    (if year <= 0 { year - 1 } else { year }, month, day)
}

/// Between March 1900 and February 2100 the century correction is 13 days.
proof fn lemma_correction(yy: int)
    requires
        1900 <= yy <= 2099,
    ensures
        yy / 100 - (yy / 100) / 4 - 2 == 13,
{
}

proof fn lemma_month_offsets()
    ensures
        month_offset(4) == 122,
        month_offset(5) == 153,
        month_offset(6) == 183,
        month_offset(7) == 214,
        month_offset(8) == 244,
        month_offset(9) == 275,
        month_offset(10) == 306,
        month_offset(11) == 336,
        month_offset(12) == 367,
        month_offset(13) == 397,
        month_offset(14) == 428,
        month_offset(15) == 459,
        month_offset(16) == 489,
{
}

/// From a date to its day number and back gives the same date, from 1901 to 2099.
pub proof fn lemma_date_round_trip(y: int, m: int, d: int)
    requires
        is_gregorian_date(y, m, d),
        1901 <= y <= 2099,
    ensures
        gregorian_of(cjdn_of(y, m, d)) == (y, m, d),
        CJDN_LOWER <= cjdn_of(y, m, d) <= CJDN_UPPER,
{
    let yy = if m < 3 { y - 1 } else { y };
    let mm = if m < 3 { m + 12 } else { m };
    lemma_correction(yy);
    lemma_month_offsets();
    let big_y = yy + 4716;
    let q = big_y / 4;
    let r = big_y % 4;
    assert((1461 * big_y) / 4 == 1461 * q + 365 * r);
    let f = month_offset(mm + 1);
    let z = cjdn_of(y, m, d);
    assert(z == 1461 * q + 365 * r + f + d - 1537);
    assert(CJDN_LOWER <= z <= CJDN_UPPER);
    let alpha = (4 * z - 7468865) / 146097;
    assert(alpha - alpha / 4 == 12);
    let b = z + 1537;
    assert((20 * b - 2442) / 7305 == 4 * q + r);
    assert((1461 * (4 * q + r)) / 4 == 1461 * q + 365 * r);
    assert((10000 * (f + d)) / 306001 == mm + 1);
}

/// From a day number to its date and back gives the same day number, from 1901 to 2099.
pub proof fn lemma_cjdn_round_trip(z: int)
    requires
        CJDN_LOWER <= z <= CJDN_UPPER,
    ensures
        is_gregorian_date(gregorian_of(z).0, gregorian_of(z).1, gregorian_of(z).2),
        1901 <= gregorian_of(z).0 <= 2099,
        cjdn_of(gregorian_of(z).0, gregorian_of(z).1, gregorian_of(z).2) == z,
{
    lemma_month_offsets();
    let alpha = (4 * z - 7468865) / 146097;
    assert(alpha - alpha / 4 == 12);
    let b = z + 1537;
    let c = (20 * b - 2442) / 7305;
    let q = c / 4;
    let r = c % 4;
    let dd = (1461 * c) / 4;
    assert(dd == 1461 * q + 365 * r);
    let n = b - dd;
    assert(123 <= n <= 488);
    assert(n == 488 ==> r == 3);
    let e = (10000 * n) / 306001;
    assert(4 <= e <= 15);
    let (y, m, d) = gregorian_of(z);
    let yy = if m < 3 { y - 1 } else { y };
    assert(yy == c - 4716);
    lemma_correction(yy);
}

/// `a` is an earlier date than `b`, comparing year, then month, then day.
pub open spec fn date_before(a: (int, int, int), b: (int, int, int)) -> bool {
    a.0 < b.0 || (a.0 == b.0 && (a.1 < b.1 || (a.1 == b.1 && a.2 < b.2)))
}

/// Day numbers follow the order of dates, from 1901 to 2099.
pub proof fn lemma_cjdn_order(a: (int, int, int), b: (int, int, int))
    requires
        is_gregorian_date(a.0, a.1, a.2),
        is_gregorian_date(b.0, b.1, b.2),
        1901 <= a.0 <= 2099,
        1901 <= b.0 <= 2099,
    ensures
        date_before(a, b) <==> cjdn_of(a.0, a.1, a.2) < cjdn_of(b.0, b.1, b.2),
{
    lemma_date_round_trip(a.0, a.1, a.2);
    lemma_date_round_trip(b.0, b.1, b.2);
    if date_before(a, b) {
        lemma_cjdn_before(a, b);
    } else if date_before(b, a) {
        lemma_cjdn_before(b, a);
    }
}

proof fn lemma_cjdn_before(a: (int, int, int), b: (int, int, int))
    requires
        is_gregorian_date(a.0, a.1, a.2),
        is_gregorian_date(b.0, b.1, b.2),
        1901 <= a.0 <= 2099,
        1901 <= b.0 <= 2099,
        date_before(a, b),
    ensures
        cjdn_of(a.0, a.1, a.2) < cjdn_of(b.0, b.1, b.2),
{
    lemma_month_offsets();
    let ya = if a.1 < 3 { a.0 - 1 } else { a.0 };
    let yb = if b.1 < 3 { b.0 - 1 } else { b.0 };
    lemma_correction(ya);
    lemma_correction(yb);
}

/// First day of 1938 as a CJDN.
pub const CJDN_1938_01_01: i64 = 2428900;

/// Last day of 2076 as a CJDN.
pub const CJDN_2076_12_31: i64 = 2479669;

/// A day falls in the years 1938 to 2076 exactly when its CJDN lies between
/// those of 1938-01-01 and 2076-12-31.
pub proof fn lemma_cjdn_year_range(z: int)
    requires
        CJDN_LOWER <= z <= CJDN_UPPER,
    ensures
        (CJDN_1938_01_01 <= z <= CJDN_2076_12_31) <==> (1938 <= gregorian_of(z).0 <= 2076),
{
    lemma_cjdn_round_trip(z);
}

/// `a / b` rounded down, which is what `/` means in specifications for a positive `b`.
fn floor_div(a: i64, b: i64) -> (r: i64)
    requires
        0 < b <= 1_000_000,
        -1_000_000_000_000 <= a <= 1_000_000_000_000,
    ensures
        r == a as int / b as int,
{
    if a >= 0 {
        a / b
    } else {
        let q = (-a + b - 1) / b;
        proof {
            let qi = a as int / b as int;
            let rem = a as int % b as int;
            lemma_fundamental_div_mod(a as int, b as int);
            assert(a == qi * b + rem) by (nonlinear_arith)
                requires
                    a == b * qi + rem,
            ;
            assert(q == -qi) by (nonlinear_arith)
                requires
                    a == qi * b + rem,
                    0 <= rem < b,
                    q == (-a + b - 1) / (b as int),
            ;
        }
        -q
    }
}

/// The CJDN of the Gregorian date `(year, month, day)`.
pub fn gregorian_to_cjdn(year: i64, month: i64, day: i64) -> (r: i64)
    requires
        1 <= year <= 1_000_000,
        1 <= month <= 12,
        -1_000_000 <= day <= 1_000_000,
    ensures
        r == cjdn_of(year as int, month as int, day as int),
{
    let (yy, mm) = if month < 3 {
        (year - 1, month + 12)
    } else {
        (year, month)
    };
    let a = yy / 100;
    let jgc = a - a / 4 - 2;
    (1461 * (yy + 4716)) / 4 + (306001 * (mm + 1)) / 10000 + day - jgc - 1524
}

/// The Gregorian date `(year, month, day)` of a CJDN.
pub fn julian_to_gregorian(cjdn: i64) -> (r: (i64, i64, i64))
    requires
        0 <= cjdn <= 100_000_000,
    ensures
        (r.0 as int, r.1 as int, r.2 as int) == gregorian_of(cjdn as int),
{
    let z = cjdn;
    let alpha = floor_div(4 * z - 7468865, 146097);
    let a = z + 1 + alpha - floor_div(alpha, 4);
    let b = a + 1524;
    let c = floor_div(20 * b - 2442, 7305);
    let d = floor_div(1461 * c, 4);
    let e = floor_div(10000 * (b - d), 306001);
    let day = b - d - floor_div(306001 * e, 10000);
    let month = if e > 13 {
        e - 13
    } else {
        e - 1
    };
    let year = if month > 2 {
        c - 4716
    } else {
        c - 4715
    };
    if year <= 0 {
        (year - 1, month, day)
    } else {
        (year, month, day)
    }
}

} // verus!
