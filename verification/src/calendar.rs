//! Calendar dates, read and shifted with chrono.

use vstd::prelude::*;
use chrono::Datelike;

verus! {

/// A calendar date of the proleptic Gregorian calendar.
#[derive(Clone, Copy, Debug, PartialEq, Eq, Structural)]
pub struct Date {
    pub year: i32,
    pub month: u32,
    pub day: u32,
}

/// The first year that chrono's `NaiveDate` holds.
pub open spec fn min_year() -> int {
    -262143
}

/// The last year that chrono's `NaiveDate` holds.
pub open spec fn max_year() -> int {
    262142
}

pub open spec fn is_leap_year(y: int) -> bool {
    y % 4 == 0 && (y % 100 != 0 || y % 400 == 0)
}

/// Number of days of month `m` (1 to 12) of year `y`.
pub open spec fn month_length(y: int, m: int) -> int {
    if m == 2 {
        if is_leap_year(y) {
            29
        } else {
            28
        }
    } else if m == 4 || m == 6 || m == 9 || m == 11 {
        30
    } else {
        31
    }
}

/// A date that exists and that chrono's `NaiveDate` can hold.
pub open spec fn valid_date(d: Date) -> bool {
    &&& min_year() <= d.year <= max_year()
    &&& 1 <= d.month <= 12
    &&& 1 <= d.day <= month_length(d.year as int, d.month as int)
}

/// Days of year `y` before the first of month `m`.
pub open spec fn days_before_month(y: int, m: int) -> int
    decreases m,
{
    if m <= 1 {
        0
    } else {
        days_before_month(y, m - 1) + month_length(y, m - 1)
    }
}

/// Day number of a date, January 1 of year 1 being day 1.
pub open spec fn day_number(d: Date) -> int {
    let p = d.year - 1;
    365 * p + p / 4 - p / 100 + p / 400 + days_before_month(d.year as int, d.month as int) + d.day
}

/// Months counted from January of year 0.
pub open spec fn month_index(d: Date) -> int {
    d.year * 12 + d.month - 1
}

/// The date `delta` months from `d`, the day cut to the length of the month reached.
pub open spec fn shift_months(d: Date, delta: int) -> Date {
    let t = month_index(d) + delta;
    let y = t / 12;
    let m = t % 12 + 1;
    let len = month_length(y, m);
    Date {
        year: y as i32,
        month: m as u32,
        day: if d.day <= len {
            d.day
        } else {
            len as u32
        },
    }
}

/// Whether shifting `d` by `delta` months stays in the years chrono holds.
pub open spec fn shift_in_range(d: Date, delta: int) -> bool {
    min_year() <= (month_index(d) + delta) / 12 <= max_year()
}

/// Whether month and day of `a` come before those of `b`.
pub open spec fn month_day_before(a: Date, b: Date) -> bool {
    a.month < b.month || (a.month == b.month && a.day < b.day)
}

/// Whole years from `base` until `d`, negative when `base` is later.
pub open spec fn whole_years(d: Date, base: Date) -> int {
    d.year - base.year - if month_day_before(d, base) {
        1int
    } else {
        0int
    }
}

/// Calendar order of dates.
pub open spec fn date_le(a: Date, b: Date) -> bool {
    a.year < b.year || (a.year == b.year && (a.month < b.month || (a.month == b.month && a.day
        <= b.day)))
}

proof fn lemma_days_before_month_bounds(y: int, m: int)
    requires
        1 <= m,
    ensures
        0 <= days_before_month(y, m) <= 31 * (m - 1),
    decreases m,
{
    if m > 1 {
        lemma_days_before_month_bounds(y, m - 1);
    }
}

/// Day numbers of the dates chrono holds stay within a hundred million of day 1.
pub proof fn lemma_day_number_bounds(d: Date)
    requires
        valid_date(d),
    ensures
        -100_000_000 <= day_number(d) <= 100_000_000,
{
    lemma_days_before_month_bounds(d.year as int, d.month as int);
    let p: int = d.year - 1;
    assert(-262144 <= p <= 262141);
    assert(-65536 <= p / 4 <= 65536) by (nonlinear_arith)
        requires
            -262144 <= p <= 262141,
    ;
    assert(-2622 <= p / 100 <= 2622) by (nonlinear_arith)
        requires
            -262144 <= p <= 262141,
    ;
    assert(-656 <= p / 400 <= 656) by (nonlinear_arith)
        requires
            -262144 <= p <= 262141,
    ;
}

/// The day number of any value of `Date`, a real date or not, stays within
/// a trillion of day 1.
pub proof fn lemma_day_number_any(d: Date)
    ensures
        -1_000_000_000_000 <= day_number(d) <= 1_000_000_000_000,
{
    if d.month >= 1 {
        lemma_days_before_month_bounds(d.year as int, d.month as int);
    }
    let p: int = d.year - 1;
    let m: int = d.month as int;
    assert(0 <= days_before_month(d.year as int, m) <= 31 * 4294967295) by (nonlinear_arith)
        requires
            m <= 1 ==> days_before_month(d.year as int, m) == 0,
            m >= 1 ==> 0 <= days_before_month(d.year as int, m) <= 31 * (m - 1),
            0 <= m <= 4294967295,
    ;
    assert(-2147483649 <= p <= 2147483646);
    assert(-800_000_000_000 <= 365 * p + p / 4 - p / 100 + p / 400 <= 800_000_000_000) by (nonlinear_arith)
        requires
            -2147483649 <= p <= 2147483646,
    ;
}

/// What chrono's `NaiveDate::parse_from_str(s, "%Y-%m-%d")` reads from `s`.
pub uninterp spec fn chrono_parse_ymd(s: Seq<char>) -> Option<Date>;

/// Reads a date written `%Y-%m-%d` with chrono's `NaiveDate::parse_from_str`.
/// The contract names the result: the same text gives the same date, and a
/// date that comes back exists (chrono holds no other). Which texts chrono
/// accepts is left to its parser and not stated.
#[verifier::external_body]
pub(crate) fn parse_date(s: &str) -> (r: Option<Date>)
    ensures
        r == chrono_parse_ymd(s@),
        r matches Some(d) ==> valid_date(d),
{
    match chrono::NaiveDate::parse_from_str(s, "%Y-%m-%d") {
        Ok(d) => Some(Date { year: d.year(), month: d.month(), day: d.day() }),
        Err(_) => None,
    }
}

/// chrono's `NaiveDate::from_ymd_opt`: the date if it exists and chrono holds its year.
#[verifier::external_body]
pub(crate) fn date_from_ymd(year: i32, month: u32, day: u32) -> (r: Option<Date>)
    ensures
        r == (if valid_date(Date { year, month, day }) {
            Some(Date { year, month, day })
        } else {
            None
        }),
{
    match chrono::NaiveDate::from_ymd_opt(year, month, day) {
        Some(d) => Some(Date { year: d.year(), month: d.month(), day: d.day() }),
        None => None,
    }
}

/// chrono's `NaiveDate - Months`: `months` months earlier, the day cut to the
/// month's length. chrono panics when the year leaves its range, which
/// `requires` leaves out.
#[verifier::external_body]
pub(crate) fn sub_months(d: Date, months: u32) -> (r: Date)
    requires
        valid_date(d),
        shift_in_range(d, -(months as int)),
    ensures
        r == shift_months(d, -(months as int)),
{
    let n = chrono::NaiveDate::from_ymd_opt(d.year, d.month, d.day).unwrap() - chrono::Months::new(
        months,
    );
    Date { year: n.year(), month: n.month(), day: n.day() }
}

/// chrono's `NaiveDate + Months`: `months` months later, the day cut to the
/// month's length. chrono panics when the year leaves its range, which
/// `requires` leaves out.
#[verifier::external_body]
pub(crate) fn add_months(d: Date, months: u32) -> (r: Date)
    requires
        valid_date(d),
        shift_in_range(d, months as int),
    ensures
        r == shift_months(d, months as int),
{
    let n = chrono::NaiveDate::from_ymd_opt(d.year, d.month, d.day).unwrap() + chrono::Months::new(
        months,
    );
    Date { year: n.year(), month: n.month(), day: n.day() }
}

/// chrono's `NaiveDate::years_since`: the whole years from `base` until `d`,
/// `None` when `base` is the later date.
#[verifier::external_body]
pub(crate) fn years_since(d: Date, base: Date) -> (r: Option<u32>)
    requires
        valid_date(d),
        valid_date(base),
    ensures
        whole_years(d, base) >= 0 ==> r == Some(whole_years(d, base) as u32),
        whole_years(d, base) < 0 ==> r is None,
{
    let a = chrono::NaiveDate::from_ymd_opt(d.year, d.month, d.day).unwrap();
    let b = chrono::NaiveDate::from_ymd_opt(base.year, base.month, base.day).unwrap();
    a.years_since(b)
}

/// chrono's `(a - b).num_days()`: the days from `b` to `a`.
#[verifier::external_body]
pub(crate) fn days_between(a: Date, b: Date) -> (r: i64)
    requires
        valid_date(a),
        valid_date(b),
    ensures
        r == day_number(a) - day_number(b),
{
    let x = chrono::NaiveDate::from_ymd_opt(a.year, a.month, a.day).unwrap();
    let y = chrono::NaiveDate::from_ymd_opt(b.year, b.month, b.day).unwrap();
    (x - y).num_days()
}

/// `years_since` answers `None` exactly when the base date is the later one,
/// as chrono documents.
pub proof fn law_years_since_defined_iff_ordered(d: Date, base: Date)
    requires
        valid_date(d),
        valid_date(base),
    ensures
        whole_years(d, base) >= 0 <==> date_le(base, d),
{
}

} // verus!
