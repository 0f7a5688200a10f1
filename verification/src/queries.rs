//! The queries the program sends to its database and what it makes of
//! the rows that come back.

use vstd::prelude::*;
use crate::text::{int_text, nat_digits, owned, push_int, digit_char};

verus! {

/// The one way a query can come back without the data a chart needs.
#[derive(Clone, Copy, Debug, PartialEq, Eq, Structural)]
pub enum QueryError {
    /// The query returned no row.
    RowNotFound,
}

pub open spec fn spec_fetch_cities_query() -> Seq<char> {
    "SELECT name_of_city FROM city_names ORDER by name_of_city asc;"@
}

/// The query listing the cities, by name.
pub fn fetch_cities_query() -> (r: String)
    ensures
        r@ == spec_fetch_cities_query(),
{
    owned("SELECT name_of_city FROM city_names ORDER by name_of_city asc;")
}

pub open spec fn spec_temps_query(tperiod: Seq<char>, table: Seq<char>, year: int) -> Seq<char> {
    "SELECT tyear, "@ + tperiod + ", tmax, tmin, mmax, mmin FROM "@ + table + " WHERE tyear = "@
        + int_text(year)
}

/// The query for one year of period averages: the period column, the average
/// and median highs and lows, from the period table of a city.
pub fn temps_query(tperiod: &str, table: &str, year: i32) -> (r: String)
    ensures
        r@ == spec_temps_query(tperiod@, table@, year as int),
{
    let mut r = owned("SELECT tyear, ");
    r.append(tperiod);
    r.append(", tmax, tmin, mmax, mmin FROM ");
    r.append(table);
    r.append(" WHERE tyear = ");
    push_int(&mut r, year as i64);
    r
}

pub open spec fn spec_ranges_query(city: Seq<char>, night: bool) -> Seq<char> {
    "SELECT * FROM "@ + city + if night {
        "_nite_ranges"@
    } else {
        "_week_ranges"@
    }
}

/// The query for the yearly counts of readings in each temperature range,
/// of the daytime highs or of the nighttime lows.
pub fn ranges_query(city: &str, night: bool) -> (r: String)
    ensures
        r@ == spec_ranges_query(city@, night),
{
    let mut r = owned("SELECT * FROM ");
    r.append(city);
    if night {
        r.append("_nite_ranges");
    } else {
        r.append("_week_ranges");
    }
    r
}

pub open spec fn spec_min_max_query(city: Seq<char>) -> Seq<char> {
    "SELECT min_temp, max_temp FROM city_names WHERE name_of_city = '"@ + city + "'"@
}

/// The query for the lowest and highest temperature recorded in a city.
pub fn city_min_max_query(city: &str) -> (r: String)
    ensures
        r@ == spec_min_max_query(city@),
{
    let mut r = owned("SELECT min_temp, max_temp FROM city_names WHERE name_of_city = '");
    r.append(city);
    r.append("'");
    r
}

pub open spec fn spec_year_query(city: Seq<char>, last: bool) -> Seq<char> {
    "SELECT tdate FROM "@ + city + if last {
        " order by tdate desc limit 1"@
    } else {
        " order by tdate asc limit 1"@
    }
}

/// The query for the first (or last) date of a city's readings.
pub fn year_query(city: &str, last: bool) -> (r: String)
    ensures
        r@ == spec_year_query(city@, last),
{
    let mut r = owned("SELECT tdate FROM ");
    r.append(city);
    if last {
        r.append(" order by tdate desc limit 1");
    } else {
        r.append(" order by tdate asc limit 1");
    }
    r
}

/// The rows of a query that must find some: `RowNotFound` when there are none.
pub fn require_rows<T>(rows: Vec<T>) -> (r: Result<Vec<T>, QueryError>)
    ensures
        rows@.len() == 0 ==> r == Err::<Vec<T>, QueryError>(QueryError::RowNotFound),
        rows@.len() > 0 ==> (r matches Ok(v) && v@ == rows@),
{
    if rows.len() == 0 {
        Err(QueryError::RowNotFound)
    } else {
        Ok(rows)
    }
}

/// The lowest and highest temperature of a city: the pair in the first row.
pub fn first_row_bounds(rows: &Vec<(i32, i32)>) -> (r: (i32, i32))
    requires
        rows@.len() > 0,
    ensures
        r == rows@[0],
{
    rows[0]
}

/// A city's lowest and highest temperature, or 0 and 0 where they could not be read.
pub fn bounds_or_zero(bounds: Option<(i32, i32)>) -> (r: (i32, i32))
    ensures
        bounds matches Some(b) ==> r == b,
        bounds is None ==> r == (0i32, 0i32),
{
    match bounds {
        Some(b) => b,
        None => (0, 0),
    }
}

pub open spec fn is_digit(c: char) -> bool {
    '0' <= c <= '9'
}

/// The number that a run of decimal digits writes.
pub open spec fn digits_value(s: Seq<char>) -> int
    decreases s.len(),
{
    if s.len() == 0 {
        0
    } else {
        digits_value(s.drop_last()) * 10 + (s.last() as int - 48)
    }
}

pub open spec fn all_digits(s: Seq<char>) -> bool {
    forall|i: int| 0 <= i < s.len() ==> is_digit(#[trigger] s[i])
}

/// Text that Rust reads as an `i32`: digits, possibly after one sign
/// (short enough for its value to fit).
pub open spec fn int_literal(s: Seq<char>) -> bool {
    ||| s.len() >= 1 && all_digits(s)
    ||| s.len() >= 2 && (s[0] == '+' || s[0] == '-') && all_digits(s.drop_first())
}

/// The value of such a text.
pub open spec fn literal_value(s: Seq<char>) -> int {
    if s[0] == '-' {
        -digits_value(s.drop_first())
    } else if s[0] == '+' {
        digits_value(s.drop_first())
    } else {
        digits_value(s)
    }
}

/// A date text whose first four characters Rust reads as an `i32`, the year.
pub open spec fn has_year_prefix(s: Seq<char>) -> bool {
    s.len() >= 4 && int_literal(s.take(4))
}

/// The year of a date text: its first four characters read as a number.
pub fn year_prefix(date: &str) -> (r: i32)
    requires
        has_year_prefix(date@),
    ensures
        r == literal_value(date@.take(4)),
{
    let ghost p = date@.take(4);
    let c0 = date.get_char(0);
    let c1 = date.get_char(1);
    let c2 = date.get_char(2);
    let c3 = date.get_char(3);
    assert(p =~= seq![c0, c1, c2, c3]);
    let ghost tail = seq![c1, c2, c3];
    assert(p.drop_first() =~= tail);
    assert(tail.drop_last() =~= seq![c1, c2]);
    assert(seq![c1, c2].drop_last() =~= seq![c1]);
    assert(seq![c1].drop_last() =~= Seq::<char>::empty());
    proof {
        lemma_digits_value_3(c1, c2, c3);
        lemma_digits_value_4(c0, c1, c2, c3);
    }
    if c0 == '-' || c0 == '+' {
        assert(is_digit(tail[0]) && is_digit(tail[1]) && is_digit(tail[2]));
        let d1 = (c1 as u32 - 48) as i32;
        let d2 = (c2 as u32 - 48) as i32;
        let d3 = (c3 as u32 - 48) as i32;
        let v = d1 * 100 + d2 * 10 + d3;
        if c0 == '-' {
            -v
        } else {
            v
        }
    } else {
        assert(is_digit(p[0]) && is_digit(p[1]) && is_digit(p[2]) && is_digit(p[3]));
        let d0 = (c0 as u32 - 48) as i32;
        let d1 = (c1 as u32 - 48) as i32;
        let d2 = (c2 as u32 - 48) as i32;
        let d3 = (c3 as u32 - 48) as i32;
        assert(p.drop_last() =~= seq![c0, c1, c2]);
        assert(seq![c0, c1, c2].drop_last() =~= seq![c0, c1]);
        assert(seq![c0, c1].drop_last() =~= seq![c0]);
        assert(seq![c0].drop_last() =~= Seq::<char>::empty());
        d0 * 1000 + d1 * 100 + d2 * 10 + d3
    }
}

/// The year in the first of the date rows, 0 when no row came back.
pub fn year_of_first_row(dates: &Vec<String>) -> (r: i32)
    requires
        dates@.len() > 0 ==> has_year_prefix(dates@[0]@),
    ensures
        dates@.len() == 0 ==> r == 0,
        dates@.len() > 0 ==> r == literal_value(dates@[0]@.take(4)),
{
    if dates.len() == 0 {
        0
    } else {
        year_prefix(dates[0].as_str())
    }
}

proof fn lemma_digits_value_3(a: char, b: char, c: char)
    ensures
        digits_value(seq![a, b, c]) == (a as int - 48) * 100 + (b as int - 48) * 10 + (c as int
            - 48),
{
    assert(seq![a, b, c].drop_last() =~= seq![a, b]);
    assert(seq![a, b].drop_last() =~= seq![a]);
    assert(seq![a].drop_last() =~= Seq::<char>::empty());
    assert(seq![a].last() == a);
    assert(seq![a, b].last() == b);
    assert(seq![a, b, c].last() == c);
    assert(digits_value(Seq::<char>::empty()) == 0);
    assert(digits_value(seq![a]) == a as int - 48);
    assert(digits_value(seq![a, b]) == (a as int - 48) * 10 + (b as int - 48));
}

proof fn lemma_digits_value_4(a: char, b: char, c: char, d: char)
    ensures
        digits_value(seq![a, b, c, d]) == (a as int - 48) * 1000 + (b as int - 48) * 100 + (c as int
            - 48) * 10 + (d as int - 48),
{
    assert(seq![a, b, c, d].drop_last() =~= seq![a, b, c]);
    assert(seq![a, b, c, d].last() == d);
    lemma_digits_value_3(a, b, c);
}

proof fn lemma_digit_char(d: nat)
    requires
        d < 10,
    ensures
        digit_char(d) as int == 48 + d,
        is_digit(digit_char(d)),
{
}

/// A date text that begins with a year written in four digits gives back
/// that year.
pub proof fn law_four_digit_year_reads_back(y: int, rest: Seq<char>)
    requires
        1000 <= y <= 9999,
    ensures
        has_year_prefix(int_text(y) + rest),
        literal_value((int_text(y) + rest).take(4)) == y,
{
    let s = int_text(y);
    let n = y as nat;
    let a = n / 10;
    let b = a / 10;
    let c = b / 10;
    assert(c < 10 && b >= 10 && a >= 10 && n >= 10) by (nonlinear_arith)
        requires
            1000 <= n <= 9999,
            a == n / 10,
            b == a / 10,
            c == b / 10,
    ;
    assert(nat_digits(c) == seq![digit_char(c)]);
    assert(nat_digits(b) == nat_digits(c).push(digit_char(b % 10)));
    assert(nat_digits(a) == nat_digits(b).push(digit_char(a % 10)));
    assert(nat_digits(n) == nat_digits(a).push(digit_char(n % 10)));
    lemma_digit_char(c);
    lemma_digit_char(b % 10);
    lemma_digit_char(a % 10);
    lemma_digit_char(n % 10);
    let d = seq![digit_char(c), digit_char(b % 10), digit_char(a % 10), digit_char(n % 10)];
    assert(s =~= d);
    assert((s + rest).take(4) =~= d);
    lemma_digits_value_4(digit_char(c), digit_char(b % 10), digit_char(a % 10), digit_char(n % 10));
    assert(d.drop_last() =~= seq![digit_char(c), digit_char(b % 10), digit_char(a % 10)]);
    assert(seq![digit_char(c), digit_char(b % 10), digit_char(a % 10)].drop_last() =~= seq![
        digit_char(c),
        digit_char(b % 10),
    ]);
    assert(seq![digit_char(c), digit_char(b % 10)].drop_last() =~= seq![digit_char(c)]);
    assert(seq![digit_char(c)].drop_last() =~= Seq::<char>::empty());
    assert(((c * 10 + b % 10) * 10 + a % 10) * 10 + n % 10 == n) by (nonlinear_arith)
        requires
            a == n / 10,
            b == a / 10,
            c == b / 10,
    ;
}

} // verus!
