//! The range-frequency charts: for every year, how many weeks fell in each
//! ten-degree range, drawn as one column of boxes per year.

use vstd::prelude::*;
use crate::calendar::{date_from_ymd, valid_date, Date};
use crate::colors::{rgb, Rgb};
use crate::readings::RangeRow;
use crate::text::{int_text, owned, push_int, replace_underscores, underscores_to_spaces};

verus! {

/// The ranges of the chart from the top row down: 100s, 90s, ... 30s, and
/// (any other value) freezing.
pub open spec fn spec_freq_ranges() -> Seq<i32> {
    seq![100i32, 90i32, 80i32, 70i32, 60i32, 50i32, 40i32, 30i32, -1i32]
}

pub fn freq_ranges() -> (r: Vec<i32>)
    ensures
        r@ == spec_freq_ranges(),
{
    let r = vec![100, 90, 80, 70, 60, 50, 40, 30, -1];
    assert(r@ =~= spec_freq_ranges());
    r
}

/// The row of the chart (1 at the top to 9 at the bottom) that shows a range.
pub open spec fn range_row(range: int) -> int {
    if range == 100 {
        1
    } else if range == 90 {
        2
    } else if range == 80 {
        3
    } else if range == 70 {
        4
    } else if range == 60 {
        5
    } else if range == 50 {
        6
    } else if range == 40 {
        7
    } else if range == 30 {
        8
    } else {
        9
    }
}

/// The count of a year's weeks in a range, or 0 where it could not be read.
pub open spec fn range_count(row: RangeRow, range: int) -> i32 {
    let v = if range == 100 {
        row.count_100s
    } else if range == 90 {
        row.count_90s
    } else if range == 80 {
        row.count_80s
    } else if range == 70 {
        row.count_70s
    } else if range == 60 {
        row.count_60s
    } else if range == 50 {
        row.count_50s
    } else if range == 40 {
        row.count_40s
    } else if range == 30 {
        row.count_30s
    } else {
        row.count_freezing
    };
    match v {
        Some(c) => c,
        None => 0,
    }
}

pub open spec fn year_or_zero(row: RangeRow) -> i32 {
    match row.tyear {
        Some(y) => y,
        None => 0,
    }
}

/// For every year row, its year and its count in a range (0 standing for
/// what could not be read).
pub open spec fn spec_make_range(rows: Seq<RangeRow>, range: int) -> Seq<(i32, i32)> {
    rows.map_values(|row: RangeRow| (year_or_zero(row), range_count(row, range)))
}

pub fn make_range(rows: &Vec<RangeRow>, temps: i32) -> (r: Vec<(i32, i32)>)
    ensures
        r@ == spec_make_range(rows@, temps as int),
{
    let mut r: Vec<(i32, i32)> = Vec::new();
    let n = rows.len();
    let mut i: usize = 0;
    while i < n
        invariant
            n == rows@.len(),
            i <= n,
            r@ == spec_make_range(rows@.take(i as int), temps as int),
        decreases n - i,
    {
        let row = rows[i];
        let year = match row.tyear {
            Some(y) => y,
            None => 0,
        };
        let v = if temps == 100 {
            row.count_100s
        } else if temps == 90 {
            row.count_90s
        } else if temps == 80 {
            row.count_80s
        } else if temps == 70 {
            row.count_70s
        } else if temps == 60 {
            row.count_60s
        } else if temps == 50 {
            row.count_50s
        } else if temps == 40 {
            row.count_40s
        } else if temps == 30 {
            row.count_30s
        } else {
            row.count_freezing
        };
        let count = match v {
            Some(c) => c,
            None => 0,
        };
        r.push((year, count));
        assert(spec_make_range(rows@.take(i + 1), temps as int) =~= spec_make_range(
            rows@.take(i as int),
            temps as int,
        ).push((year, count)));
        i = i + 1;
    }
    assert(rows@.take(n as int) =~= rows@);
    r
}

/// The columns of every range line up: whatever the range, the i-th box
/// belongs to the i-th year row, and there is one box per row.
pub proof fn law_ranges_share_years(rows: Seq<RangeRow>, r1: int, r2: int)
    ensures
        spec_make_range(rows, r1).len() == rows.len(),
        forall|i: int|
            0 <= i < rows.len() ==> (#[trigger] spec_make_range(rows, r1)[i]).0 == spec_make_range(
                rows,
                r2,
            )[i].0,
{
}

/// A count that could not be read counts as none.
pub open spec fn count_or_zero(v: Option<i32>) -> i32 {
    match v {
        Some(c) => c,
        None => 0,
    }
}

/// Each range of the chart shows, for every year row, the row's year and
/// the count of that range's own column: the 100s from `count_100s`, the
/// 90s from `count_90s`, and so on down to the 30s; any other range shows
/// the freezing weeks of `count_freezing`.
pub proof fn law_ranges_read_their_own_columns(rows: Seq<RangeRow>, range: int)
    ensures
        forall|i: int|
            0 <= i < rows.len() ==> {
                let row = rows[i];
                let got = #[trigger] spec_make_range(rows, range)[i];
                &&& got.0 == count_or_zero(row.tyear)
                &&& range == 100 ==> got.1 == count_or_zero(row.count_100s)
                &&& range == 90 ==> got.1 == count_or_zero(row.count_90s)
                &&& range == 80 ==> got.1 == count_or_zero(row.count_80s)
                &&& range == 70 ==> got.1 == count_or_zero(row.count_70s)
                &&& range == 60 ==> got.1 == count_or_zero(row.count_60s)
                &&& range == 50 ==> got.1 == count_or_zero(row.count_50s)
                &&& range == 40 ==> got.1 == count_or_zero(row.count_40s)
                &&& range == 30 ==> got.1 == count_or_zero(row.count_30s)
                &&& (range != 100 && range != 90 && range != 80 && range != 70 && range != 60
                    && range != 50 && range != 40 && range != 30) ==> got.1 == count_or_zero(
                    row.count_freezing,
                )
            },
{
}

/// How a range is drawn: the area of the chart its boxes go in (the middle
/// of the row's three), its colour with its opacity in hundredths, and the
/// pale opacity of the row's background.
#[derive(Clone, Copy, Debug, PartialEq, Eq, Structural)]
pub struct FreqBand {
    pub row: usize,
    pub area: usize,
    pub color: Rgb,
    pub alpha_pct: u32,
    pub background_alpha_pct: u32,
}

pub open spec fn spec_freq_band(range: int) -> FreqBand {
    let row = range_row(range);
    let (color, alpha, bg) = if row == 1 {
        (rgb(255, 0, 0), 90u32, 15u32)
    } else if row == 2 {
        (rgb(220, 20, 60), 88u32, 10u32)
    } else if row == 3 {
        (rgb(255, 69, 0), 70u32, 10u32)
    } else if row == 4 {
        (rgb(50, 205, 51), 70u32, 15u32)
    } else if row == 5 {
        (rgb(0, 128, 0), 90u32, 10u32)
    } else if row == 6 {
        (rgb(0, 139, 128), 60u32, 10u32)
    } else if row == 7 {
        (rgb(70, 130, 132), 95u32, 15u32)
    } else if row == 8 {
        (rgb(0, 0, 205), 70u32, 10u32)
    } else {
        (rgb(0, 0, 128), 95u32, 15u32)
    };
    FreqBand {
        row: row as usize,
        area: (3 * row + 1) as usize,
        color,
        alpha_pct: alpha,
        background_alpha_pct: bg,
    }
}

pub fn freq_band(the_range: i32) -> (r: FreqBand)
    ensures
        r == spec_freq_band(the_range as int),
{
    let row: usize = if the_range == 100 {
        1
    } else if the_range == 90 {
        2
    } else if the_range == 80 {
        3
    } else if the_range == 70 {
        4
    } else if the_range == 60 {
        5
    } else if the_range == 50 {
        6
    } else if the_range == 40 {
        7
    } else if the_range == 30 {
        8
    } else {
        9
    };
    let (color, alpha, bg) = if row == 1 {
        (Rgb { r: 255, g: 0, b: 0 }, 90u32, 15u32)
    } else if row == 2 {
        (Rgb { r: 220, g: 20, b: 60 }, 88u32, 10u32)
    } else if row == 3 {
        (Rgb { r: 255, g: 69, b: 0 }, 70u32, 10u32)
    } else if row == 4 {
        (Rgb { r: 50, g: 205, b: 51 }, 70u32, 15u32)
    } else if row == 5 {
        (Rgb { r: 0, g: 128, b: 0 }, 90u32, 10u32)
    } else if row == 6 {
        (Rgb { r: 0, g: 139, b: 128 }, 60u32, 10u32)
    } else if row == 7 {
        (Rgb { r: 70, g: 130, b: 132 }, 95u32, 15u32)
    } else if row == 8 {
        (Rgb { r: 0, g: 0, b: 205 }, 70u32, 10u32)
    } else {
        (Rgb { r: 0, g: 0, b: 128 }, 95u32, 15u32)
    };
    FreqBand { row, area: 3 * row + 1, color, alpha_pct: alpha, background_alpha_pct: bg }
}

/// Every range of the chart has a row of its own, top to bottom in order.
pub proof fn law_ranges_fill_the_rows()
    ensures
        forall|i: int|
            0 <= i < 9 ==> spec_freq_band(#[trigger] spec_freq_ranges()[i] as int).row == i + 1,
{
    assert forall|i: int| 0 <= i < 9 implies spec_freq_band(
        #[trigger] spec_freq_ranges()[i] as int,
    ).row == i + 1 by {
        let s = spec_freq_ranges();
        assert(s[0] == 100 && s[1] == 90 && s[2] == 80 && s[3] == 70 && s[4] == 60);
        assert(s[5] == 50 && s[6] == 40 && s[7] == 30 && s[8] == -1);
    }
}

/// The top of a year's box for `count` weeks: 4 pixels per week above the base.
pub fn freq_bar_top(count: i32) -> (r: i32)
    requires
        i32::MIN <= -4 * count <= i32::MAX,
    ensures
        r == -4 * count,
{
    -4 * count
}

/// The date axis of the boxes: from June 1 of the year before the first
/// to June 1 of the year after the last; `None` where chrono holds no such
/// date.
pub fn freq_axis_span(first_year: i32, last_year: i32) -> (r: Option<(Date, Date)>)
    requires
        first_year > i32::MIN,
        last_year < i32::MAX,
    ensures
        ({
            let a = Date { year: (first_year - 1) as i32, month: 6, day: 1 };
            let b = Date { year: (last_year + 1) as i32, month: 6, day: 1 };
            &&& r is Some <==> valid_date(a) && valid_date(b)
            &&& r matches Some(p) ==> p == (a, b)
        }),
{
    let a = date_from_ymd(first_year - 1, 6, 1);
    let b = date_from_ymd(last_year + 1, 6, 1);
    match (a, b) {
        (Some(a), Some(b)) => Some((a, b)),
        _ => None,
    }
}

/// January 1 of a year, where a box of that year stands; `None` where
/// chrono holds no such date.
pub fn year_start(year: i32) -> (r: Option<Date>)
    ensures
        r is Some <==> valid_date(Date { year, month: 1, day: 1 }),
        r matches Some(d) ==> d == (Date { year, month: 1, day: 1 }),
{
    date_from_ymd(year, 1, 1)
}

/// The size, file and title of a range-frequency chart.
#[derive(Debug)]
pub struct FreqChartPlan {
    /// 60 pixels for each year's column and 80 on each side.
    pub width: i32,
    /// The left and right edges of the columns' area.
    pub x_breaks: (i32, i32),
    pub path: String,
    pub title: String,
}

pub open spec fn spec_freq_path(city: Seq<char>, is_day: bool) -> Seq<char> {
    "freq_charts/"@ + city + if is_day {
        "_range_freq.svg"@
    } else {
        "_nite_range_freq.svg"@
    }
}

/// The caption: a daytime chart is captioned as daytime, a nighttime chart
/// as nighttime.
pub open spec fn spec_freq_title(city: Seq<char>, first_year: int, last_year: int, is_day: bool) -> Seq<char> {
    (if is_day {
        "Daytime"@
    } else {
        "Nighttime"@
    }) + " Temperature Range Frequency for "@ + underscores_to_spaces(city) + " from "@
        + int_text(first_year) + " to "@ + int_text(last_year)
}

/// The plan of the daytime (`is_day`) or nighttime chart of a city with
/// `years` year rows.
pub fn freq_chart_plan(city: &str, first_year: i32, last_year: i32, years: usize, is_day: bool) -> (r:
    FreqChartPlan)
    requires
        years * 60 + 160 <= i32::MAX,
    ensures
        r.width == years * 60 + 160,
        r.x_breaks == (100i32, (r.width - 100) as i32),
        r.path@ == spec_freq_path(city@, is_day),
        r.title@ == spec_freq_title(city@, first_year as int, last_year as int, is_day),
{
    let width: i32 = (years as i32) * 60 + 80 + 80;
    let mut path = owned("freq_charts/");
    path.append(city);
    if is_day {
        path.append("_range_freq.svg");
    } else {
        path.append("_nite_range_freq.svg");
    }
    let mut title = if is_day {
        owned("Daytime")
    } else {
        owned("Nighttime")
    };
    title.append(" Temperature Range Frequency for ");
    let city_title = replace_underscores(city);
    title.append(city_title.as_str());
    title.append(" from ");
    push_int(&mut title, first_year as i64);
    title.append(" to ");
    push_int(&mut title, last_year as i64);
    FreqChartPlan { width, x_breaks: (100, width - 100), path, title }
}

/// The years labelled under the columns: every second year from the first,
/// stopping before the last.
pub open spec fn spec_label_years(first: int, last: int) -> Seq<i32> {
    let n = if last > first {
        (last - first + 1) / 2
    } else {
        0
    };
    Seq::new(n as nat, |j: int| (first + 2 * j) as i32)
}

pub fn label_years(first_year: i32, last_year: i32) -> (r: Vec<i32>)
    ensures
        r@ == spec_label_years(first_year as int, last_year as int),
{
    let mut r: Vec<i32> = Vec::new();
    let mut y: i64 = first_year as i64;
    let ghost n: int = if last_year > first_year {
        (last_year - first_year + 1) / 2
    } else {
        0
    };
    while y < last_year as i64
        invariant
            first_year <= y,
            y == first_year || y <= last_year as i64 + 1,
            (y - first_year) % 2 == 0,
            r@ == Seq::new(((y - first_year) / 2) as nat, |j: int| (first_year + 2 * j) as i32),
        decreases last_year as int + 2 - y as int,
    {
        let ghost k = (y - first_year) / 2;
        r.push(y as i32);
        assert(r@ =~= Seq::new((k + 1) as nat, |j: int| (first_year + 2 * j) as i32));
        y = y + 2;
    }
    assert(((y - first_year) / 2) == n);
    r
}

} // verus!
