//! The yearly bar charts of a city: one bar per period for the average
//! high and one for the average low, coloured by temperature band.

use vstd::prelude::*;
use crate::colors::{cool_color, get_cool_colors, get_warm_colors, temp_band, warm_color, Rgb};
use crate::period::{period_name, spec_slot_count, Period};
use crate::readings::TempRow;
use crate::text::{int_string, int_text, lower_text, owned, push_int};

verus! {

broadcast use vstd::seq_lib::group_seq_properties;

/// The left margin of the bar charts' plot.
pub const LEFT_MARGIN: i32 = 70;

/// The top margin of the bar charts' plot.
pub const TOP_MARGIN: i32 = 60;

/// The width of the bar charts' plot.
pub const AXIS_WIDTH: i32 = 1170;

/// The height of the bar charts' plot.
pub const AXIS_HEIGHT: i32 = 700;

/// The height of the bottom line of the plot.
pub const BOTTOM_LINE_Y: i32 = 760;

/// The left edge of the bar for slot `i` (1 based) of a period.
pub open spec fn slot_x(p: Period, i: int) -> int {
    match p {
        Period::Week => i * 22 + 70,
        Period::Fort => i * 45 + 70 - 16,
        Period::Month => i * 97 + 70 - 50,
    }
}

/// The width of the bars of a period.
pub open spec fn bar_width(p: Period) -> int {
    match p {
        Period::Week => 8,
        Period::Fort => 18,
        Period::Month => 30,
    }
}

/// A bar to draw: its left edge and width, the temperature it reaches and its colour.
#[derive(Clone, Copy, Debug, PartialEq, Eq, Structural)]
pub struct BarSlot {
    pub x: i32,
    pub width: i32,
    pub temp: i32,
    pub color: Rgb,
}

/// The reading of slot `i` (1 based): the high or low of row `i - 1`.
pub open spec fn slot_reading(rows: Seq<TempRow>, i: int, high: bool) -> Option<i32> {
    if high {
        rows[i - 1].tmax
    } else {
        rows[i - 1].tmin
    }
}

/// A reading that gets a bar: one that could be read and is 200 or below
/// (higher values stand for missing data).
pub open spec fn drawn(v: Option<i32>) -> bool {
    v matches Some(t) && t <= 200
}

pub open spec fn spec_slot(p: Period, i: int, t: i32, high: bool) -> BarSlot {
    BarSlot {
        x: slot_x(p, i) as i32,
        width: bar_width(p) as i32,
        temp: t,
        color: if high {
            warm_color(temp_band(t as int))
        } else {
            cool_color(temp_band(t as int))
        },
    }
}

/// The bars of the first `k` slots, in slot order.
pub open spec fn spec_bars_upto(p: Period, rows: Seq<TempRow>, high: bool, k: int) -> Seq<BarSlot>
    decreases k,
{
    if k <= 0 {
        Seq::empty()
    } else {
        let prev = spec_bars_upto(p, rows, high, k - 1);
        let v = slot_reading(rows, k, high);
        if drawn(v) {
            prev.push(spec_slot(p, k, v.unwrap(), high))
        } else {
            prev
        }
    }
}

/// The bars of a year: one for every slot of the period whose reading is
/// drawn, the highs in warm colours and the lows in cool ones.
pub open spec fn spec_bars(p: Period, rows: Seq<TempRow>, high: bool) -> Seq<BarSlot> {
    spec_bars_upto(p, rows, high, spec_slot_count(p))
}

/// The bars for the highs (`high`) or the lows of a year of a period named
/// `period`; no bars for a name other than `Month`, `Week` or `Fort`. The
/// year's rows must cover every slot of the period.
pub fn bar_slots(period: &str, rows: &Vec<TempRow>, high: bool) -> (r: Vec<BarSlot>)
    requires
        forall|p: Period| period_name(p) == period@ ==> rows@.len() >= spec_slot_count(p),
    ensures
        (forall|p: Period| period_name(p) != period@) ==> r@.len() == 0,
        forall|p: Period| period_name(p) == period@ ==> r@ == spec_bars(p, rows@, high),
{
    let p = match Period::from_name(period) {
        Some(p) => p,
        None => {
            return Vec::new();
        },
    };
    let n = p.slot_count();
    let width: i32 = match p {
        Period::Week => 8,
        Period::Fort => 18,
        Period::Month => 30,
    };
    let mut r: Vec<BarSlot> = Vec::new();
    let mut i: usize = 1;
    while i <= n
        invariant
            n == spec_slot_count(p),
            n <= rows@.len(),
            width == bar_width(p),
            1 <= i <= n + 1,
            r@ == spec_bars_upto(p, rows@, high, i - 1),
        decreases n + 1 - i,
    {
        let row = rows[i - 1];
        let v = if high {
            row.tmax
        } else {
            row.tmin
        };
        match v {
            Some(t) => {
                if t <= 200 {
                    let ii = i as i32;
                    let x = match p {
                        Period::Week => ii * 22 + 70,
                        Period::Fort => ii * 45 + 70 - 16,
                        Period::Month => ii * 97 + 70 - 50,
                    };
                    let color = if high {
                        get_warm_colors(t)
                    } else {
                        get_cool_colors(t)
                    };
                    r.push(BarSlot { x, width, temp: t, color });
                }
            },
            None => {},
        }
        i = i + 1;
    }
    r
}

/// Bars are drawn only for readings of 200 degrees or below, and from left
/// to right in slot order.
pub proof fn law_bars_in_order_and_real(p: Period, rows: Seq<TempRow>, high: bool, k: int)
    requires
        0 <= k <= spec_slot_count(p),
    ensures
        forall|j: int|
            0 <= j < spec_bars_upto(p, rows, high, k).len() ==> #[trigger] spec_bars_upto(
                p,
                rows,
                high,
                k,
            )[j].temp <= 200,
        forall|j: int|
            0 <= j < spec_bars_upto(p, rows, high, k).len() ==> slot_x(p, 1) <= #[trigger] spec_bars_upto(
                p,
                rows,
                high,
                k,
            )[j].x <= slot_x(p, k),
        forall|a: int, b: int|
            0 <= a < b < spec_bars_upto(p, rows, high, k).len() ==> (#[trigger] spec_bars_upto(
                p,
                rows,
                high,
                k,
            )[a]).x < (#[trigger] spec_bars_upto(p, rows, high, k)[b]).x,
        spec_bars_upto(p, rows, high, k).len() <= k,
    decreases k,
{
    if k > 0 {
        law_bars_in_order_and_real(p, rows, high, k - 1);
    }
}

/// The rows with each low put in the place of the high.
pub open spec fn lows_as_highs(rows: Seq<TempRow>) -> Seq<TempRow> {
    rows.map_values(|r: TempRow| TempRow { tmax: r.tmin, tmin: r.tmin, mmax: r.mmax, mmin: r.mmin })
}

/// A bar in the cool colour of its band.
pub open spec fn in_cool_colors(b: BarSlot) -> BarSlot {
    BarSlot { x: b.x, width: b.width, temp: b.temp, color: cool_color(temp_band(b.temp as int)) }
}

proof fn lemma_lows_are_swapped_highs(p: Period, rows: Seq<TempRow>, k: int)
    requires
        0 <= k <= rows.len(),
    ensures
        spec_bars_upto(p, rows, false, k) == spec_bars_upto(p, lows_as_highs(rows), true, k).map_values(
            |b: BarSlot| in_cool_colors(b),
        ),
    decreases k,
{
    if k > 0 {
        lemma_lows_are_swapped_highs(p, rows, k - 1);
        let sw = lows_as_highs(rows);
        assert(sw[k - 1].tmax == rows[k - 1].tmin);
        let prev = spec_bars_upto(p, sw, true, k - 1);
        let v = slot_reading(sw, k, true);
        if drawn(v) {
            assert(prev.push(spec_slot(p, k, v.unwrap(), true)).map_values(|b: BarSlot| in_cool_colors(b))
                =~= prev.map_values(|b: BarSlot| in_cool_colors(b)).push(spec_slot(p, k, v.unwrap(), false)));
        }
    }
}

/// The low bars of a year are the high bars of the same rows with each low
/// put in the place of the high, drawn in the cool colour of their band.
/// It is stated where the rows reach every slot of the period, the rows on
/// which either kind of bar can be drawn at all.
pub proof fn law_low_bars_are_swapped_high_bars(p: Period, rows: Seq<TempRow>)
    requires
        rows.len() >= spec_slot_count(p),
    ensures
        spec_bars(p, rows, false) == spec_bars(p, lows_as_highs(rows), true).map_values(
            |b: BarSlot| in_cool_colors(b),
        ),
{
    lemma_lows_are_swapped_highs(p, rows, spec_slot_count(p));
}

/// A text to draw and where its lower left corner goes.
#[derive(Debug)]
pub struct TextItem {
    pub text: String,
    pub x: i32,
    pub y: i32,
}

pub open spec fn text_view(t: TextItem) -> (Seq<char>, int, int) {
    (t.text@, t.x as int, t.y as int)
}

pub open spec fn month_abbr(i: int) -> Seq<char> {
    if i == 1 {
        "Jan"@
    } else if i == 2 {
        "Feb"@
    } else if i == 3 {
        "Mar"@
    } else if i == 4 {
        "Apr"@
    } else if i == 5 {
        "May"@
    } else if i == 6 {
        "Jun"@
    } else if i == 7 {
        "Jul"@
    } else if i == 8 {
        "Aug"@
    } else if i == 9 {
        "Sep"@
    } else if i == 10 {
        "Oct"@
    } else if i == 11 {
        "Nov"@
    } else if i == 12 {
        "Dec"@
    } else {
        ""@
    }
}

fn month_abbr_str(i: i32) -> (r: &'static str)
    ensures
        r@ == month_abbr(i as int),
{
    match i {
        1 => "Jan",
        2 => "Feb",
        3 => "Mar",
        4 => "Apr",
        5 => "May",
        6 => "Jun",
        7 => "Jul",
        8 => "Aug",
        9 => "Sep",
        10 => "Oct",
        11 => "Nov",
        12 => "Dec",
        _ => "",
    }
}

/// The label under slot `i` (1 based): the week or fortnight number, or the
/// month's abbreviation; `h` is the height of a number label.
pub open spec fn spec_x_label(p: Period, i: int, h: int) -> (Seq<char>, int, int) {
    match p {
        Period::Week => (int_text(i), i * 22 + 70 - 1, 760 + h / 2 + 5),
        Period::Fort => (int_text(i), i * 45 + 70 - 15 - 1, 760 + h / 2 + 1),
        Period::Month => (month_abbr(i), i * 97 + 70 - 45, 770),
    }
}

/// The labels under the horizontal axis of a period named `period`, one per
/// slot; none for another name. `label_height` is the height of the text
/// "55" in the label font.
pub fn x_axis_labels(period: &str, label_height: u32) -> (r: Vec<TextItem>)
    requires
        label_height / 2 + 765 <= i32::MAX,
    ensures
        (forall|p: Period| period_name(p) != period@) ==> r@.len() == 0,
        forall|p: Period|
            period_name(p) == period@ ==> {
                &&& r@.len() == spec_slot_count(p)
                &&& forall|k: int|
                    0 <= k < r@.len() ==> text_view(#[trigger] r@[k]) == spec_x_label(
                        p,
                        k + 1,
                        label_height as int,
                    )
            },
{
    let p = match Period::from_name(period) {
        Some(p) => p,
        None => {
            return Vec::new();
        },
    };
    let n = p.slot_count() as i32;
    let half: i32 = (label_height / 2) as i32;
    let mut r: Vec<TextItem> = Vec::new();
    let mut i: i32 = 1;
    while i <= n
        invariant
            n == spec_slot_count(p),
            half == label_height / 2,
            half + 765 <= i32::MAX,
            1 <= i <= n + 1,
            r@.len() == i - 1,
            forall|k: int|
                0 <= k < r@.len() ==> text_view(#[trigger] r@[k]) == spec_x_label(
                    p,
                    k + 1,
                    label_height as int,
                ),
        decreases n + 1 - i,
    {
        let item = match p {
            Period::Week => TextItem { text: int_string(i as i64), x: i * 22 + 70 - 1, y: 760 + half + 5 },
            Period::Fort => TextItem { text: int_string(i as i64), x: i * 45 + 70 - 15 - 1, y: 760 + half + 1 },
            Period::Month => TextItem { text: owned(month_abbr_str(i)), x: i * 97 + 70 - 45, y: 770 },
        };
        r.push(item);
        i = i + 1;
    }
    r
}

/// Where the ten temperature labels of the vertical axis go, top to bottom,
/// for labels `w` wide and `h` high: right-aligned 24 pixels left of the
/// axis, centred on the grid lines.
pub open spec fn spec_y_label_position(i: int, w: int, h: int) -> (int, int) {
    (70 - 24 - w, 60 + 70 * i - h / 2)
}

pub fn y_label_positions(w: u32, h: u32) -> (r: Vec<(i32, i32)>)
    requires
        w <= i32::MAX,
        h <= i32::MAX,
    ensures
        r@.len() == 10,
        forall|i: int|
            0 <= i < 10 ==> (#[trigger] r@[i]).0 == spec_y_label_position(i, w as int, h as int).0
                && r@[i].1 == spec_y_label_position(i, w as int, h as int).1,
{
    let wi = w as i32;
    let half = (h / 2) as i32;
    let mut r: Vec<(i32, i32)> = Vec::new();
    let mut i: i32 = 0;
    while i < 10
        invariant
            wi == w,
            half == h / 2,
            w <= i32::MAX,
            0 <= i <= 10,
            r@.len() == i,
            forall|k: int|
                0 <= k < i ==> (#[trigger] r@[k]).0 == spec_y_label_position(k, w as int, h as int).0
                    && r@[k].1 == spec_y_label_position(k, w as int, h as int).1,
        decreases 10 - i,
    {
        r.push((70 - 24 - wi, 60 + 70 * i - half));
        i = i + 1;
    }
    r
}

/// Where a title `w` wide and `h` high goes: centred across the 1280 pixel
/// drawing, its baseline 10 pixels above its height.
pub fn title_position(w: u32, h: u32) -> (r: (i32, i32))
    requires
        w <= i32::MAX,
        h <= i32::MAX,
    ensures
        r.0 == 640 - (w as int) / 2,
        r.1 == h - 10,
{
    (640 - (w as i32) / 2, h as i32 - 10)
}

/// The temperature span of a city's bar charts.
#[derive(Clone, Copy, Debug, PartialEq, Eq, Structural)]
pub struct BarScale {
    pub y_lowest: i32,
    pub y_highest: i32,
    pub y_range: i32,
}

/// The span from the city's lowest to its highest temperature, or from 0 to
/// 0 where those could not be read.
pub fn bar_scale(bounds: Option<(i32, i32)>) -> (r: BarScale)
    requires
        bounds matches Some((lo, hi)) ==> i32::MIN <= hi - lo <= i32::MAX,
    ensures
        bounds is None ==> r == (BarScale { y_lowest: 0, y_highest: 0, y_range: 0 }),
        bounds matches Some((lo, hi)) ==> r == (BarScale {
            y_lowest: lo,
            y_highest: hi,
            y_range: (hi - lo) as i32,
        }),
{
    let (city_low, city_high) = crate::queries::bounds_or_zero(bounds);
    BarScale { y_lowest: city_low, y_highest: city_high, y_range: city_high - city_low }
}

/// One of the three bar charts of a city's year.
#[derive(Debug)]
pub struct BarChartPage {
    pub period: Period,
    /// The table of the period's averages.
    pub table: String,
    /// The column naming the period in that table.
    pub column: String,
    pub file: String,
    pub title: String,
}

pub open spec fn period_column(p: Period) -> Seq<char> {
    match p {
        Period::Month => "tmonth"@,
        Period::Week => "tweek"@,
        Period::Fort => "tfort"@,
    }
}

pub open spec fn period_file_word(p: Period) -> Seq<char> {
    match p {
        Period::Month => "month"@,
        Period::Week => "week"@,
        Period::Fort => "fort"@,
    }
}

pub open spec fn period_adjective(p: Period) -> Seq<char> {
    match p {
        Period::Month => "Monthly"@,
        Period::Week => "Weekly"@,
        Period::Fort => "Fortnightly"@,
    }
}

/// The order of the charts of a year: months, weeks, fortnights.
pub open spec fn page_period(k: int) -> Period {
    if k == 0 {
        Period::Month
    } else if k == 1 {
        Period::Week
    } else {
        Period::Fort
    }
}

pub open spec fn spec_page(city: Seq<char>, year: int, p: Period) -> (
    Seq<char>,
    Seq<char>,
    Seq<char>,
    Seq<char>,
) {
    (
        city + "_"@ + period_name(p),
        period_column(p),
        "bar_charts/"@ + city + "_"@ + int_text(year) + "_"@ + period_file_word(p) + ".svg"@,
        int_text(year) + " "@ + city + "  "@ + period_adjective(p) + " Avg Temperatures"@,
    )
}

pub open spec fn page_view(pg: BarChartPage) -> (Period, (Seq<char>, Seq<char>, Seq<char>, Seq<char>)) {
    (pg.period, (pg.table@, pg.column@, pg.file@, pg.title@))
}

/// The three charts of a year are written to three different files.
pub proof fn law_year_pages_have_distinct_files(city: Seq<char>, year: int)
    ensures
        forall|k: int, j: int|
            0 <= k < j < 3 ==> #[trigger] spec_page(city, year, page_period(k)).2 != #[trigger] spec_page(
                city,
                year,
                page_period(j),
            ).2,
{
    reveal_strlit("month");
    reveal_strlit("week");
    reveal_strlit("fort");
    let pre = "bar_charts/"@ + city + "_"@ + int_text(year) + "_"@;
    assert forall|k: int, j: int| 0 <= k < j < 3 implies #[trigger] spec_page(
        city,
        year,
        page_period(k),
    ).2 != #[trigger] spec_page(city, year, page_period(j)).2 by {
        let a = period_file_word(page_period(k));
        let b = period_file_word(page_period(j));
        assert(spec_page(city, year, page_period(k)).2 == pre + a + ".svg"@);
        assert(spec_page(city, year, page_period(j)).2 == pre + b + ".svg"@);
        crate::text::lemma_different_middle(pre, a, b, ".svg"@);
    }
}

/// Each page of a year reads its own period's table and column and is
/// written under its own period's name: the table is `city_` and the
/// period's name (`Month`, `Week`, `Fort`), the column is `t` and that name
/// in small letters (`tmonth`, `tweek`, `tfort`), and the file ends in `_`,
/// that name in small letters and `.svg`.
pub proof fn law_page_reads_its_period(city: Seq<char>, year: int, p: Period)
    ensures
        spec_page(city, year, p).0 == city + "_"@ + period_name(p),
        spec_page(city, year, p).1 == "t"@ + lower_text(period_name(p)),
        spec_page(city, year, p).2 == "bar_charts/"@ + city + "_"@ + int_text(year) + "_"@ + lower_text(
            period_name(p),
        ) + ".svg"@,
{
    reveal_strlit("Month");
    reveal_strlit("Week");
    reveal_strlit("Fort");
    reveal_strlit("month");
    reveal_strlit("week");
    reveal_strlit("fort");
    reveal_strlit("tmonth");
    reveal_strlit("tweek");
    reveal_strlit("tfort");
    reveal_strlit("t");
    assert(period_file_word(p) =~= lower_text(period_name(p)));
    assert(period_column(p) =~= "t"@ + lower_text(period_name(p)));
}

fn period_words(p: Period) -> (r: (&'static str, &'static str, &'static str))
    ensures
        r.0@ == period_column(p),
        r.1@ == period_file_word(p),
        r.2@ == period_adjective(p),
{
    match p {
        Period::Month => ("tmonth", "month", "Monthly"),
        Period::Week => ("tweek", "week", "Weekly"),
        Period::Fort => ("tfort", "fort", "Fortnightly"),
    }
}

fn bar_page(city: &str, year: i32, p: Period) -> (r: BarChartPage)
    ensures
        page_view(r) == (p, spec_page(city@, year as int, p)),
{
    let (column, word, adjective) = period_words(p);
    let mut table = owned(city);
    table.append("_");
    table.append(p.name());
    let mut file = owned("bar_charts/");
    file.append(city);
    file.append("_");
    push_int(&mut file, year as i64);
    file.append("_");
    file.append(word);
    file.append(".svg");
    let mut title = int_string(year as i64);
    title.append(" ");
    title.append(city);
    title.append("  ");
    title.append(adjective);
    title.append(" Avg Temperatures");
    BarChartPage { period: p, table, column: owned(column), file, title }
}

/// The three bar charts of a city's year, months first, then weeks, then
/// fortnights: the table and column each is read from, its file and its title.
pub fn bar_chart_pages(city: &str, year: i32) -> (r: Vec<BarChartPage>)
    ensures
        r@.len() == 3,
        forall|k: int|
            0 <= k < 3 ==> page_view(#[trigger] r@[k]) == (
                page_period(k),
                spec_page(city@, year as int, page_period(k)),
            ),
{
    let mut r: Vec<BarChartPage> = Vec::new();
    r.push(bar_page(city, year, Period::Month));
    r.push(bar_page(city, year, Period::Week));
    r.push(bar_page(city, year, Period::Fort));
    r
}

} // verus!
