//! The yearly line charts of a city: what each is read from, where it is
//! written, and the words on it.

use vstd::prelude::*;
use crate::line_series::{
    label_index, positions, segment_views, segments_of, series_points, spec_label_index,
    spec_positions, spec_series_points, split_segments, Point,
};
use crate::period::{period_name, spec_slot_count, Period};
use crate::readings::{column_values, spec_column, TempColumn, TempRow};
use crate::text::{int_string, int_text, lower_text, owned, push_int, replace_underscores, underscores_to_spaces};

verus! {

/// One line chart of a city's year.
#[derive(Debug)]
pub struct LineChartPage {
    pub table: String,
    pub column: String,
    pub file: String,
    pub title: String,
    /// The legend's captions: average highs, median highs, average lows, median lows.
    pub legend: Vec<String>,
}

pub open spec fn line_word(p: Period) -> Seq<char> {
    match p {
        Period::Month => "month"@,
        Period::Week => "week"@,
        Period::Fort => "fort"@,
    }
}

pub open spec fn line_column(p: Period) -> Seq<char> {
    match p {
        Period::Month => "tmonth"@,
        Period::Week => "tweek"@,
        Period::Fort => "tfort"@,
    }
}

pub open spec fn line_title_word(p: Period) -> Seq<char> {
    match p {
        Period::Month => " Average Monthly Temperatures"@,
        Period::Week => " Average Weekly Temperatures"@,
        Period::Fort => " Average Fortnight Temperatures"@,
    }
}

pub open spec fn line_legend(p: Period) -> Seq<Seq<char>> {
    match p {
        Period::Month => seq![
            "High Avg Temps"@,
            "High Median Temps"@,
            "Low Avg Temps"@,
            "Low Median Temps"@,
        ],
        Period::Week => seq![
            "High Avg Temps"@,
            "High Median Temps"@,
            "Avg Low Temps"@,
            "Median Low Temps"@,
        ],
        Period::Fort => seq![
            "Avg High Temps"@,
            "Median High Temps"@,
            "Avg Low Temps"@,
            "Median Low Temps"@,
        ],
    }
}

pub open spec fn strings_view(v: Seq<String>) -> Seq<Seq<char>> {
    v.map_values(|s: String| s@)
}

fn line_words(p: Period) -> (r: (&'static str, &'static str, &'static str, [&'static str; 4]))
    ensures
        r.0@ == line_word(p),
        r.1@ == line_column(p),
        r.2@ == line_title_word(p),
        r.3@.map_values(|s: &str| s@) == line_legend(p),
{
    let r = match p {
        Period::Month => (
            "month",
            "tmonth",
            " Average Monthly Temperatures",
            ["High Avg Temps", "High Median Temps", "Low Avg Temps", "Low Median Temps"],
        ),
        Period::Week => (
            "week",
            "tweek",
            " Average Weekly Temperatures",
            ["High Avg Temps", "High Median Temps", "Avg Low Temps", "Median Low Temps"],
        ),
        Period::Fort => (
            "fort",
            "tfort",
            " Average Fortnight Temperatures",
            ["Avg High Temps", "Median High Temps", "Avg Low Temps", "Median Low Temps"],
        ),
    };
    assert(r.3@.map_values(|s: &str| s@) =~= line_legend(p));
    r
}

/// The line chart of a period for a city's year: table `city_month` (or
/// `_week`, `_fort`) and its period column, file
/// `line_charts/city_year_month.svg`, the title with underscores of the
/// city's name shown as spaces, and the legend's four captions.
pub fn line_chart_page(city: &str, year: i32, p: Period) -> (r: LineChartPage)
    ensures
        r.table@ == city@ + "_"@ + line_word(p),
        r.column@ == line_column(p),
        r.file@ == spec_line_file(city@, year as int, p),
        r.title@ == int_text(year as int) + " "@ + underscores_to_spaces(city@) + line_title_word(p),
        strings_view(r.legend@) == line_legend(p),
{
    let (word, column, title_word, legend_words) = line_words(p);
    let mut table = owned(city);
    table.append("_");
    table.append(word);
    let mut file = owned("line_charts/");
    file.append(city);
    file.append("_");
    push_int(&mut file, year as i64);
    file.append("_");
    file.append(word);
    file.append(".svg");
    let mut title = int_string(year as i64);
    title.append(" ");
    let city_title = replace_underscores(city);
    title.append(city_title.as_str());
    title.append(title_word);
    let mut legend: Vec<String> = Vec::new();
    let mut i: usize = 0;
    while i < 4
        invariant
            i <= 4,
            legend_words@.map_values(|s: &str| s@) == line_legend(p),
            strings_view(legend@) == line_legend(p).take(i as int),
        decreases 4 - i,
    {
        let word_i: &str = legend_words[i];
        let w = owned(word_i);
        let ghost before = legend@;
        legend.push(w);
        assert(strings_view(legend@) =~= strings_view(before).push(word_i@));
        assert(legend_words@.map_values(|s: &str| s@)[i as int] == legend_words@[i as int]@);
        assert(strings_view(legend@) =~= line_legend(p).take(i + 1));
        i = i + 1;
    }
    assert(line_legend(p).take(4) =~= line_legend(p));
    LineChartPage { table, column: owned(column), file, title, legend }
}

/// Each line chart reads its own period's table and column and is written
/// under its own period's name: the table is `city_` and the period's name
/// in small letters (`month`, `week`, `fort`), the column is `t` and that
/// same word, and the file ends in `_`, that word and `.svg`.
pub proof fn law_line_page_reads_its_period(city: Seq<char>, year: int, p: Period)
    ensures
        line_word(p) == lower_text(period_name(p)),
        line_column(p) == "t"@ + lower_text(period_name(p)),
        spec_line_file(city, year, p) == "line_charts/"@ + city + "_"@ + int_text(year) + "_"@ + lower_text(
            period_name(p),
        ) + ".svg"@,
{
    reveal_strlit("Month");
    reveal_strlit("Week");
    reveal_strlit("Fort");
    reveal_strlit("month");
    reveal_strlit("week");
    reveal_strlit("fort");
    reveal_strlit("tmonth");
    reveal_strlit("tweek");
    reveal_strlit("tfort");
    reveal_strlit("t");
    assert(line_word(p) =~= lower_text(period_name(p)));
    assert(line_column(p) =~= "t"@ + lower_text(period_name(p)));
}

/// The file of a period's line chart for a city's year.
pub open spec fn spec_line_file(city: Seq<char>, year: int, p: Period) -> Seq<char> {
    "line_charts/"@ + city + "_"@ + int_text(year) + "_"@ + line_word(p) + ".svg"@
}

/// The line charts of the three periods of a year go to three different files.
pub proof fn law_line_pages_have_distinct_files(city: Seq<char>, year: int, p: Period, q: Period)
    requires
        p != q,
    ensures
        spec_line_file(city, year, p) != spec_line_file(city, year, q),
{
    reveal_strlit("month");
    reveal_strlit("week");
    reveal_strlit("fort");
    let pre = "line_charts/"@ + city + "_"@ + int_text(year) + "_"@;
    assert(spec_line_file(city, year, p) == pre + line_word(p) + ".svg"@);
    assert(spec_line_file(city, year, q) == pre + line_word(q) + ".svg"@);
    crate::text::lemma_different_middle(pre, line_word(p), line_word(q), ".svg"@);
}

/// The labels under the horizontal axis, one every 52 positions: month
/// boundaries between bars, with the week charts' first label written
/// slightly tighter.
pub open spec fn line_x_labels(p: Period) -> Seq<Seq<char>> {
    seq![
        "|"@,
        if p == Period::Week {
            "\u{1F870} Jan| Feb \u{2013}"@
        } else {
            "\u{1F870} Jan | Feb \u{2013}"@
        },
        "- Feb | Mar -"@,
        "- Mar | Apr -"@,
        "- Apr | May -"@,
        "- May | Jun -"@,
        "- Jun | Jul -"@,
        "\u{2014} Jul | Aug -"@,
        "- Aug | Sep -"@,
        "- Sep | Oct -"@,
        "- Oct | Nov -"@,
        "\u{2014} Nov | Dec \u{1F872}"@,
        "|"@,
    ]
}

fn x_label_text(p: Period, k: usize) -> (r: &'static str)
    requires
        k <= 12,
    ensures
        r@ == line_x_labels(p)[k as int],
{
    match k {
        0 => "|",
        1 => if p == Period::Week {
            "\u{1F870} Jan| Feb \u{2013}"
        } else {
            "\u{1F870} Jan | Feb \u{2013}"
        },
        2 => "- Feb | Mar -",
        3 => "- Mar | Apr -",
        4 => "- Apr | May -",
        5 => "- May | Jun -",
        6 => "- Jun | Jul -",
        7 => "\u{2014} Jul | Aug -",
        8 => "- Aug | Sep -",
        9 => "- Sep | Oct -",
        10 => "- Oct | Nov -",
        11 => "\u{2014} Nov | Dec \u{1F872}",
        _ => "|",
    }
}

/// The label the line charts of a period show at axis position `x`.
pub fn line_x_label(p: Period, x: i32) -> (r: String)
    requires
        x > -52,
    ensures
        r@ == line_x_labels(p)[spec_label_index(x as int)],
{
    let k = label_index(x);
    owned(x_label_text(p, k))
}

/// The segments one line of a chart is drawn through: the period's
/// positions paired with a column of the year's rows (0 where a value could
/// not be read), cut at the values above 200.
pub fn line_segments(rows: &Vec<TempRow>, p: Period, c: TempColumn) -> (r: Vec<Vec<Point>>)
    ensures
        segment_views(r@) == segments_of(
            spec_series_points(
                spec_positions(p),
                rows@.map_values(|row: TempRow| spec_column(row, c)),
            ),
        ),
{
    let pos = positions(p);
    let temps = column_values(rows, c);
    let points = series_points(&pos, &temps);
    split_segments(points)
}

/// The points of each period lie inside the 0 to 624 axis, left to right,
/// one for every slot of the period.
pub proof fn law_positions_fit_the_axis(p: Period)
    ensures
        spec_positions(p).len() == spec_slot_count(p),
        forall|i: int| 0 <= i < spec_positions(p).len() ==> 0 < #[trigger] spec_positions(p)[i] < 624,
        forall|i: int, j: int|
            0 <= i < j < spec_positions(p).len() ==> #[trigger] spec_positions(p)[i]
                < #[trigger] spec_positions(p)[j],
{
}

} // verus!
