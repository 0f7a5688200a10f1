//! The wide date-temperature charts: the four kinds of chart, the query
//! behind each, and the ranges of their axes.

use vstd::prelude::*;
use crate::calendar::{
    add_months, chrono_parse_ymd, date_from_ymd, parse_date, shift_in_range, shift_months,
    sub_months, valid_date, whole_years, years_since, Date, max_year, min_year, month_index,
};
use crate::colors::{rgb, Rgb};
use crate::dup_dates::{DateTemp, DupEntry};
use crate::text::{int_string, int_text, owned, underscores_to_spaces, replace_underscores};
use crate::text_order::{
    lemma_text_le_antisymmetric, lemma_text_le_total, lemma_text_le_transitive, text_le,
    text_le_exec,
};

verus! {

/// Pixels of chart width for each year of the axis.
pub const YEAR_PITCH: u32 = 38;

/// Pixels of chart width for the labels on both sides.
pub const LABEL_MARGIN: u32 = 180;

/// How many readings a chart shows out of `records`: a tenth, rounded up,
/// so that a city with any record gets at least one dot.
pub open spec fn spec_chart_limit(records: int) -> int {
    (records + 9) / 10
}

pub fn chart_limit(records: i64) -> (r: i64)
    requires
        0 <= records <= i64::MAX - 9,
    ensures
        r == spec_chart_limit(records as int),
{
    (records + 9) / 10
}

/// A chart shows a tenth of the records, rounded up: no fewer than a
/// tenth, and less than one more than a tenth.
pub proof fn law_chart_shows_a_tenth(records: int)
    requires
        records >= 0,
    ensures
        10 * spec_chart_limit(records) >= records,
        10 * (spec_chart_limit(records) - 1) < records || records == 0,
        records > 0 ==> spec_chart_limit(records) >= 1,
{
}

/// An axis of about a century (99 to 103 whole years) is about 4,000 pixels wide.
pub proof fn law_century_is_about_four_thousand_pixels(years: int)
    requires
        99 <= years <= 103,
    ensures
        3900 <= years * YEAR_PITCH + LABEL_MARGIN <= 4100,
{
}

/// The column a chart kind shows: the daily high for kinds 1 and 2, the daily low otherwise.
pub open spec fn kind_column(kind: int) -> Seq<char> {
    if kind == 1 || kind == 2 {
        "tmax"@
    } else {
        "tmin"@
    }
}

pub open spec fn spec_record_count_query(city: Seq<char>, kind: int) -> Seq<char> {
    if known_kind(kind) {
        "SELECT COUNT(*) FROM "@ + city + " where "@ + kind_column(kind) + " is not null"@
    } else {
        Seq::empty()
    }
}

/// The query counting the records that chart `kind` of a city chooses
/// from: the days with a high (kinds 1, 2) or a low (kinds 3, 4); empty
/// for another kind.
pub fn record_count_query(city: &str, kind: i32) -> (r: String)
    ensures
        r@ == spec_record_count_query(city@, kind as int),
{
    if !(1 <= kind && kind <= 4) {
        return String::new();
    }
    let mut q = owned("SELECT COUNT(*) FROM ");
    q.append(city);
    q.append(" where ");
    if kind == 1 || kind == 2 {
        q.append("tmax");
    } else {
        q.append("tmin");
    }
    q.append(" is not null");
    q
}

/// What a date-temperature chart is made of: its title, the query for its
/// readings, the file it is written to, and the colour of its dots.
#[derive(Debug)]
pub struct DateChartSpec {
    pub title: String,
    pub query: String,
    pub file: String,
    pub color: Rgb,
}

/// The words of a chart's title after the count of readings.
pub open spec fn title_phrase(kind: int) -> Seq<char> {
    if kind == 1 {
        " Hottest Daytime Temperatures"@
    } else if kind == 2 {
        " Coolest Daytime Temperatures"@
    } else if kind == 3 {
        " Coldest Nighttime Temperatures"@
    } else {
        " Warmest Nighttime Temperatures"@
    }
}

/// The query text before the table name.
pub open spec fn query_head(kind: int) -> Seq<char> {
    if kind == 1 || kind == 2 {
        "SELECT tdate, tmax FROM "@
    } else {
        "SELECT tdate, tmin FROM "@
    }
}

/// The query text between the table name and the limit.
pub open spec fn query_tail(kind: int) -> Seq<char> {
    if kind == 1 {
        " where tmax is not null ORDER BY tmax DESC, tdate ASC LIMIT "@
    } else if kind == 2 {
        " where tmax is not null ORDER BY tmax ASC, tdate ASC LIMIT "@
    } else if kind == 3 {
        " where tmin is not null ORDER BY tmin ASC, tdate ASC LIMIT "@
    } else {
        " where tmin is not null ORDER BY tmin DESC, tdate ASC LIMIT "@
    }
}

/// The end of the chart's file name.
pub open spec fn file_suffix(kind: int) -> Seq<char> {
    if kind == 1 {
        "_high_max.svg"@
    } else if kind == 2 {
        "_high_min.svg"@
    } else if kind == 3 {
        "_low_max.svg"@
    } else {
        "_low_min.svg"@
    }
}

/// The colour of a chart's dots: crimson, orange red, medium blue, green.
pub open spec fn kind_color(kind: int) -> Rgb {
    if kind == 2 {
        rgb(255, 69, 0)
    } else if kind == 3 {
        rgb(0, 0, 205)
    } else if kind == 4 {
        rgb(0, 128, 0)
    } else {
        rgb(220, 20, 60)
    }
}

/// The chart kinds: 1 hottest days, 2 coolest days, 3 coldest nights, 4 warmest nights.
pub open spec fn known_kind(kind: int) -> bool {
    1 <= kind <= 4
}

pub open spec fn spec_chart_title(city: Seq<char>, kind: int, records: int) -> Seq<char> {
    if known_kind(kind) {
        underscores_to_spaces(city) + ": "@ + int_text(spec_chart_limit(records)) + title_phrase(kind)
    } else {
        Seq::empty()
    }
}

pub open spec fn spec_chart_query(city: Seq<char>, kind: int, records: int) -> Seq<char> {
    if known_kind(kind) {
        query_head(kind) + city + query_tail(kind) + int_text(spec_chart_limit(records))
    } else {
        Seq::empty()
    }
}

pub open spec fn spec_chart_file(city: Seq<char>, kind: int) -> Seq<char> {
    if known_kind(kind) {
        "date_charts/"@ + city + file_suffix(kind)
    } else {
        Seq::empty()
    }
}

fn kind_texts(kind: i32) -> (r: (&'static str, &'static str, &'static str, &'static str, Rgb))
    requires
        known_kind(kind as int),
    ensures
        r.0@ == title_phrase(kind as int),
        r.1@ == query_head(kind as int),
        r.2@ == query_tail(kind as int),
        r.3@ == file_suffix(kind as int),
        r.4 == kind_color(kind as int),
{
    if kind == 1 {
        (
            " Hottest Daytime Temperatures",
            "SELECT tdate, tmax FROM ",
            " where tmax is not null ORDER BY tmax DESC, tdate ASC LIMIT ",
            "_high_max.svg",
            Rgb { r: 220, g: 20, b: 60 },
        )
    } else if kind == 2 {
        (
            " Coolest Daytime Temperatures",
            "SELECT tdate, tmax FROM ",
            " where tmax is not null ORDER BY tmax ASC, tdate ASC LIMIT ",
            "_high_min.svg",
            Rgb { r: 255, g: 69, b: 0 },
        )
    } else if kind == 3 {
        (
            " Coldest Nighttime Temperatures",
            "SELECT tdate, tmin FROM ",
            " where tmin is not null ORDER BY tmin ASC, tdate ASC LIMIT ",
            "_low_max.svg",
            Rgb { r: 0, g: 0, b: 205 },
        )
    } else {
        (
            " Warmest Nighttime Temperatures",
            "SELECT tdate, tmin FROM ",
            " where tmin is not null ORDER BY tmin DESC, tdate ASC LIMIT ",
            "_low_min.svg",
            Rgb { r: 0, g: 128, b: 0 },
        )
    }
}

/// The title, query, file and colour of chart `kind` of a city that has
/// `records` records to choose from: the query asks for the most extreme
/// tenth of them. For a kind other than 1 to 4 the texts are empty and the
/// colour is crimson.
pub fn date_chart_spec(city: &str, kind: i32, records: i64) -> (r: DateChartSpec)
    requires
        0 <= records <= i64::MAX - 9,
    ensures
        r.title@ == spec_chart_title(city@, kind as int, records as int),
        r.query@ == spec_chart_query(city@, kind as int, records as int),
        r.file@ == spec_chart_file(city@, kind as int),
        r.color == kind_color(kind as int),
{
    if !(1 <= kind && kind <= 4) {
        return DateChartSpec {
            title: String::new(),
            query: String::new(),
            file: String::new(),
            color: Rgb { r: 220, g: 20, b: 60 },
        };
    }
    let (phrase, head, tail, suffix, color) = kind_texts(kind);
    let limit = int_string(chart_limit(records));
    let mut title = replace_underscores(city);
    title.append(": ");
    title.append(limit.as_str());
    title.append(phrase);
    let mut query = owned(head);
    query.append(city);
    query.append(tail);
    query.append(limit.as_str());
    let mut file = owned("date_charts/");
    file.append(city);
    file.append(suffix);
    DateChartSpec { title, query, file, color }
}

/// `title, earliest to latest`, the caption of a chart.
pub fn full_chart_title(title: &str, earliest: &str, latest: &str) -> (r: String)
    ensures
        r@ == title@ + ", "@ + earliest@ + " to "@ + latest@,
{
    let mut r = owned(title);
    r.append(", ");
    r.append(earliest);
    r.append(" to ");
    r.append(latest);
    r
}

/// The largest of a nonempty list.
pub open spec fn seq_max(s: Seq<i32>) -> int
    decreases s.len(),
{
    if s.len() <= 1 {
        s[0] as int
    } else if seq_max(s.drop_last()) >= s.last() {
        seq_max(s.drop_last())
    } else {
        s.last() as int
    }
}

/// The smallest of a nonempty list.
pub open spec fn seq_min(s: Seq<i32>) -> int
    decreases s.len(),
{
    if s.len() <= 1 {
        s[0] as int
    } else if seq_min(s.drop_last()) <= s.last() {
        seq_min(s.drop_last())
    } else {
        s.last() as int
    }
}

/// The words a chart title can name its extreme by.
pub open spec fn extreme_word(word: Seq<char>) -> bool {
    word == "Hottest"@ || word == "Coolest"@ || word == "Coldest"@ || word == "Warmest"@
}

/// The sort order that puts first the extreme a title word names: the
/// highest first for the hottest and the warmest, the lowest first for the
/// coolest and the coldest.
pub open spec fn order_for(word: Seq<char>) -> Seq<char> {
    if word == "Hottest"@ || word == "Warmest"@ {
        " DESC"@
    } else {
        " ASC"@
    }
}

/// The words a chart title can name its time of day by.
pub open spec fn time_word(time: Seq<char>) -> bool {
    time == "Daytime"@ || time == "Nighttime"@
}

/// The column that holds a time of day's readings: the daily high for the
/// daytime, the daily low for the nighttime.
pub open spec fn column_for(time: Seq<char>) -> Seq<char> {
    if time == "Daytime"@ {
        "tmax"@
    } else {
        "tmin"@
    }
}

/// The title and the queries of a chart agree: the title names an extreme
/// and a time of day, and the chart's query reads the column of that time
/// of day (the highs for daytime, the lows for nighttime), leaves out the
/// days without a reading, puts that extreme first (highest first for the
/// hottest and warmest, lowest first for the coolest and coldest) and asks
/// for the number of readings the title gives; the count of records is
/// taken over the same column.
pub proof fn law_query_follows_the_title(city: Seq<char>, kind: int, records: int)
    requires
        known_kind(kind),
        records >= 0,
    ensures
        exists|word: Seq<char>, time: Seq<char>|
            #![trigger extreme_word(word), time_word(time)]
            {
                let n = int_text(spec_chart_limit(records));
                let col = column_for(time);
                &&& extreme_word(word)
                &&& time_word(time)
                &&& spec_chart_title(city, kind, records) == underscores_to_spaces(city) + ": "@ + n + " "@
                    + word + " "@ + time + " Temperatures"@
                &&& spec_chart_query(city, kind, records) == "SELECT tdate, "@ + col + " FROM "@ + city
                    + " where "@ + col + " is not null ORDER BY "@ + col + order_for(word)
                    + ", tdate ASC LIMIT "@ + n
                &&& spec_record_count_query(city, kind) == "SELECT COUNT(*) FROM "@ + city + " where "@
                    + col + " is not null"@
            },
{
    reveal_strlit("Hottest");
    reveal_strlit("Coolest");
    reveal_strlit("Coldest");
    reveal_strlit("Warmest");
    reveal_strlit("Daytime");
    reveal_strlit("Nighttime");
    reveal_strlit(" DESC");
    reveal_strlit(" ASC");
    reveal_strlit("tmax");
    reveal_strlit("tmin");
    reveal_strlit(" ");
    reveal_strlit(" Temperatures");
    reveal_strlit("SELECT tdate, ");
    reveal_strlit(" FROM ");
    reveal_strlit(" where ");
    reveal_strlit(" is not null ORDER BY ");
    reveal_strlit(", tdate ASC LIMIT ");
    reveal_strlit(" is not null");
    reveal_strlit("SELECT tdate, tmax FROM ");
    reveal_strlit("SELECT tdate, tmin FROM ");
    reveal_strlit(" Hottest Daytime Temperatures");
    reveal_strlit(" Coolest Daytime Temperatures");
    reveal_strlit(" Coldest Nighttime Temperatures");
    reveal_strlit(" Warmest Nighttime Temperatures");
    reveal_strlit(" where tmax is not null ORDER BY tmax DESC, tdate ASC LIMIT ");
    reveal_strlit(" where tmax is not null ORDER BY tmax ASC, tdate ASC LIMIT ");
    reveal_strlit(" where tmin is not null ORDER BY tmin ASC, tdate ASC LIMIT ");
    reveal_strlit(" where tmin is not null ORDER BY tmin DESC, tdate ASC LIMIT ");
    let n = int_text(spec_chart_limit(records));
    let (word, time) = if kind == 1 {
        ("Hottest"@, "Daytime"@)
    } else if kind == 2 {
        ("Coolest"@, "Daytime"@)
    } else if kind == 3 {
        ("Coldest"@, "Nighttime"@)
    } else {
        ("Warmest"@, "Nighttime"@)
    };
    assert("Coolest"@[0] != "Hottest"@[0] && "Coolest"@[0] != "Warmest"@[0]);
    assert("Coldest"@[0] != "Hottest"@[0] && "Coldest"@[0] != "Warmest"@[0]);
    assert("Nighttime"@.len() != "Daytime"@.len());
    let col = column_for(time);
    assert(title_phrase(kind) =~= " "@ + word + " "@ + time + " Temperatures"@);
    assert(query_head(kind) =~= "SELECT tdate, "@ + col + " FROM "@);
    assert(query_tail(kind) =~= " where "@ + col + " is not null ORDER BY "@ + col + order_for(word)
        + ", tdate ASC LIMIT "@);
    assert(kind_column(kind) == col);
    assert(spec_chart_title(city, kind, records) =~= underscores_to_spaces(city) + ": "@ + n + " "@ + word
        + " "@ + time + " Temperatures"@);
    assert(spec_chart_query(city, kind, records) =~= "SELECT tdate, "@ + col + " FROM "@ + city + " where "@
        + col + " is not null ORDER BY "@ + col + order_for(word) + ", tdate ASC LIMIT "@ + n);
    assert(spec_record_count_query(city, kind) =~= "SELECT COUNT(*) FROM "@ + city + " where "@ + col
        + " is not null"@);
    assert(extreme_word(word) && time_word(time));
}

/// The four charts of a city are written to four different files, with
/// dots of four different colours.
pub proof fn law_kinds_have_their_own_files_and_colors(city: Seq<char>, k1: int, k2: int)
    requires
        known_kind(k1),
        known_kind(k2),
        k1 != k2,
    ensures
        spec_chart_file(city, k1) != spec_chart_file(city, k2),
        kind_color(k1) != kind_color(k2),
{
    reveal_strlit("_high_max.svg");
    reveal_strlit("_high_min.svg");
    reveal_strlit("_low_max.svg");
    reveal_strlit("_low_min.svg");
    let pre = "date_charts/"@ + city;
    let a = file_suffix(k1);
    let b = file_suffix(k2);
    assert(spec_chart_file(city, k1) == pre + a);
    assert(spec_chart_file(city, k2) == pre + b);
    if a.len() == b.len() {
        let j: int = if a.len() == 13 { 7 } else { 6 };
        assert(a[j] != b[j]);
        assert((pre + a)[pre.len() + j] == a[j]);
        assert((pre + b)[pre.len() + j] == b[j]);
    } else {
        assert((pre + a).len() != (pre + b).len());
    }
}

/// The largest and the smallest of a list belong to it and bound it.
pub proof fn law_extremes_bound_the_list(s: Seq<i32>)
    requires
        s.len() > 0,
    ensures
        exists|i: int| 0 <= i < s.len() && s[i] == seq_max(s),
        exists|i: int| 0 <= i < s.len() && s[i] == seq_min(s),
        forall|i: int| 0 <= i < s.len() ==> seq_min(s) <= #[trigger] s[i] <= seq_max(s),
    decreases s.len(),
{
    if s.len() > 1 {
        let t = s.drop_last();
        law_extremes_bound_the_list(t);
        let i = choose|i: int| 0 <= i < t.len() && t[i] == seq_max(t);
        let j = choose|j: int| 0 <= j < t.len() && t[j] == seq_min(t);
        assert(s[i] == t[i]);
        assert(s[j] == t[j]);
        assert(s[s.len() - 1] == s.last());
        assert forall|k: int| 0 <= k < s.len() implies seq_min(s) <= #[trigger] s[k] <= seq_max(s) by {
            if k < s.len() - 1 {
                assert(s[k] == t[k]);
            }
        }
    } else {
        assert(s[0] == seq_max(s));
    }
}

/// The top of the temperature axis: one degree above the highest reading,
/// or 1 when there is none.
pub open spec fn spec_axis_top(temps: Seq<i32>) -> int {
    if temps.len() == 0 {
        1
    } else {
        seq_max(temps) + 1
    }
}

/// The bottom of the temperature axis: one degree below the lowest reading,
/// or -1 when there is none.
pub open spec fn spec_axis_bottom(temps: Seq<i32>) -> int {
    if temps.len() == 0 {
        -1
    } else {
        seq_min(temps) - 1
    }
}

/// The top and bottom of a chart's temperature axis.
pub fn temp_axis(temps: &Vec<i32>) -> (r: (i64, i64))
    ensures
        r.0 == spec_axis_top(temps@),
        r.1 == spec_axis_bottom(temps@),
{
    let n = temps.len();
    if n == 0 {
        return (1, -1);
    }
    let mut hi: i32 = temps[0];
    let mut lo: i32 = temps[0];
    let mut i: usize = 1;
    while i < n
        invariant
            n == temps@.len(),
            1 <= i <= n,
            hi == seq_max(temps@.take(i as int)),
            lo == seq_min(temps@.take(i as int)),
        decreases n - i,
    {
        let t = temps[i];
        assert(temps@.take(i + 1).drop_last() =~= temps@.take(i as int));
        if t > hi {
            hi = t;
        }
        if t < lo {
            lo = t;
        }
        i = i + 1;
    }
    assert(temps@.take(n as int) =~= temps@);
    (hi as i64 + 1, lo as i64 - 1)
}

/// The text that sorts first among `dates`, `"1800-01-01"` when there is none.
pub fn earliest_date_text(dates: &Vec<String>) -> (r: String)
    ensures
        dates@.len() == 0 ==> r@ == "1800-01-01"@,
        dates@.len() > 0 ==> (exists|i: int| 0 <= i < dates@.len() && dates@[i]@ == r@),
        forall|i: int| 0 <= i < dates@.len() ==> text_le(r@, (#[trigger] dates@[i])@),
{
    let n = dates.len();
    if n == 0 {
        return owned("1800-01-01");
    }
    let mut best: usize = 0;
    let mut i: usize = 1;
    proof {
        lemma_text_le_total(dates@[0]@, dates@[0]@);
    }
    while i < n
        invariant
            n == dates@.len(),
            1 <= i <= n,
            best < i,
            forall|k: int| 0 <= k < i ==> text_le(dates@[best as int]@, (#[trigger] dates@[k])@),
        decreases n - i,
    {
        if !text_le_exec(dates[best].as_str(), dates[i].as_str()) {
            proof {
                lemma_text_le_total(dates@[best as int]@, dates@[i as int]@);
                assert forall|k: int| 0 <= k <= i implies text_le(
                    dates@[i as int]@,
                    (#[trigger] dates@[k])@,
                ) by {
                    if k < i {
                        lemma_text_le_transitive(
                            dates@[i as int]@,
                            dates@[best as int]@,
                            dates@[k]@,
                        );
                    } else {
                        lemma_text_le_total(dates@[k]@, dates@[k]@);
                    }
                }
            }
            best = i;
        }
        i = i + 1;
    }
    dates[best].clone()
}

/// The text that sorts last among `dates`, `"2070-01-01"` when there is none.
pub fn latest_date_text(dates: &Vec<String>) -> (r: String)
    ensures
        dates@.len() == 0 ==> r@ == "2070-01-01"@,
        dates@.len() > 0 ==> (exists|i: int| 0 <= i < dates@.len() && dates@[i]@ == r@),
        forall|i: int| 0 <= i < dates@.len() ==> text_le((#[trigger] dates@[i])@, r@),
{
    let n = dates.len();
    if n == 0 {
        return owned("2070-01-01");
    }
    let mut best: usize = 0;
    let mut i: usize = 1;
    proof {
        lemma_text_le_total(dates@[0]@, dates@[0]@);
    }
    while i < n
        invariant
            n == dates@.len(),
            1 <= i <= n,
            best < i,
            forall|k: int| 0 <= k < i ==> text_le((#[trigger] dates@[k])@, dates@[best as int]@),
        decreases n - i,
    {
        if text_le_exec(dates[best].as_str(), dates[i].as_str()) {
            proof {
                assert forall|k: int| 0 <= k <= i implies text_le(
                    (#[trigger] dates@[k])@,
                    dates@[i as int]@,
                ) by {
                    if k < i {
                        lemma_text_le_transitive(
                            dates@[k]@,
                            dates@[best as int]@,
                            dates@[i as int]@,
                        );
                    } else {
                        lemma_text_le_total(dates@[k]@, dates@[k]@);
                    }
                }
            }
            best = i;
        } else {
            proof {
                lemma_text_le_total(dates@[best as int]@, dates@[i as int]@);
            }
        }
        i = i + 1;
    }
    dates[best].clone()
}

/// The first and last sorted text of a list are the only ones that bound
/// it: any text of the list that sorts no later than every text of the list
/// is the earliest one.
pub proof fn law_earliest_is_unique(dates: Seq<Seq<char>>, a: Seq<char>, b: Seq<char>)
    requires
        dates.contains(a),
        dates.contains(b),
        forall|i: int| 0 <= i < dates.len() ==> text_le(a, #[trigger] dates[i]),
        forall|i: int| 0 <= i < dates.len() ==> text_le(b, #[trigger] dates[i]),
    ensures
        a == b,
{
    let i = choose|i: int| 0 <= i < dates.len() && dates[i] == a;
    let j = choose|j: int| 0 <= j < dates.len() && dates[j] == b;
    assert(text_le(a, dates[j]));
    assert(text_le(b, dates[i]));
    lemma_text_le_antisymmetric(a, b);
}

/// Each reading as a dot: its date read by chrono and its temperature;
/// `None` where some date cannot be read.
pub fn dated_readings(rows: &Vec<DateTemp>) -> (r: Option<Vec<(Date, i32)>>)
    ensures
        r is Some <==> (forall|i: int| 0 <= i < rows@.len() ==> chrono_parse_ymd((#[trigger] rows@[i]).date@) is Some),
        r matches Some(v) ==> v@.len() == rows@.len() && forall|i: int|
            0 <= i < rows@.len() ==> (#[trigger] v@[i]) == (chrono_parse_ymd(rows@[i].date@).unwrap(), rows@[i].temp),
{
    let mut v: Vec<(Date, i32)> = Vec::new();
    let n = rows.len();
    let mut i: usize = 0;
    while i < n
        invariant
            n == rows@.len(),
            i <= n,
            v@.len() == i,
            forall|k: int| 0 <= k < i ==> chrono_parse_ymd((#[trigger] rows@[k]).date@) is Some,
            forall|k: int|
                0 <= k < i ==> (#[trigger] v@[k]) == (chrono_parse_ymd(rows@[k].date@).unwrap(), rows@[k].temp),
        decreases n - i,
    {
        match parse_date(rows[i].date.as_str()) {
            Some(d) => v.push((d, rows[i].temp)),
            None => {
                return None;
            },
        }
        i = i + 1;
    }
    Some(v)
}

/// Each marked run as a larger dot: the date it began, read by chrono, its
/// temperature and its length; `None` where some date cannot be read.
pub fn dated_marks(marks: &Vec<DupEntry>) -> (r: Option<Vec<(Date, i32, i32)>>)
    ensures
        r is Some <==> (forall|i: int| 0 <= i < marks@.len() ==> chrono_parse_ymd((#[trigger] marks@[i]).date@) is Some),
        r matches Some(v) ==> v@.len() == marks@.len() && forall|i: int|
            0 <= i < marks@.len() ==> (#[trigger] v@[i]) == (
                chrono_parse_ymd(marks@[i].date@).unwrap(),
                marks@[i].temp,
                marks@[i].count,
            ),
{
    let mut v: Vec<(Date, i32, i32)> = Vec::new();
    let n = marks.len();
    let mut i: usize = 0;
    while i < n
        invariant
            n == marks@.len(),
            i <= n,
            v@.len() == i,
            forall|k: int| 0 <= k < i ==> chrono_parse_ymd((#[trigger] marks@[k]).date@) is Some,
            forall|k: int|
                0 <= k < i ==> (#[trigger] v@[k]) == (
                    chrono_parse_ymd(marks@[k].date@).unwrap(),
                    marks@[k].temp,
                    marks@[k].count,
                ),
        decreases n - i,
    {
        match parse_date(marks[i].date.as_str()) {
            Some(d) => v.push((d, marks[i].temp, marks[i].count)),
            None => {
                return None;
            },
        }
        i = i + 1;
    }
    Some(v)
}

/// The date span of a chart's horizontal axis and the chart's width in pixels.
#[derive(Clone, Copy, Debug)]
pub struct DateAxis {
    pub start: Date,
    pub end: Date,
    pub years: u32,
    pub width: u32,
}

proof fn lemma_shift_valid(d: Date, delta: int)
    requires
        valid_date(d),
        shift_in_range(d, delta),
    ensures
        valid_date(shift_months(d, delta)),
        shift_months(d, delta).year == (month_index(d) + delta) / 12,
        shift_months(d, delta).month == (month_index(d) + delta) % 12 + 1,
{
    let t = month_index(d) + delta;
    assert(0 <= t % 12 < 12);
}

/// The axis of a chart whose readings run from `earliest` to `latest`:
/// eleven months of margin on each side, the whole years between the two
/// ends, and 38 pixels for each of them besides 180 for the labels (about
/// 4,000 pixels for a century).
pub fn padded_axis(earliest: Date, latest: Date) -> (r: DateAxis)
    requires
        valid_date(earliest),
        valid_date(latest),
        shift_in_range(earliest, -11),
        shift_in_range(latest, 11),
        whole_years(shift_months(latest, 11), shift_months(earliest, -11)) >= 0,
    ensures
        r.start == shift_months(earliest, -11),
        r.end == shift_months(latest, 11),
        r.years == whole_years(r.end, r.start),
        r.width == r.years * YEAR_PITCH + LABEL_MARGIN,
{
    proof {
        lemma_shift_valid(earliest, -11);
        lemma_shift_valid(latest, 11);
    }
    let start = sub_months(earliest, 11);
    let end = add_months(latest, 11);
    let years = years_since(end, start).unwrap();
    assert(years <= max_year() - min_year());
    DateAxis { start, end, years, width: years * YEAR_PITCH + LABEL_MARGIN }
}

/// The date a text holds, or `default` where chrono cannot read it.
pub open spec fn date_or(s: Seq<char>, default: Date) -> Date {
    match chrono_parse_ymd(s) {
        Some(d) => d,
        None => default,
    }
}

pub open spec fn first_default() -> Date {
    Date { year: 1870, month: 1, day: 1 }
}

pub open spec fn last_default() -> Date {
    Date { year: 2070, month: 1, day: 1 }
}

/// Whether the axis of a chart from `e` to `l` can be drawn: both padded
/// ends in chrono's range and in order.
pub open spec fn axis_drawable(e: Date, l: Date) -> bool {
    &&& shift_in_range(e, -11)
    &&& shift_in_range(l, 11)
    &&& whole_years(shift_months(l, 11), shift_months(e, -11)) >= 0
}

/// The axis of a chart whose first and last date texts are `earliest` and
/// `latest`, a text chrono cannot read standing for 1870-01-01 (first) or
/// 2070-01-01 (last); `None` where the padded dates leave chrono's range or
/// come out in the wrong order.
pub fn date_axis(earliest: &str, latest: &str) -> (r: Option<DateAxis>)
    ensures
        r is Some <==> axis_drawable(
            date_or(earliest@, first_default()),
            date_or(latest@, last_default()),
        ),
        r matches Some(a) ==> {
            &&& a.start == shift_months(date_or(earliest@, first_default()), -11)
            &&& a.end == shift_months(date_or(latest@, last_default()), 11)
            &&& a.years == whole_years(a.end, a.start)
            &&& a.width == a.years * YEAR_PITCH + LABEL_MARGIN
        },
{
    let e = match parse_date(earliest) {
        Some(d) => d,
        None => date_from_ymd(1870, 1, 1).unwrap(),
    };
    let l = match parse_date(latest) {
        Some(d) => d,
        None => date_from_ymd(2070, 1, 1).unwrap(),
    };
    let e_index: i64 = e.year as i64 * 12 + e.month as i64 - 1;
    let l_index: i64 = l.year as i64 * 12 + l.month as i64 - 1;
    if e_index - 11 < -262143 * 12 || l_index + 11 > 262142 * 12 + 11 {
        proof {
            let te = month_index(e) - 11;
            let tl = month_index(l) + 11;
            assert(te < -262143 * 12 ==> te / 12 < -262143) by (nonlinear_arith);
            assert(tl > 262142 * 12 + 11 ==> tl / 12 > 262142) by (nonlinear_arith);
        }
        return None;
    }
    proof {
        let te = month_index(e) - 11;
        let tl = month_index(l) + 11;
        assert(te >= -262143 * 12 ==> te / 12 >= -262143) by (nonlinear_arith);
        assert(tl <= 262142 * 12 + 11 ==> tl / 12 <= 262142) by (nonlinear_arith);
        assert(te <= 262142 * 12 + 11 ==> te / 12 <= 262142) by (nonlinear_arith);
        assert(tl >= -262143 * 12 ==> tl / 12 >= -262143) by (nonlinear_arith);
    }
    proof {
        lemma_shift_valid(e, -11);
        lemma_shift_valid(l, 11);
    }
    let start = sub_months(e, 11);
    let end = add_months(l, 11);
    match years_since(end, start) {
        Some(_) => Some(padded_axis(e, l)),
        None => None,
    }
}

} // verus!
