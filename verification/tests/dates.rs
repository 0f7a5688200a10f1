use weather_chart::calendar::Date;
use weather_chart::date_chart::{
    date_axis, date_chart_spec, earliest_date_text, full_chart_title, latest_date_text,
    chart_limit, dated_marks, dated_readings, padded_axis, record_count_query, temp_axis,
    LABEL_MARGIN, YEAR_PITCH,
};
use weather_chart::dup_dates::{dates_diff_in_days, find_dup_dates, mark_runs, try_find_dup_dates, DateTemp};
use weather_chart::colors::Rgb;

fn d(year: i32, month: u32, day: u32) -> Date {
    Date { year, month, day }
}

#[test]
fn chrono_reads_and_shifts_dates() {
    // 2020-09-05 is read; eleven months before is 2019-10-05, after is 2021-08-05.
    let a = date_axis("2020-09-05", "2020-09-05").unwrap();
    assert_eq!((a.start, a.end, a.years), (d(2019, 10, 5), d(2021, 8, 5), 1));
    // An impossible date is not read: the defaults of 1870 and 2070 stand in.
    let a = date_axis("2020-02-30", "not a date").unwrap();
    assert_eq!((a.start, a.end), (d(1869, 2, 1), d(2070, 12, 1)));
    // Days are cut to the length of the month reached.
    let p = padded_axis(d(2014, 12, 31), d(2019, 3, 31));
    assert_eq!((p.start, p.end), (d(2014, 1, 31), d(2020, 2, 29)));
    let p = padded_axis(d(2015, 3, 30), d(2022, 7, 31));
    assert_eq!((p.start, p.end), (d(2014, 4, 30), d(2023, 6, 30)));
    let p = padded_axis(d(2014, 1, 1), d(2014, 1, 1));
    assert_eq!((p.start, p.end), (d(2013, 2, 1), d(2014, 12, 1)));
    // Whole years: one day short of a year does not count.
    let p = padded_axis(d(2001, 1, 2), d(2000, 1, 1));
    assert_eq!((p.start, p.end, p.years), (d(2000, 2, 2), d(2000, 12, 1), 0));
    assert!(date_axis("2001-06-02", "2000-01-01").is_some());
    assert!(date_axis("2002-06-02", "2000-01-01").is_none());
}

#[test]
fn chrono_counts_days() {
    assert_eq!(dates_diff_in_days("2014-01-01", "2013-01-01"), 365);
    assert_eq!(dates_diff_in_days("2014-01-01", "1614-01-01"), 365 * 400 + 97);
    assert_eq!(dates_diff_in_days("1970-01-01", "0001-01-01"), 719_162);
    assert_eq!(dates_diff_in_days("0000-01-01", "0001-01-01"), 366);
    assert_eq!(dates_diff_in_days("2000-03-01", "2000-02-28"), 2);
    assert_eq!(dates_diff_in_days("1900-03-01", "1900-02-28"), 1);
}

#[test]
fn days_between_date_texts() {
    assert_eq!(dates_diff_in_days("2020-01-01", "2020-03-01"), 60);
    assert_eq!(dates_diff_in_days("2020-03-01", "2020-01-01"), 60);
    assert_eq!(dates_diff_in_days("1999-12-31", "1999-12-31"), 0);
}

fn dt(date: &str, temp: i32) -> DateTemp {
    DateTemp { date: date.to_string(), temp }
}

fn marks(v: Vec<weather_chart::dup_dates::DupEntry>) -> Vec<(String, i32, i32)> {
    v.into_iter().map(|e| (e.date, e.temp, e.count)).collect()
}

#[test]
fn close_runs_are_marked_once() {
    let rows = vec![
        dt("2020-07-01", 110),
        dt("2020-07-10", 110),
        dt("2020-07-20", 110),
        dt("1990-01-01", 110),
        dt("2000-05-05", 109),
    ];
    assert_eq!(marks(find_dup_dates(&rows)), vec![("2020-07-01".to_string(), 110, 3)]);
}

#[test]
fn run_ended_by_a_new_temperature() {
    let rows = vec![dt("2000-01-01", 5), dt("2000-01-02", 5), dt("1950-01-01", 4)];
    assert_eq!(marks(find_dup_dates(&rows)), vec![("2000-01-01".to_string(), 5, 2)]);
}

#[test]
fn distant_readings_are_not_marked() {
    let rows = vec![dt("2000-01-01", 5), dt("2001-01-01", 5), dt("2002-01-01", 6)];
    assert!(find_dup_dates(&rows).is_empty());
    assert!(find_dup_dates(&vec![dt("2000-01-01", 5)]).is_empty());
}

#[test]
fn runs_at_the_same_start_date_are_marked_once() {
    let rows = vec![
        dt("2000-01-01", 5),
        dt("2000-01-02", 5),
        dt("2000-01-01", 4),
        dt("2000-01-03", 4),
    ];
    assert_eq!(marks(find_dup_dates(&rows)), vec![("2000-01-01".to_string(), 4, 2)]);
}

#[test]
fn unreadable_dates_are_refused() {
    let rows = vec![dt("2000-01-01", 5), dt("junk", 5)];
    assert!(try_find_dup_dates(&rows).is_none());
    let rows = vec![dt("junk", 5), dt("2000-01-01", 6)];
    assert!(try_find_dup_dates(&rows).unwrap().is_empty());
}

#[test]
fn chart_kinds() {
    assert_eq!(chart_limit(36500), 3650);
    assert_eq!(chart_limit(36501), 3651);
    assert_eq!(chart_limit(5), 1);
    assert_eq!(chart_limit(0), 0);
    assert_eq!(record_count_query("Boston", 1), "SELECT COUNT(*) FROM Boston where tmax is not null");
    assert_eq!(record_count_query("Boston", 2), "SELECT COUNT(*) FROM Boston where tmax is not null");
    assert_eq!(record_count_query("Boston", 3), "SELECT COUNT(*) FROM Boston where tmin is not null");
    assert_eq!(record_count_query("Boston", 4), "SELECT COUNT(*) FROM Boston where tmin is not null");
    assert_eq!(record_count_query("Boston", 0), "");
    let s = date_chart_spec("Los_Angeles", 1, 36500);
    assert_eq!(s.title, "Los Angeles: 3650 Hottest Daytime Temperatures");
    assert_eq!(
        s.query,
        "SELECT tdate, tmax FROM Los_Angeles where tmax is not null ORDER BY tmax DESC, tdate ASC LIMIT 3650"
    );
    assert_eq!(s.file, "date_charts/Los_Angeles_high_max.svg");
    assert_eq!(s.color, Rgb { r: 220, g: 20, b: 60 });
    let s = date_chart_spec("Boston", 2, 50000);
    assert_eq!(s.title, "Boston: 5000 Coolest Daytime Temperatures");
    assert_eq!(s.file, "date_charts/Boston_high_min.svg");
    assert_eq!(s.color, Rgb { r: 255, g: 69, b: 0 });
    let s = date_chart_spec("Boston", 3, 5);
    assert_eq!(
        s.query,
        "SELECT tdate, tmin FROM Boston where tmin is not null ORDER BY tmin ASC, tdate ASC LIMIT 1"
    );
    assert_eq!(s.file, "date_charts/Boston_low_max.svg");
    assert_eq!(s.color, Rgb { r: 0, g: 0, b: 205 });
    let s = date_chart_spec("Boston", 4, 10000);
    assert_eq!(s.title, "Boston: 1000 Warmest Nighttime Temperatures");
    assert_eq!(s.color, Rgb { r: 0, g: 128, b: 0 });
    let s = date_chart_spec("Boston", 5, 10000);
    assert_eq!(s.title, "");
    assert_eq!(s.query, "");
    assert_eq!(s.file, "");
    assert_eq!(s.color, Rgb { r: 220, g: 20, b: 60 });
}

#[test]
fn readings_and_marks_get_dates() {
    let rows = vec![dt("2000-01-31", 50), dt("1999-12-01", -3)];
    assert_eq!(dated_readings(&rows), Some(vec![(d(2000, 1, 31), 50), (d(1999, 12, 1), -3)]));
    let rows = vec![dt("2000-01-31", 50), dt("2000-02-30", 1)];
    assert_eq!(dated_readings(&rows), None);
    assert_eq!(dated_readings(&Vec::new()), Some(Vec::new()));
    let runs = find_dup_dates(&vec![dt("2000-01-01", 7), dt("2000-01-02", 7)]);
    assert_eq!(dated_marks(&runs), Some(vec![(d(2000, 1, 1), 7, 2)]));
}

#[test]
fn temperature_axis() {
    assert_eq!(temp_axis(&vec![50, 70, 60]), (71, 49));
    assert_eq!(temp_axis(&vec![-20]), (-19, -21));
    assert_eq!(temp_axis(&vec![]), (1, -1));
    assert_eq!(temp_axis(&vec![i32::MAX, i32::MIN]), (i32::MAX as i64 + 1, i32::MIN as i64 - 1));
}

#[test]
fn first_and_last_date_texts() {
    let dates = vec!["1950-06-01".to_string(), "1899-12-31".to_string(), "2020-01-01".to_string()];
    assert_eq!(earliest_date_text(&dates), "1899-12-31");
    assert_eq!(latest_date_text(&dates), "2020-01-01");
    assert_eq!(earliest_date_text(&Vec::new()), "1800-01-01");
    assert_eq!(latest_date_text(&Vec::new()), "2070-01-01");
    let dates = vec!["2014-5-17".to_string(), "2014-05-18".to_string()];
    assert_eq!(earliest_date_text(&dates), "2014-05-18");
    assert_eq!(latest_date_text(&dates), "2014-5-17");
    assert_eq!(full_chart_title("T", "a", "b"), "T, a to b");
}

#[test]
fn date_axes() {
    let a = date_axis("1900-03-15", "2000-06-30").unwrap();
    assert_eq!(a.start, d(1899, 4, 15));
    assert_eq!(a.end, d(2001, 5, 30));
    assert_eq!(a.years, 102);
    assert_eq!(a.width, 102 * 38 + 180);
    assert_eq!((YEAR_PITCH, LABEL_MARGIN), (38, 180));
    let a = date_axis("junk", "junk").unwrap();
    assert_eq!(a.start, d(1869, 2, 1));
    assert_eq!(a.end, d(2070, 12, 1));
    assert_eq!(a.years, 201);
    assert_eq!(a.width, 7818);
    assert!(date_axis("2100-01-01", "1800-01-01").is_none());
    let p = padded_axis(d(2000, 1, 31), d(2000, 1, 31));
    assert_eq!(p.start, d(1999, 2, 28));
    assert_eq!(p.end, d(2000, 12, 31));
    assert_eq!(p.years, 1);
}

#[test]
fn runs_marked_from_given_gaps() {
    let rows = vec![dt("a", 5), dt("b", 5), dt("c", 5), dt("d", 4), dt("e", 4)];
    assert_eq!(marks(mark_runs(&rows, &vec![1, 44, 0, 45])), vec![("a".to_string(), 5, 3)]);
    assert_eq!(marks(mark_runs(&rows, &vec![45, 1, 0, 3])), vec![("b".to_string(), 5, 2), ("d".to_string(), 4, 2)]);
    let rows = vec![dt("1800-01-01", 7), dt("x", 7), dt("y", 7)];
    assert_eq!(
        marks(mark_runs(&rows, &vec![1, 1])),
        vec![("1800-01-01".to_string(), 7, 2), ("x".to_string(), 7, 3)]
    );
}
