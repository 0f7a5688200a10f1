use weather_chart::line_chart::{line_chart_page, line_segments, line_x_label};
use weather_chart::line_series::{label_index, positions, series_points, split_segments};
use weather_chart::period::Period;
use weather_chart::readings::{column_values, TempColumn, TempRow};

#[test]
fn segments_cut_at_missing_readings() {
    let data = vec![(0, 10), (1, 300), (2, 20), (3, 30), (4, 250), (5, 250)];
    assert_eq!(split_segments(data), vec![vec![(0, 10)], vec![(2, 20), (3, 30)]]);
    let data = vec![(0, 201), (1, 200), (2, 201)];
    assert_eq!(split_segments(data), vec![vec![(1, 200)]]);
    assert_eq!(split_segments(vec![]), Vec::<Vec<(i32, i32)>>::new());
    let data = vec![(4, 74), (14, 61), (26, 61)];
    assert_eq!(split_segments(data.clone()), vec![data]);
}

#[test]
fn period_positions() {
    let m = positions(Period::Month);
    assert_eq!(m, vec![26, 78, 130, 182, 234, 286, 338, 390, 442, 494, 546, 598]);
    let f = positions(Period::Fort);
    assert_eq!(f.len(), 26);
    assert_eq!(f[0], 14);
    assert_eq!(f[19], 470);
    assert_eq!(f[25], 614);
    let w = positions(Period::Week);
    assert_eq!(w.len(), 52);
    assert_eq!(&w[0..4], &[4, 14, 26, 38]);
    assert_eq!(w[51], 614);
}

#[test]
fn points_pair_positions_with_readings() {
    let pos = vec![26, 78, 130];
    let temps = vec![Some(74), None, Some(61), Some(99)];
    assert_eq!(series_points(&pos, &temps), vec![(26, 74), (78, 0), (130, 61)]);
    assert_eq!(series_points(&pos, &vec![Some(1)]), vec![(26, 1)]);
}

#[test]
fn axis_label_index() {
    assert_eq!(label_index(0), 0);
    assert_eq!(label_index(51), 0);
    assert_eq!(label_index(52), 1);
    assert_eq!(label_index(623), 11);
    assert_eq!(label_index(624), 12);
    assert_eq!(label_index(5000), 12);
    assert_eq!(label_index(-51), 0);
}

#[test]
fn line_chart_pages() {
    let pg = line_chart_page("Los_Angeles", 1918, Period::Month);
    assert_eq!(pg.table, "Los_Angeles_month");
    assert_eq!(pg.column, "tmonth");
    assert_eq!(pg.file, "line_charts/Los_Angeles_1918_month.svg");
    assert_eq!(pg.title, "1918 Los Angeles Average Monthly Temperatures");
    assert_eq!(pg.legend, vec!["High Avg Temps", "High Median Temps", "Low Avg Temps", "Low Median Temps"]);
    let pg = line_chart_page("Phoenix", 2001, Period::Fort);
    assert_eq!(pg.table, "Phoenix_fort");
    assert_eq!(pg.title, "2001 Phoenix Average Fortnight Temperatures");
    assert_eq!(pg.legend, vec!["Avg High Temps", "Median High Temps", "Avg Low Temps", "Median Low Temps"]);
    let pg = line_chart_page("Phoenix", 2001, Period::Week);
    assert_eq!(pg.file, "line_charts/Phoenix_2001_week.svg");
    assert_eq!(pg.column, "tweek");
    assert_eq!(pg.legend, vec!["High Avg Temps", "High Median Temps", "Avg Low Temps", "Median Low Temps"]);
}

#[test]
fn line_axis_labels() {
    assert_eq!(line_x_label(Period::Month, 0), "|");
    assert_eq!(line_x_label(Period::Month, 52), "\u{1F870} Jan | Feb \u{2013}");
    assert_eq!(line_x_label(Period::Week, 52), "\u{1F870} Jan| Feb \u{2013}");
    assert_eq!(line_x_label(Period::Fort, 364), "\u{2014} Jul | Aug -");
    assert_eq!(line_x_label(Period::Fort, 624), "|");
}

fn row(tmax: Option<i32>) -> TempRow {
    TempRow { tmax, tmin: Some(1), mmax: None, mmin: Some(2) }
}

#[test]
fn line_segments_of_a_year() {
    let mut rows = Vec::new();
    for k in 0..12 {
        rows.push(row(Some(60 + k)));
    }
    rows[4] = row(Some(999));
    rows[5] = row(None);
    let segs = line_segments(&rows, Period::Month, TempColumn::Tmax);
    assert_eq!(segs.len(), 2);
    assert_eq!(segs[0], vec![(26, 60), (78, 61), (130, 62), (182, 63)]);
    assert_eq!(segs[1][0], (286, 0));
    assert_eq!(segs[1].len(), 7);
    assert_eq!(column_values(&rows, TempColumn::Mmax), vec![None; 12]);
    assert_eq!(column_values(&rows, TempColumn::Mmin)[3], Some(2));
}
