use weather_chart::bar_chart::{
    bar_chart_pages, bar_scale, bar_slots, title_position, x_axis_labels, y_label_positions,
    BarScale,
};
use weather_chart::chart_frame::{axes_lines, bar_chart_config, base_chart, grid_lines, legend_layout, ChartConfig};
use weather_chart::colors::{get_cool_colors, get_warm_colors, Rgb};
use weather_chart::freq_chart::{
    freq_band, freq_bar_top, freq_chart_plan, freq_ranges, label_years, make_range,
};
use weather_chart::menu::{menu_action, menu_choices, MenuAction};
use weather_chart::period::Period;
use weather_chart::readings::{RangeRow, TempRow};
use weather_chart::video::{ffmpeg_args, ffmpeg_path, frame_rates, video_families, video_periods, ChartFamily};
use weather_chart::calendar::Date;
use weather_chart::freq_chart::{freq_axis_span, year_start};
use weather_chart::period::chart_years;

#[test]
fn band_colors() {
    assert_eq!(get_warm_colors(32), Rgb { r: 30, g: 144, b: 255 });
    assert_eq!(get_warm_colors(33), Rgb { r: 210, g: 180, b: 140 });
    assert_eq!(get_warm_colors(80), Rgb { r: 0, g: 250, b: 154 });
    assert_eq!(get_warm_colors(95), Rgb { r: 255, g: 165, b: 0 });
    assert_eq!(get_warm_colors(101), Rgb { r: 255, g: 0, b: 0 });
    assert_eq!(get_cool_colors(-40), Rgb { r: 0, g: 0, b: 139 });
    assert_eq!(get_cool_colors(60), Rgb { r: 139, g: 69, b: 19 });
    assert_eq!(get_cool_colors(61), Rgb { r: 34, g: 139, b: 34 });
    assert_eq!(get_cool_colors(100), Rgb { r: 204, g: 85, b: 0 });
    assert_eq!(get_cool_colors(150), Rgb { r: 139, g: 0, b: 0 });
}

#[test]
fn chart_configurations() {
    let c = ChartConfig::default();
    assert_eq!((c.axis_width, c.axis_height, c.h_tick_width, c.v_tick_height), (1180, 700, 295, 70));
    let b = bar_chart_config();
    assert_eq!((b.axis_width, b.axis_height, b.h_tick_width, b.v_tick_height), (1170, 700, 292, 70));
    let c = ChartConfig::new(1000, 500, 10, 20, 30, 40);
    assert_eq!((c.axis_width, c.axis_height, c.h_tick_width, c.v_tick_height), (930, 470, 232, 47));
}

#[test]
fn frame_lines() {
    let b = bar_chart_config();
    let axes = axes_lines(&b);
    assert_eq!((axes[0].x1, axes[0].y1, axes[0].x2, axes[0].y2, axes[0].width), (70, 60, 70, 760, 5));
    assert_eq!((axes[1].x1, axes[1].y1, axes[1].x2, axes[1].y2), (68, 760, 1240, 760));
    let grid = grid_lines(&b);
    assert_eq!(grid.len(), 8 + 50);
    assert_eq!((grid[0].x1, grid[0].y1, grid[0].y2, grid[0].width), (362, 60, 758, 1));
    assert_eq!(grid[0].color, Rgb { r: 128, g: 128, b: 128 });
    assert_eq!((grid[1].y1, grid[1].y2, grid[1].width), (760, 770, 3));
    assert_eq!(grid[6].x1, 70 + 4 * 292);
    let h = &grid[8 + 5];
    assert_eq!((h.x1, h.y1, h.x2, h.y2), (72, 130, 1240, 130));
    assert_eq!(grid[8 + 5 + 2].y1, 130 + 17);
    assert_eq!(grid[8 + 5 + 4].y1, 130 + 51);
    assert_eq!(base_chart(&b).len(), 60);
}

#[test]
fn legend() {
    let l = legend_layout();
    assert_eq!((l.background.x1, l.background.y1, l.background.x2, l.background.y2), (1080, 62, 1238, 222));
    assert!(l.background.filled && !l.border.filled);
    assert_eq!(l.border.stroke_width, 2);
    assert_eq!(l.entries.len(), 5);
    assert_eq!(l.entries[0].label, "100+°F low hi");
    assert_eq!(l.entries[0].high_swatch.color, Rgb { r: 255, g: 0, b: 0 });
    assert_eq!(l.entries[4].label, "<= 32°F low hi");
    assert_eq!(l.entries[4].low_swatch.color, Rgb { r: 0, g: 0, b: 139 });
    assert_eq!((l.entries[1].low_swatch.x1, l.entries[1].low_swatch.y1), (1090, 102));
    assert_eq!((l.entries[1].high_swatch.x1, l.entries[1].high_swatch.x2), (1115, 1135));
    assert_eq!((l.entries[2].label_x, l.entries[2].label_y), (1145, 139));
}

fn temps(highs: &[Option<i32>]) -> Vec<TempRow> {
    highs.iter().map(|h| TempRow { tmax: *h, tmin: Some(20), mmax: None, mmin: None }).collect()
}

#[test]
fn bars_of_a_year() {
    let mut highs = vec![Some(95); 12];
    highs[1] = Some(250);
    highs[2] = None;
    highs[11] = Some(200);
    let rows = temps(&highs);
    let bars = bar_slots("Month", &rows, true);
    assert_eq!(bars.len(), 10);
    assert_eq!((bars[0].x, bars[0].width, bars[0].temp), (117, 30, 95));
    assert_eq!(bars[0].color, Rgb { r: 255, g: 165, b: 0 });
    assert_eq!(bars[1].x, 4 * 97 + 20);
    assert_eq!(bars[9].temp, 200);
    let lows = bar_slots("Month", &rows, false);
    assert_eq!(lows.len(), 12);
    assert_eq!(lows[0].color, Rgb { r: 0, g: 0, b: 139 });
    let weeks = temps(&vec![Some(50); 52]);
    let bars = bar_slots("Week", &weeks, true);
    assert_eq!(bars.len(), 52);
    assert_eq!((bars[0].x, bars[0].width), (92, 8));
    let forts = temps(&vec![Some(50); 26]);
    let bars = bar_slots("Fort", &forts, false);
    assert_eq!((bars[0].x, bars[0].width, bars.len()), (99, 18, 26));
    assert!(bar_slots("Year", &rows, true).is_empty());
}

#[test]
fn axis_labels() {
    let w = x_axis_labels("Week", 14);
    assert_eq!(w.len(), 52);
    assert_eq!((w[0].text.as_str(), w[0].x, w[0].y), ("1", 91, 772));
    assert_eq!(w[51].text, "52");
    let f = x_axis_labels("Fort", 14);
    assert_eq!((f[0].text.as_str(), f[0].x, f[0].y), ("1", 99, 768));
    let m = x_axis_labels("Month", 14);
    assert_eq!((m[0].text.as_str(), m[0].x, m[0].y), ("Jan", 122, 770));
    assert_eq!(m[11].text, "Dec");
    assert!(x_axis_labels("Day", 14).is_empty());
    let y = y_label_positions(20, 10);
    assert_eq!(y.len(), 10);
    assert_eq!(y[0], (26, 55));
    assert_eq!(y[9], (26, 685));
    assert_eq!(title_position(400, 30), (440, 20));
}

#[test]
fn scale_and_pages() {
    assert_eq!(bar_scale(Some((-12, 104))), BarScale { y_lowest: -12, y_highest: 104, y_range: 116 });
    assert_eq!(bar_scale(None), BarScale { y_lowest: 0, y_highest: 0, y_range: 0 });
    let pages = bar_chart_pages("Boston", 1950);
    assert_eq!(pages.len(), 3);
    assert_eq!(pages[0].period, Period::Month);
    assert_eq!(pages[0].table, "Boston_Month");
    assert_eq!(pages[0].column, "tmonth");
    assert_eq!(pages[0].file, "bar_charts/Boston_1950_month.svg");
    assert_eq!(pages[0].title, "1950 Boston  Monthly Avg Temperatures");
    assert_eq!(pages[1].table, "Boston_Week");
    assert_eq!(pages[1].title, "1950 Boston  Weekly Avg Temperatures");
    assert_eq!(pages[2].file, "bar_charts/Boston_1950_fort.svg");
    assert_eq!(pages[2].title, "1950 Boston  Fortnightly Avg Temperatures");
    assert_eq!(Period::from_name("Fort"), Some(Period::Fort));
    assert_eq!(Period::from_name("fort"), None);
}

fn range_row(year: Option<i32>, hundreds: Option<i32>, freezing: Option<i32>) -> RangeRow {
    RangeRow {
        tyear: year,
        count_100s: hundreds,
        count_90s: Some(9),
        count_80s: Some(8),
        count_70s: Some(7),
        count_60s: Some(6),
        count_50s: Some(5),
        count_40s: Some(4),
        count_30s: Some(3),
        count_freezing: freezing,
    }
}

#[test]
fn range_frequencies() {
    let rows = vec![range_row(Some(1900), Some(2), None), range_row(None, None, Some(11))];
    assert_eq!(make_range(&rows, 100), vec![(1900, 2), (0, 0)]);
    assert_eq!(make_range(&rows, 90), vec![(1900, 9), (0, 9)]);
    assert_eq!(make_range(&rows, 30), vec![(1900, 3), (0, 3)]);
    assert_eq!(make_range(&rows, -1), vec![(1900, 0), (0, 11)]);
    assert_eq!(make_range(&rows, 7), vec![(1900, 0), (0, 11)]);
    assert_eq!(freq_ranges(), vec![100, 90, 80, 70, 60, 50, 40, 30, -1]);
    let b = freq_band(100);
    assert_eq!((b.row, b.area, b.alpha_pct, b.background_alpha_pct), (1, 4, 90, 15));
    let b = freq_band(90);
    assert_eq!((b.area, b.color, b.alpha_pct), (7, Rgb { r: 220, g: 20, b: 60 }, 88));
    let b = freq_band(-1);
    assert_eq!((b.row, b.area, b.color), (9, 28, Rgb { r: 0, g: 0, b: 128 }));
    assert_eq!(freq_bar_top(7), -28);
}

#[test]
fn frequency_chart_plan() {
    let p = freq_chart_plan("Los_Angeles", 1906, 2023, 118, true);
    assert_eq!(p.width, 118 * 60 + 160);
    assert_eq!(p.x_breaks, (100, 118 * 60 + 60));
    assert_eq!(p.path, "freq_charts/Los_Angeles_range_freq.svg");
    assert_eq!(p.title, "Daytime Temperature Range Frequency for Los Angeles from 1906 to 2023");
    let p = freq_chart_plan("Boston", 1, 2, 0, false);
    assert_eq!(p.width, 160);
    assert_eq!(p.path, "freq_charts/Boston_nite_range_freq.svg");
    assert_eq!(p.title, "Nighttime Temperature Range Frequency for Boston from 1 to 2");
    let p = freq_chart_plan("New_York_City", 1900, 1901, 2, false);
    assert_eq!(p.title, "Nighttime Temperature Range Frequency for New York City from 1900 to 1901");
    let p = freq_chart_plan("New_York_City", 1900, 1901, 2, true);
    assert_eq!(p.title, "Daytime Temperature Range Frequency for New York City from 1900 to 1901");
    assert_eq!(label_years(1900, 1905), vec![1900, 1902, 1904]);
    assert_eq!(label_years(1900, 1904), vec![1900, 1902]);
    assert_eq!(label_years(1900, 1900), Vec::<i32>::new());
    assert_eq!(label_years(1900, 1800), Vec::<i32>::new());
    assert_eq!(label_years(i32::MAX - 2, i32::MAX), vec![i32::MAX - 2]);
}

#[test]
fn video_commands() {
    assert_eq!(ffmpeg_path(), "C:\\ProgramData\\chocolatey\\bin\\ffmpeg.exe");
    assert_eq!(frame_rates(), vec![1, 2, 4, 8, 16]);
    assert_eq!(video_periods(), vec!["month", "week", "fort"]);
    assert_eq!(
        ffmpeg_args("Boston", 1872, 4, ChartFamily::Bar, "week"),
        vec![
            "-hide_banner",
            "-y",
            "-start_number",
            "1872",
            "-framerate",
            "4",
            "-i",
            "bar_pngs\\Boston_%4d_week.png",
            "-c:v",
            "libx264",
            "videos\\Boston_week_4.mp4",
        ]
    );
}

#[test]
fn line_chart_videos() {
    assert_eq!(video_families(), vec![ChartFamily::Bar, ChartFamily::Line]);
    assert_eq!(
        ffmpeg_args("Boston", 1872, 16, ChartFamily::Line, "month"),
        vec![
            "-hide_banner",
            "-y",
            "-start_number",
            "1872",
            "-framerate",
            "16",
            "-i",
            "line_pngs\\Boston_%4d_month.png",
            "-c:v",
            "libx264",
            "videos\\Boston_line_month_16.mp4",
        ]
    );
}

#[test]
fn years_and_box_dates() {
    assert_eq!(chart_years(1999, 2002), vec![1999, 2000, 2001, 2002]);
    assert_eq!(chart_years(2002, 2002), vec![2002]);
    assert_eq!(chart_years(2002, 1999), Vec::<i32>::new());
    assert_eq!(chart_years(i32::MAX - 1, i32::MAX), vec![i32::MAX - 1, i32::MAX]);
    let (a, b) = freq_axis_span(1906, 2023).unwrap();
    assert_eq!(a, Date { year: 1905, month: 6, day: 1 });
    assert_eq!(b, Date { year: 2024, month: 6, day: 1 });
    assert!(freq_axis_span(1906, 300000).is_none());
    assert_eq!(year_start(1950), Some(Date { year: 1950, month: 1, day: 1 }));
    assert_eq!(year_start(-300000), None);
}

#[test]
fn menu() {
    let choices = menu_choices();
    assert_eq!(choices.len(), 7);
    assert_eq!(choices[0], "List all cities");
    assert_eq!(choices[6], "Exit");
    assert_eq!(menu_action("List all cities"), Some(MenuAction::ListCities));
    assert_eq!(menu_action("Generate Range Charts"), Some(MenuAction::RangeCharts));
    assert_eq!(menu_action("Generate BAR Charts by CITY"), Some(MenuAction::BarCharts));
    assert_eq!(menu_action("Generate LINE Charts by CITY"), Some(MenuAction::LineCharts));
    assert_eq!(
        menu_action("Generate Wide Date-Temp Charts by CITY"),
        Some(MenuAction::DateTempCharts)
    );
    assert_eq!(menu_action("Generate Videos from Charts"), Some(MenuAction::Videos));
    assert_eq!(menu_action("Exit"), Some(MenuAction::Exit));
    assert_eq!(menu_action("exit"), None);
}
