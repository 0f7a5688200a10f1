//! Chart planning for a city temperature archive: the query text, the
//! layout, the colour bands and the series that the charts of each city are
//! drawn from, computed from plain values that the program reads from its
//! database.

pub mod text;
pub mod period;
pub mod line_series;
pub mod calendar;
pub mod dup_dates;
pub mod colors;
pub mod text_order;
pub mod date_chart;
pub mod queries;
pub mod readings;
pub mod chart_frame;
pub mod bar_chart;
pub mod freq_chart;
pub mod line_chart;
pub mod video;
pub mod menu;
