# weather_chart

Charts of a city temperature database: yearly bar and line charts of
monthly, weekly and fortnightly averages, range-frequency charts, and wide
charts of the hottest and coldest daily readings, plus ffmpeg videos of the
yearly charts.

- `src/` is the verified library (Verus): query texts, chart layouts, the
  temperature bands and their colours, the series of the line charts and
  their splitting at missing readings, the range counts, the runs of equal
  temperatures on the date charts, the calendar arithmetic of their axes
  (through chrono), the ffmpeg command lines and the menu.
- `app/` is the program: the menu loop, the MySQL queries (sqlx), the
  drawing (plotters), the videos (ffmpeg) and the floating-point parts of
  the drawing.
- `tests/` run the library on concrete values.
