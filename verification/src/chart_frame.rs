//! The frame of a bar chart: its dimensions, axes, grid and legend.

use vstd::prelude::*;
use crate::colors::{cool_color, get_cool_colors, get_warm_colors, rgb, temp_band, warm_color, Rgb};

verus! {

broadcast use vstd::seq_lib::group_seq_properties;

/// The dimensions of a chart drawing, in pixels: the drawing, its margins,
/// the axis lengths they leave, and the spacing of the grid lines (four
/// columns, ten rows).
#[derive(Clone, Copy, Debug, PartialEq, Eq, Structural)]
pub struct ChartConfig {
    pub dwg_width: i32,
    pub dwg_height: i32,
    pub top_margin: i32,
    pub bottom_margin: i32,
    pub left_margin: i32,
    pub right_margin: i32,
    pub axis_width: i32,
    pub axis_height: i32,
    pub h_tick_width: i32,
    pub v_tick_height: i32,
}

/// Integer division rounding toward zero, as Rust divides.
pub open spec fn div_toward_zero(a: int, d: int) -> int {
    if a >= 0 {
        a / d
    } else {
        -((-a) / d)
    }
}

/// The dimensions derived from the drawing and its margins: the axis
/// lengths the margins leave, a quarter of the width between vertical grid
/// lines and a tenth of the height between horizontal ones.
pub open spec fn derived_from_margins(c: ChartConfig) -> bool {
    &&& c.axis_width == c.dwg_width - c.left_margin - c.right_margin
    &&& c.axis_height == c.dwg_height - c.top_margin - c.bottom_margin
    &&& c.h_tick_width == div_toward_zero(c.axis_width as int, 4)
    &&& c.v_tick_height == div_toward_zero(c.axis_height as int, 10)
}

impl ChartConfig {
    /// A configuration whose frame can be drawn: derived as above, no
    /// negative length, and room beyond the drawing for the 10-pixel ticks
    /// within the range of `i32`.
    pub open spec fn wf(self) -> bool {
        &&& derived_from_margins(self)
        &&& 0 <= self.top_margin
        &&& 0 <= self.left_margin
        &&& self.axis_width >= 0
        &&& self.axis_height >= 0
        &&& self.right_margin >= 0
        &&& self.bottom_margin >= 0
        &&& self.dwg_height <= i32::MAX - 10
        &&& self.dwg_width <= i32::MAX - 10
    }

    /// The configuration with every derived dimension computed from the
    /// drawing size and the margins.
    pub fn new(
        dwg_width: i32,
        dwg_height: i32,
        top_margin: i32,
        bottom_margin: i32,
        left_margin: i32,
        right_margin: i32,
    ) -> (r: ChartConfig)
        requires
            i32::MIN <= dwg_width - left_margin <= i32::MAX,
            i32::MIN <= dwg_width - left_margin - right_margin <= i32::MAX,
            i32::MIN <= dwg_height - top_margin <= i32::MAX,
            i32::MIN <= dwg_height - top_margin - bottom_margin <= i32::MAX,
        ensures
            derived_from_margins(r),
            r.dwg_width == dwg_width && r.dwg_height == dwg_height,
            r.top_margin == top_margin && r.bottom_margin == bottom_margin,
            r.left_margin == left_margin && r.right_margin == right_margin,
    {
        let axis_width = dwg_width - left_margin - right_margin;
        let axis_height = dwg_height - top_margin - bottom_margin;
        let h_tick_width = if axis_width >= 0 {
            axis_width / 4
        } else {
            -((-(axis_width as i64)) / 4) as i32
        };
        let v_tick_height = if axis_height >= 0 {
            axis_height / 10
        } else {
            -((-(axis_height as i64)) / 10) as i32
        };
        ChartConfig {
            dwg_width,
            dwg_height,
            top_margin,
            bottom_margin,
            left_margin,
            right_margin,
            axis_width,
            axis_height,
            h_tick_width,
            v_tick_height,
        }
    }
}

impl Default for ChartConfig {
    /// A 1280 by 800 drawing with margins of 50.
    fn default() -> (r: ChartConfig)
        ensures
            r.wf(),
            r == (ChartConfig {
                dwg_width: 1280,
                dwg_height: 800,
                top_margin: 50,
                bottom_margin: 50,
                left_margin: 50,
                right_margin: 50,
                axis_width: 1180,
                axis_height: 700,
                h_tick_width: 295,
                v_tick_height: 70,
            }),
    {
        ChartConfig::new(1280, 800, 50, 50, 50, 50)
    }
}

/// The bar charts' drawing: 1280 by 800, margins of 60 above, 40 below, 70
/// on the left and 40 on the right.
pub open spec fn spec_bar_chart_config() -> ChartConfig {
    ChartConfig {
        dwg_width: 1280,
        dwg_height: 800,
        top_margin: 60,
        bottom_margin: 40,
        left_margin: 70,
        right_margin: 40,
        axis_width: 1170,
        axis_height: 700,
        h_tick_width: 292,
        v_tick_height: 70,
    }
}

pub fn bar_chart_config() -> (r: ChartConfig)
    ensures
        r == spec_bar_chart_config(),
        r.wf(),
{
    ChartConfig::new(1280, 800, 60, 40, 70, 40)
}

/// A straight line of the drawing.
#[derive(Clone, Copy, Debug, PartialEq, Eq, Structural)]
pub struct Line {
    pub x1: i32,
    pub y1: i32,
    pub x2: i32,
    pub y2: i32,
    pub color: Rgb,
    pub width: u32,
}

pub open spec fn black() -> Rgb {
    rgb(0, 0, 0)
}

pub open spec fn gray() -> Rgb {
    rgb(128, 128, 128)
}

pub open spec fn white() -> Rgb {
    rgb(255, 255, 255)
}

pub open spec fn plot_line(x1: int, y1: int, x2: int, y2: int, color: Rgb, width: u32) -> Line {
    Line { x1: x1 as i32, y1: y1 as i32, x2: x2 as i32, y2: y2 as i32, color, width }
}

/// The two axes: the vertical one on the left margin, the horizontal one
/// along the bottom of the plot, both 5 pixels wide.
pub open spec fn spec_axes(c: ChartConfig) -> Seq<Line> {
    let bottom = c.axis_height + c.top_margin;
    seq![
        plot_line(c.left_margin as int, c.top_margin as int, c.left_margin as int, bottom, black(), 5),
        plot_line(c.left_margin - 2, bottom, c.axis_width + c.left_margin, bottom, black(), 5),
    ]
}

pub fn axes_lines(c: &ChartConfig) -> (r: Vec<Line>)
    requires
        c.wf(),
    ensures
        r@ == spec_axes(*c),
{
    let bottom = c.axis_height + c.top_margin;
    let mut r: Vec<Line> = Vec::new();
    r.push(
        Line {
            x1: c.left_margin,
            y1: c.top_margin,
            x2: c.left_margin,
            y2: bottom,
            color: Rgb { r: 0, g: 0, b: 0 },
            width: 5,
        },
    );
    r.push(
        Line {
            x1: c.left_margin - 2,
            y1: bottom,
            x2: c.axis_width + c.left_margin,
            y2: bottom,
            color: Rgb { r: 0, g: 0, b: 0 },
            width: 5,
        },
    );
    assert(r@ =~= spec_axes(*c));
    r
}

/// Vertical grid line `i` (1 to 4) and its tick below the axis.
pub open spec fn spec_vertical_grid(c: ChartConfig, i: int) -> Seq<Line> {
    let x = c.left_margin + i * c.h_tick_width;
    let bottom = c.axis_height + c.top_margin;
    seq![
        plot_line(x, c.top_margin as int, x, bottom - 2, gray(), 1),
        plot_line(x, bottom, x, bottom + 10, black(), 3),
    ]
}

/// Horizontal grid line `i` (0 to 9), its tick left of the axis, and the
/// three minor lines at quarters of the row below it.
pub open spec fn spec_horizontal_grid(c: ChartConfig, i: int) -> Seq<Line> {
    let y = c.top_margin + i * c.v_tick_height;
    let q = c.v_tick_height / 4;
    let x1 = c.left_margin + 2;
    let x2 = c.axis_width + c.left_margin;
    seq![
        plot_line(x1, y, x2, y, gray(), 1),
        plot_line(c.left_margin - 10, y, c.left_margin as int, y, black(), 3),
        plot_line(x1, y + q, x2, y + q, gray(), 1),
        plot_line(x1, y + 2 * q, x2, y + 2 * q, gray(), 1),
        plot_line(x1, y + 3 * q, x2, y + 3 * q, gray(), 1),
    ]
}

/// The grid: the vertical lines first, left to right, then the horizontal
/// ones, top to bottom.
pub open spec fn spec_grid(c: ChartConfig) -> Seq<Line> {
    Seq::new(4, |j: int| spec_vertical_grid(c, j + 1)).flatten() + Seq::new(
        10,
        |i: int| spec_horizontal_grid(c, i),
    ).flatten()
}

proof fn lemma_tick_bounds(c: ChartConfig, i: int)
    requires
        c.wf(),
        0 <= i <= 9,
    ensures
        0 <= i * c.h_tick_width,
        i <= 4 ==> i * c.h_tick_width <= c.axis_width,
        0 <= i * c.v_tick_height,
        i * c.v_tick_height + 3 * (c.v_tick_height / 4) <= c.axis_height,
        0 <= c.v_tick_height / 4,
{
    assert(0 <= i * c.h_tick_width && (i <= 4 ==> i * c.h_tick_width <= 4 * c.h_tick_width)) by (
    nonlinear_arith)
        requires
            0 <= i <= 9,
            c.h_tick_width >= 0,
    ;
    assert(0 <= i * c.v_tick_height <= 9 * c.v_tick_height) by (nonlinear_arith)
        requires
            0 <= i <= 9,
            c.v_tick_height >= 0,
    ;
}

pub fn grid_lines(c: &ChartConfig) -> (r: Vec<Line>)
    requires
        c.wf(),
    ensures
        r@ == spec_grid(*c),
{
    let bottom = c.axis_height + c.top_margin;
    let mut r: Vec<Line> = Vec::new();
    let mut i: i32 = 1;
    while i < 5
        invariant
            c.wf(),
            bottom == c.axis_height + c.top_margin,
            1 <= i <= 5,
            r@ == Seq::new((i - 1) as nat, |j: int| spec_vertical_grid(*c, j + 1)).flatten(),
        decreases 5 - i,
    {
        proof {
            lemma_tick_bounds(*c, i as int);
        }
        let x = c.left_margin + i * c.h_tick_width;
        let ghost before = r@;
        r.push(
            Line {
                x1: x,
                y1: c.top_margin,
                x2: x,
                y2: bottom - 2,
                color: Rgb { r: 128, g: 128, b: 128 },
                width: 1,
            },
        );
        r.push(Line { x1: x, y1: bottom, x2: x, y2: bottom + 10, color: Rgb { r: 0, g: 0, b: 0 }, width: 3 });
        proof {
            let s = Seq::new((i - 1) as nat, |j: int| spec_vertical_grid(*c, j + 1));
            let t = Seq::new(i as nat, |j: int| spec_vertical_grid(*c, j + 1));
            assert(t =~= s.push(spec_vertical_grid(*c, i as int)));
            s.lemma_flatten_push(spec_vertical_grid(*c, i as int));
            assert(r@ =~= before + spec_vertical_grid(*c, i as int));
        }
        i = i + 1;
    }
    let ghost verticals = r@;
    let q = c.v_tick_height / 4;
    let x1 = c.left_margin + 2;
    let x2 = c.axis_width + c.left_margin;
    let mut k: i32 = 0;
    while k < 10
        invariant
            c.wf(),
            q == c.v_tick_height / 4,
            x1 == c.left_margin + 2,
            x2 == c.axis_width + c.left_margin,
            0 <= k <= 10,
            verticals == Seq::new(4, |j: int| spec_vertical_grid(*c, j + 1)).flatten(),
            r@ == verticals + Seq::new(k as nat, |j: int| spec_horizontal_grid(*c, j)).flatten(),
        decreases 10 - k,
    {
        proof {
            lemma_tick_bounds(*c, k as int);
        }
        let y = c.top_margin + k * c.v_tick_height;
        let ghost before = r@;
        let gray = Rgb { r: 128, g: 128, b: 128 };
        r.push(Line { x1, y1: y, x2, y2: y, color: gray, width: 1 });
        r.push(Line { x1: c.left_margin - 10, y1: y, x2: c.left_margin, y2: y, color: Rgb { r: 0, g: 0, b: 0 }, width: 3 });
        r.push(Line { x1, y1: y + q, x2, y2: y + q, color: gray, width: 1 });
        r.push(Line { x1, y1: y + q * 2, x2, y2: y + q * 2, color: gray, width: 1 });
        r.push(Line { x1, y1: y + q * 3, x2, y2: y + q * 3, color: gray, width: 1 });
        proof {
            let s = Seq::new(k as nat, |j: int| spec_horizontal_grid(*c, j));
            let t = Seq::new((k + 1) as nat, |j: int| spec_horizontal_grid(*c, j));
            assert(t =~= s.push(spec_horizontal_grid(*c, k as int)));
            s.lemma_flatten_push(spec_horizontal_grid(*c, k as int));
            assert(r@ =~= before + spec_horizontal_grid(*c, k as int));
        }
        k = k + 1;
    }
    r
}

/// The frame every bar chart is drawn on: the two axes, then the grid.
pub fn base_chart(c: &ChartConfig) -> (r: Vec<Line>)
    requires
        c.wf(),
    ensures
        r@ == spec_axes(*c) + spec_grid(*c),
{
    let mut r = axes_lines(c);
    let mut g = grid_lines(c);
    r.append(&mut g);
    r
}

/// A rectangle of the drawing, filled or outlined.
#[derive(Clone, Copy, Debug, PartialEq, Eq, Structural)]
pub struct Rect {
    pub x1: i32,
    pub y1: i32,
    pub x2: i32,
    pub y2: i32,
    pub color: Rgb,
    pub filled: bool,
    pub stroke_width: u32,
}

/// One row of the legend: the low and high swatches of a band and its caption.
#[derive(Debug)]
pub struct LegendEntry {
    pub low_swatch: Rect,
    pub high_swatch: Rect,
    pub label: String,
    pub label_x: i32,
    pub label_y: i32,
}

/// The legend of the bar charts: its white background, its border, and one
/// row for each temperature band, hottest first.
#[derive(Debug)]
pub struct Legend {
    pub background: Rect,
    pub border: Rect,
    pub entries: Vec<LegendEntry>,
}

/// The temperature whose band a legend row shows (rows 0 to 4).
pub open spec fn legend_temp(i: int) -> int {
    110 - 20 * i
}

pub open spec fn legend_label(i: int) -> Seq<char> {
    if i == 0 {
        "100+°F low hi"@
    } else if i == 1 {
        "81-100°F low hi"@
    } else if i == 2 {
        "61-80°F low hi"@
    } else if i == 3 {
        "33-60°F low hi"@
    } else {
        "<= 32°F low hi"@
    }
}

/// The legend's left edge and top, inside the plot's upper right corner.
pub open spec fn legend_x() -> int {
    1090
}

pub open spec fn legend_y() -> int {
    72
}

pub open spec fn spec_legend_entry(i: int) -> (Rect, Rect, Seq<char>, int, int) {
    let y = legend_y() + 30 * i;
    let t = legend_temp(i);
    (
        Rect {
            x1: legend_x() as i32,
            y1: y as i32,
            x2: (legend_x() + 20) as i32,
            y2: (y + 20) as i32,
            color: cool_color(temp_band(t)),
            filled: true,
            stroke_width: 1,
        },
        Rect {
            x1: (legend_x() + 25) as i32,
            y1: y as i32,
            x2: (legend_x() + 45) as i32,
            y2: (y + 20) as i32,
            color: warm_color(temp_band(t)),
            filled: true,
            stroke_width: 1,
        },
        legend_label(i),
        legend_x() + 55,
        y + 7,
    )
}

pub open spec fn entry_view(e: LegendEntry) -> (Rect, Rect, Seq<char>, int, int) {
    (e.low_swatch, e.high_swatch, e.label@, e.label_x as int, e.label_y as int)
}

fn legend_text(i: usize) -> (r: &'static str)
    requires
        i < 5,
    ensures
        r@ == legend_label(i as int),
{
    if i == 0 {
        "100+°F low hi"
    } else if i == 1 {
        "81-100°F low hi"
    } else if i == 2 {
        "61-80°F low hi"
    } else if i == 3 {
        "33-60°F low hi"
    } else {
        "<= 32°F low hi"
    }
}

/// The legend of the bar charts.
pub fn legend_layout() -> (r: Legend)
    ensures
        r.background == (Rect {
            x1: 1080,
            y1: 62,
            x2: 1238,
            y2: 222,
            color: white(),
            filled: true,
            stroke_width: 1,
        }),
        r.border == (Rect {
            x1: 1080,
            y1: 62,
            x2: 1238,
            y2: 222,
            color: black(),
            filled: false,
            stroke_width: 2,
        }),
        r.entries@.len() == 5,
        forall|i: int| 0 <= i < 5 ==> entry_view(#[trigger] r.entries@[i]) == spec_legend_entry(i),
{
    let lx: i32 = 1090;
    let ly: i32 = 72;
    let mut entries: Vec<LegendEntry> = Vec::new();
    let mut i: usize = 0;
    while i < 5
        invariant
            lx == legend_x(),
            ly == legend_y(),
            i <= 5,
            entries@.len() == i,
            forall|k: int| 0 <= k < i ==> entry_view(#[trigger] entries@[k]) == spec_legend_entry(k),
        decreases 5 - i,
    {
        let y = ly + 30 * i as i32;
        let t: i32 = 110 - 20 * i as i32;
        let e = LegendEntry {
            low_swatch: Rect {
                x1: lx,
                y1: y,
                x2: lx + 20,
                y2: y + 20,
                color: get_cool_colors(t),
                filled: true,
                stroke_width: 1,
            },
            high_swatch: Rect {
                x1: lx + 25,
                y1: y,
                x2: lx + 45,
                y2: y + 20,
                color: get_warm_colors(t),
                filled: true,
                stroke_width: 1,
            },
            label: crate::text::owned(legend_text(i)),
            label_x: lx + 55,
            label_y: y + 7,
        };
        entries.push(e);
        i = i + 1;
    }
    let background = Rect {
        x1: lx - 10,
        y1: ly - 10,
        x2: lx + 148,
        y2: ly + 150,
        color: Rgb { r: 255, g: 255, b: 255 },
        filled: true,
        stroke_width: 1,
    };
    let border = Rect {
        x1: lx - 10,
        y1: ly - 10,
        x2: lx + 148,
        y2: ly + 150,
        color: Rgb { r: 0, g: 0, b: 0 },
        filled: false,
        stroke_width: 2,
    };
    Legend { background, border, entries }
}

} // verus!
