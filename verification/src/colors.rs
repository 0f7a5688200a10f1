//! Colours of the temperature bands of the bar charts.

use vstd::prelude::*;

verus! {

/// An opaque colour, one byte per channel.
#[derive(Clone, Copy, Debug, PartialEq, Eq, Structural)]
pub struct Rgb {
    pub r: u8,
    pub g: u8,
    pub b: u8,
}

pub open spec fn rgb(r: u8, g: u8, b: u8) -> Rgb {
    Rgb { r, g, b }
}

/// The five temperature bands of the bar charts, in degrees Fahrenheit.
#[derive(Clone, Copy, Debug, PartialEq, Eq, Structural)]
pub enum TempBand {
    /// 32 and below.
    Freezing,
    /// 33 to 60.
    Cool,
    /// 61 to 80.
    Mild,
    /// 81 to 100.
    Warm,
    /// Above 100.
    Hot,
}

/// The band of a temperature.
pub open spec fn temp_band(t: int) -> TempBand {
    if t <= 32 {
        TempBand::Freezing
    } else if t <= 60 {
        TempBand::Cool
    } else if t <= 80 {
        TempBand::Mild
    } else if t <= 100 {
        TempBand::Warm
    } else {
        TempBand::Hot
    }
}

/// Position of a band from the coldest (0) to the hottest (4).
pub open spec fn band_rank(b: TempBand) -> int {
    match b {
        TempBand::Freezing => 0,
        TempBand::Cool => 1,
        TempBand::Mild => 2,
        TempBand::Warm => 3,
        TempBand::Hot => 4,
    }
}

/// The bright colour that high temperatures of a band are drawn in.
pub open spec fn warm_color(b: TempBand) -> Rgb {
    match b {
        TempBand::Freezing => rgb(30, 144, 255),
        TempBand::Cool => rgb(210, 180, 140),
        TempBand::Mild => rgb(0, 250, 154),
        TempBand::Warm => rgb(255, 165, 0),
        TempBand::Hot => rgb(255, 0, 0),
    }
}

/// The dark colour that low temperatures of a band are drawn in.
pub open spec fn cool_color(b: TempBand) -> Rgb {
    match b {
        TempBand::Freezing => rgb(0, 0, 139),
        TempBand::Cool => rgb(139, 69, 19),
        TempBand::Mild => rgb(34, 139, 34),
        TempBand::Warm => rgb(204, 85, 0),
        TempBand::Hot => rgb(139, 0, 0),
    }
}

/// The colour of a high-temperature bar.
pub fn get_warm_colors(temp: i32) -> (r: Rgb)
    ensures
        r == warm_color(temp_band(temp as int)),
{
    if temp <= 32 {
        Rgb { r: 30, g: 144, b: 255 }
    } else if temp > 32 && temp <= 60 {
        Rgb { r: 210, g: 180, b: 140 }
    } else if temp > 60 && temp <= 80 {
        Rgb { r: 0, g: 250, b: 154 }
    } else if temp > 80 && temp <= 100 {
        Rgb { r: 255, g: 165, b: 0 }
    } else {
        Rgb { r: 255, g: 0, b: 0 }
    }
}

/// The colour of a low-temperature bar.
pub fn get_cool_colors(temp: i32) -> (r: Rgb)
    ensures
        r == cool_color(temp_band(temp as int)),
{
    if temp <= 32 {
        Rgb { r: 0, g: 0, b: 139 }
    } else if temp > 32 && temp <= 60 {
        Rgb { r: 139, g: 69, b: 19 }
    } else if temp > 60 && temp <= 80 {
        Rgb { r: 34, g: 139, b: 34 }
    } else if temp > 80 && temp <= 100 {
        Rgb { r: 204, g: 85, b: 0 }
    } else {
        Rgb { r: 139, g: 0, b: 0 }
    }
}

/// Two high temperatures share a bar colour exactly when they share a band,
/// and so do two low temperatures.
pub proof fn law_color_identifies_band(t1: int, t2: int)
    ensures
        (warm_color(temp_band(t1)) == warm_color(temp_band(t2))) <==> (temp_band(t1) == temp_band(
            t2,
        )),
        (cool_color(temp_band(t1)) == cool_color(temp_band(t2))) <==> (temp_band(t1) == temp_band(
            t2,
        )),
{
}

/// A high bar never takes the colour of a low bar.
pub proof fn law_high_and_low_colors_differ(b1: TempBand, b2: TempBand)
    ensures
        warm_color(b1) != cool_color(b2),
{
}

/// A higher temperature never falls in a colder band.
pub proof fn law_bands_follow_temperature(t1: int, t2: int)
    requires
        t1 <= t2,
    ensures
        band_rank(temp_band(t1)) <= band_rank(temp_band(t2)),
{
}

} // verus!
