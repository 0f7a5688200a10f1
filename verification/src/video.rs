//! The ffmpeg commands that join a city's yearly chart images into videos.

use vstd::prelude::*;
use crate::text::{int_string, int_text, owned, push_int};

verus! {

/// The program that makes the videos.
pub open spec fn spec_ffmpeg_path() -> Seq<char> {
    "C:\\ProgramData\\chocolatey\\bin\\ffmpeg.exe"@
}

pub fn ffmpeg_path() -> (r: String)
    ensures
        r@ == spec_ffmpeg_path(),
{
    owned("C:\\ProgramData\\chocolatey\\bin\\ffmpeg.exe")
}

/// The frame rates each video is made at, slowest first.
pub open spec fn spec_frame_rates() -> Seq<i32> {
    seq![1i32, 2i32, 4i32, 8i32, 16i32]
}

pub fn frame_rates() -> (r: Vec<i32>)
    ensures
        r@ == spec_frame_rates(),
{
    let r = vec![1, 2, 4, 8, 16];
    assert(r@ =~= spec_frame_rates());
    r
}

/// Each frame rate doubles the one before.
pub proof fn law_frame_rates_double()
    ensures
        spec_frame_rates()[0] == 1,
        forall|i: int|
            1 <= i < spec_frame_rates().len() ==> #[trigger] spec_frame_rates()[i] == 2
                * spec_frame_rates()[i - 1],
{
}

/// The chart periods a video is made of, in the order they are made.
pub open spec fn spec_video_periods() -> Seq<Seq<char>> {
    seq!["month"@, "week"@, "fort"@]
}

pub fn video_periods() -> (r: Vec<String>)
    ensures
        r@.map_values(|s: String| s@) == spec_video_periods(),
{
    let mut r: Vec<String> = Vec::new();
    r.push(owned("month"));
    r.push(owned("week"));
    r.push(owned("fort"));
    assert(r@.map_values(|s: String| s@) =~= spec_video_periods());
    r
}

/// The two kinds of yearly chart that videos are made of.
#[derive(Clone, Copy, Debug, PartialEq, Eq, Structural)]
pub enum ChartFamily {
    Bar,
    Line,
}

/// The families videos are made for, in the order they are made.
pub fn video_families() -> (r: Vec<ChartFamily>)
    ensures
        r@ == seq![ChartFamily::Bar, ChartFamily::Line],
{
    let r = vec![ChartFamily::Bar, ChartFamily::Line];
    assert(r@ =~= seq![ChartFamily::Bar, ChartFamily::Line]);
    r
}

/// The folder of a family's chart images.
pub open spec fn frames_folder(f: ChartFamily) -> Seq<char> {
    match f {
        ChartFamily::Bar => "bar_pngs\\"@,
        ChartFamily::Line => "line_pngs\\"@,
    }
}

/// What a family adds to its video names: nothing for bar charts, `line_`
/// for line charts.
pub open spec fn video_tag(f: ChartFamily) -> Seq<char> {
    match f {
        ChartFamily::Bar => ""@,
        ChartFamily::Line => "line_"@,
    }
}

/// The images a video is made of, numbered by year.
pub open spec fn spec_video_input(city: Seq<char>, f: ChartFamily, period: Seq<char>) -> Seq<char> {
    frames_folder(f) + city + "_%4d_"@ + period + ".png"@
}

/// The video file.
pub open spec fn spec_video_output(city: Seq<char>, f: ChartFamily, period: Seq<char>, fps: int) -> Seq<char> {
    "videos\\"@ + city + "_"@ + video_tag(f) + period + "_"@ + int_text(fps) + ".mp4"@
}

/// The arguments of the ffmpeg command for one video: no banner, overwrite,
/// images numbered from the first year, at `fps` frames a second, encoded
/// with x264.
pub open spec fn spec_ffmpeg_args(
    city: Seq<char>,
    start_year: int,
    fps: int,
    f: ChartFamily,
    period: Seq<char>,
) -> Seq<Seq<char>> {
    seq![
        "-hide_banner"@,
        "-y"@,
        "-start_number"@,
        int_text(start_year),
        "-framerate"@,
        int_text(fps),
        "-i"@,
        spec_video_input(city, f, period),
        "-c:v"@,
        "libx264"@,
        spec_video_output(city, f, period, fps),
    ]
}

pub fn ffmpeg_args(city: &str, start_year: i32, fps: i32, f: ChartFamily, period: &str) -> (r: Vec<
    String,
>)
    ensures
        r@.map_values(|s: String| s@) == spec_ffmpeg_args(
            city@,
            start_year as int,
            fps as int,
            f,
            period@,
        ),
{
    let (folder, tag) = match f {
        ChartFamily::Bar => ("bar_pngs\\", ""),
        ChartFamily::Line => ("line_pngs\\", "line_"),
    };
    let mut input = owned(folder);
    input.append(city);
    input.append("_%4d_");
    input.append(period);
    input.append(".png");
    let mut output = owned("videos\\");
    output.append(city);
    output.append("_");
    output.append(tag);
    output.append(period);
    output.append("_");
    push_int(&mut output, fps as i64);
    output.append(".mp4");
    let mut r: Vec<String> = Vec::new();
    r.push(owned("-hide_banner"));
    r.push(owned("-y"));
    r.push(owned("-start_number"));
    r.push(int_string(start_year as i64));
    r.push(owned("-framerate"));
    r.push(int_string(fps as i64));
    r.push(owned("-i"));
    r.push(input);
    r.push(owned("-c:v"));
    r.push(owned("libx264"));
    r.push(output);
    assert(r@.map_values(|s: String| s@) =~= spec_ffmpeg_args(
        city@,
        start_year as int,
        fps as int,
        f,
        period@,
    ));
    r
}

/// A bar-chart video and a line-chart video of the same period and speed
/// are written to different files.
pub proof fn law_families_have_distinct_videos(city: Seq<char>, period: Seq<char>, fps: int)
    requires
        spec_video_periods().contains(period),
    ensures
        spec_video_output(city, ChartFamily::Bar, period, fps) != spec_video_output(
            city,
            ChartFamily::Line,
            period,
            fps,
        ),
{
    reveal_strlit("");
    reveal_strlit("line_");
    reveal_strlit("month");
    reveal_strlit("week");
    reveal_strlit("fort");
    let pre = "videos\\"@ + city + "_"@;
    let rest = "_"@ + int_text(fps) + ".mp4"@;
    let bar = spec_video_output(city, ChartFamily::Bar, period, fps);
    let line = spec_video_output(city, ChartFamily::Line, period, fps);
    assert(bar =~= pre + (period + rest));
    assert(line =~= pre + ("line_"@ + period + rest));
    assert(period.len() > 0 && period[0] != 'l');
    assert(bar[pre.len() as int] == period[0]);
    assert(line[pre.len() as int] == 'l');
}

} // verus!
