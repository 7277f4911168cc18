//! Frame composition: everything one raster frame shows, as plain data.
//!
//! The compositor decides what gets drawn; putting pixels on a surface is
//! the display backend's job. `compose_frame` runs the whole pipeline over
//! the two parsed series and returns a [`FramePlan`] that pins down every
//! drawing operation of the frame. The backend draws the plan in this
//! order:
//!
//! 1. fill with `background`;
//! 2. the time axis, ticks and an hour label over the synthetic
//!    `scales.axis_min..=0` range, mesh disabled, in `axis_color`;
//! 3. `pct_points` as a filled area from zero to the value, border opaque in
//!    `pct_color` and fill translucent in the same color;
//! 4. `charging_points` then `discharging_points` as plain line strokes in
//!    their colors, sharing the rate axis;
//! 5. the three `annotations` left to right along the bottom margin, each
//!    placed after the measured width of the one before
//!    ([`annotation_origins`], [`annotation_y`]).

use vstd::prelude::*;

use crate::config::Rgb;
use crate::errors::NoDataError;
use crate::history::{entries_wf, HistoryEntry};
use crate::scale::{compute_scales, spec_rate_axis_max, ChartScales};
use crate::series::{
    charging_rate_series, discharging_rate_series, last_window_value, percentage_series,
    spec_charging_series, spec_discharging_series, spec_last_window_value, spec_pct_series,
    PlotPoint,
};
use crate::text::{bat_text, pwr_text, spec_bat_chars, spec_pwr_chars};
use crate::value::Milli;
use crate::window::{compute_window, spec_window, TimeWindow};

verus! {

/// The colors of one frame, resolved from the configured hex strings.
#[derive(Clone, Copy, PartialEq, Eq, Structural, Debug)]
pub struct ChartStyle {
    pub axis: Rgb,
    pub background: Rgb,
    pub percent: Rgb,
    pub charging: Rgb,
    pub discharging: Rgb,
}

/// One text overlay: what it says and the color it is drawn in.
pub struct Annotation {
    pub text: String,
    pub color: Rgb,
}

/// Everything one frame shows. See the module documentation for the order
/// in which a backend draws the fields.
pub struct FramePlan {
    /// Fill color of the whole frame.
    pub background: Rgb,
    /// Color of the time axis and its labels.
    pub axis_color: Rgb,
    /// Coordinate parameters shared by the charts.
    pub scales: ChartScales,
    /// Color of the percentage area and its border.
    pub pct_color: Rgb,
    /// The percentage series.
    pub pct_points: Vec<PlotPoint>,
    /// Color of the charging-rate stroke.
    pub charging_color: Rgb,
    /// The charging-rate series.
    pub charging_points: Vec<PlotPoint>,
    /// Color of the discharging-rate stroke.
    pub discharging_color: Rgb,
    /// The discharging-rate series.
    pub discharging_points: Vec<PlotPoint>,
    /// The device label, battery and power overlays, in drawing order.
    pub annotations: Vec<Annotation>,
}

/// The value of the last in-window entry of a sequence of well-formed
/// entries is itself well-formed.
proof fn lemma_last_window_value_wf(s: Seq<HistoryEntry>, w: TimeWindow)
    requires
        entries_wf(s),
        spec_last_window_value(s, w) is Some,
    ensures
        spec_last_window_value(s, w)->Some_0.wf(),
    decreases s.len(),
{
    if s.len() > 0 {
        assert(s.last().wf()) by {
            assert(s[s.len() - 1].wf());
        }
        if !crate::series::in_window(s.last(), w) {
            assert(entries_wf(s.drop_last())) by {
                assert(forall|i: int|
                    0 <= i < s.drop_last().len() ==> s.drop_last()[i] == #[trigger] s[i]);
            }
            lemma_last_window_value_wf(s.drop_last(), w);
        }
    }
}

/// Runs the pipeline over the two parsed series and composes the frame:
/// window selection, the three series, the axis ranges, and the three text
/// overlays. Fails, producing no partial frame, when the rate series is
/// empty (no rate axis and no power value exist) or when no charge entry
/// lies inside the window (no battery value exists).
pub fn compose_frame(
    charge: &Vec<HistoryEntry>,
    rate: &Vec<HistoryEntry>,
    label: &str,
    hours: u32,
    style: &ChartStyle,
) -> (r: Result<FramePlan, NoDataError>)
    requires
        entries_wf(charge@),
        entries_wf(rate@),
        hours >= 1,
    ensures
        ({
            let w = spec_window(charge@, rate@, hours);
            match r {
                Ok(p) => {
                    &&& rate@.len() > 0
                    &&& p.background == style.background
                    &&& p.axis_color == style.axis
                    &&& p.scales.window == w
                    &&& p.scales.pct_max == 100
                    &&& p.scales.rate_max == spec_rate_axis_max(rate@)
                    &&& p.scales.axis_min == -(hours as int)
                    &&& p.pct_color == style.percent
                    &&& p.pct_points@ == spec_pct_series(charge@, w)
                    &&& p.charging_color == style.charging
                    &&& p.charging_points@ == spec_charging_series(rate@, w)
                    &&& p.discharging_color == style.discharging
                    &&& p.discharging_points@ == spec_discharging_series(rate@, w)
                    &&& p.annotations@.len() == 3
                    &&& p.annotations@[0].text@ == label@
                    &&& p.annotations@[0].color == style.axis
                    &&& spec_last_window_value(charge@, w) matches Some(v)
                        && p.annotations@[1].text@ == spec_bat_chars(v.milli as int)
                    &&& p.annotations@[1].color == style.percent
                    &&& p.annotations@[2].text@ == spec_pwr_chars(rate@.last().value.milli as int)
                    &&& p.annotations@[2].color == style.discharging
                },
                Err(_) => rate@.len() == 0 || spec_last_window_value(charge@, w) is None,
            }
        }),
{
    let w = match compute_window(charge, rate, hours) {
        Ok(w) => w,
        Err(e) => {
            return Err(e);
        },
    };
    let scales = match compute_scales(&w, rate, hours) {
        Ok(s) => s,
        Err(e) => {
            return Err(e);
        },
    };
    let bat = match last_window_value(charge, &w) {
        Ok(v) => v,
        Err(e) => {
            return Err(e);
        },
    };
    proof {
        lemma_last_window_value_wf(charge@, w);
        assert(rate@[rate@.len() - 1].wf());
    }
    let pwr = rate[rate.len() - 1].value;
    let pct_points = percentage_series(charge, &w);
    let charging_points = charging_rate_series(rate, &w);
    let discharging_points = discharging_rate_series(rate, &w);
    let mut annotations: Vec<Annotation> = Vec::new();
    annotations.push(Annotation { text: label.to_owned(), color: style.axis });
    annotations.push(Annotation { text: bat_text(&bat), color: style.percent });
    annotations.push(Annotation { text: pwr_text(&pwr), color: style.discharging });
    Ok(
        FramePlan {
            background: style.background,
            axis_color: style.axis,
            scales,
            pct_color: style.percent,
            pct_points,
            charging_color: style.charging,
            charging_points,
            discharging_color: style.discharging,
            discharging_points,
            annotations,
        },
    )
}

/// The left edge of each annotation, laid out left to right: the first
/// starts at `start_x`, and each further one starts after the measured
/// width of the one before plus a fixed gap.
pub fn annotation_origins(widths: &Vec<u32>, start_x: i64, gap: i64) -> (r: Vec<i64>)
    requires
        widths@.len() <= 65536,
        0 <= start_x <= 0x8000_0000,
        0 <= gap <= 0x8000_0000,
    ensures
        r@.len() == widths@.len(),
        widths@.len() > 0 ==> r@[0] == start_x,
        forall|i: int|
            0 < i < widths@.len() ==> #[trigger] r@[i] == r@[i - 1] + widths@[i - 1] + gap,
{
    let mut out: Vec<i64> = Vec::new();
    let mut x: i64 = start_x;
    let mut i: usize = 0;
    while i < widths.len()
        invariant
            i <= widths@.len(),
            widths@.len() <= 65536,
            0 <= start_x <= 0x8000_0000,
            0 <= gap <= 0x8000_0000,
            out@.len() == i,
            i > 0 ==> out@[0] == start_x,
            forall|j: int| 0 < j < i ==> #[trigger] out@[j] == out@[j - 1] + widths@[j - 1] + gap,
            x <= 0x8000_0000 + (i as int) * 0x1_8000_0000,
            0 <= x,
            i == 0 ==> x == start_x,
            i > 0 ==> x == out@[i - 1] + widths@[i - 1] + gap,
        decreases widths@.len() - i,
    {
        out.push(x);
        proof {
            assert((i + 1) * 0x1_8000_0000 == i * 0x1_8000_0000 + 0x1_8000_0000) by (nonlinear_arith);
        }
        x = x + (widths[i] as i64) + gap;
        i = i + 1;
    }
    out
}

/// The baseline of the annotation row: the frame height less the measured
/// text height and half the extra bottom margin.
pub fn annotation_y(height: i64, text_height: u32, bottom_margin_extra: i64) -> (r: i64)
    requires
        -0x8000_0000 <= height <= 0x8000_0000,
        0 <= bottom_margin_extra <= 0x8000_0000,
    ensures
        r == height - text_height - bottom_margin_extra / 2,
{
    let half: i64 = ((bottom_margin_extra as u64) / 2) as i64;
    height - (text_height as i64) - half
}

} // verus!
