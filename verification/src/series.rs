//! The three plot-space series drawn from the windowed entries.
//!
//! Each series keeps the entries whose time lies strictly after the window
//! start (an entry exactly on the boundary is excluded) and maps them to
//! integer plot points in input order:
//!
//! - the percentage series rounds every kept charge entry;
//! - the charging-rate series keeps every kept rate entry, rounding it when
//!   it was charging and pinning it to zero otherwise, so the drawn line
//!   returns to the baseline instead of leaving a gap;
//! - the discharging-rate series drops charging entries entirely.
//!
//! The asymmetry between the two rate series (zero-fill against omission)
//! is deliberate and kept as observed; evening it out would change what the
//! chart shows.

use vstd::prelude::*;

use crate::errors::NoDataError;
use crate::history::{entries_wf, HistoryEntry};
use crate::value::Milli;
use crate::window::TimeWindow;

verus! {

/// One plotted sample: the entry's time against its mapped whole-unit value.
#[derive(Clone, Copy, PartialEq, Eq, Structural, Debug)]
pub struct PlotPoint {
    pub x: u64,
    pub y: i64,
}

/// Whether an entry lies inside the window: strictly after its start.
pub open spec fn in_window(e: HistoryEntry, w: TimeWindow) -> bool {
    e.time as int > w.start as int
}

/// The point a charge entry maps to: its time against its rounded value.
pub open spec fn spec_pct_point(e: HistoryEntry) -> PlotPoint {
    PlotPoint { x: e.time, y: e.value.spec_round() as i64 }
}

/// The point a rate entry maps to in the charging-rate series: its rounded
/// value while charging, and exactly zero otherwise.
pub open spec fn spec_charging_point(e: HistoryEntry) -> PlotPoint {
    PlotPoint { x: e.time, y: if e.charging { e.value.spec_round() as i64 } else { 0 } }
}

/// The percentage series: every in-window charge entry, rounded.
pub open spec fn spec_pct_series(s: Seq<HistoryEntry>, w: TimeWindow) -> Seq<PlotPoint>
    decreases s.len(),
{
    if s.len() == 0 {
        Seq::empty()
    } else {
        let rest = spec_pct_series(s.drop_last(), w);
        if in_window(s.last(), w) {
            rest.push(spec_pct_point(s.last()))
        } else {
            rest
        }
    }
}

/// The charging-rate series: every in-window rate entry, zero-filled while
/// not charging.
pub open spec fn spec_charging_series(s: Seq<HistoryEntry>, w: TimeWindow) -> Seq<PlotPoint>
    decreases s.len(),
{
    if s.len() == 0 {
        Seq::empty()
    } else {
        let rest = spec_charging_series(s.drop_last(), w);
        if in_window(s.last(), w) {
            rest.push(spec_charging_point(s.last()))
        } else {
            rest
        }
    }
}

/// The discharging-rate series: only the in-window rate entries that were
/// not charging; charging entries are omitted, not zero-filled.
pub open spec fn spec_discharging_series(s: Seq<HistoryEntry>, w: TimeWindow) -> Seq<PlotPoint>
    decreases s.len(),
{
    if s.len() == 0 {
        Seq::empty()
    } else {
        let rest = spec_discharging_series(s.drop_last(), w);
        if in_window(s.last(), w) && !s.last().charging {
            rest.push(spec_pct_point(s.last()))
        } else {
            rest
        }
    }
}

/// The raw value of the last in-window entry, used for the text overlay.
pub open spec fn spec_last_window_value(s: Seq<HistoryEntry>, w: TimeWindow) -> Option<Milli>
    decreases s.len(),
{
    if s.len() == 0 {
        None
    } else if in_window(s.last(), w) {
        Some(s.last().value)
    } else {
        spec_last_window_value(s.drop_last(), w)
    }
}

/// Maps the charge series to plot points: one per in-window entry, with the
/// value rounded to whole percentage points.
pub fn percentage_series(charge: &Vec<HistoryEntry>, w: &TimeWindow) -> (r: Vec<PlotPoint>)
    requires
        entries_wf(charge@),
    ensures
        r@ == spec_pct_series(charge@, *w),
{
    let mut out: Vec<PlotPoint> = Vec::new();
    let mut i: usize = 0;
    while i < charge.len()
        invariant
            i <= charge@.len(),
            entries_wf(charge@),
            out@ == spec_pct_series(charge@.take(i as int), *w),
        decreases charge@.len() - i,
    {
        let e = charge[i];
        proof {
            assert(charge@[i as int].wf());
        }
        if (e.time as i128) > w.start {
            out.push(PlotPoint { x: e.time, y: e.value.round() });
        }
        proof {
            assert(charge@.take(i + 1).drop_last() =~= charge@.take(i as int));
            assert(charge@.take(i + 1).last() == charge@[i as int]);
        }
        i = i + 1;
    }
    proof {
        assert(charge@.take(charge@.len() as int) =~= charge@);
    }
    out
}

/// Maps the rate series to the charging-rate plot points: one per in-window
/// entry, zero while not charging.
pub fn charging_rate_series(rate: &Vec<HistoryEntry>, w: &TimeWindow) -> (r: Vec<PlotPoint>)
    requires
        entries_wf(rate@),
    ensures
        r@ == spec_charging_series(rate@, *w),
{
    let mut out: Vec<PlotPoint> = Vec::new();
    let mut i: usize = 0;
    while i < rate.len()
        invariant
            i <= rate@.len(),
            entries_wf(rate@),
            out@ == spec_charging_series(rate@.take(i as int), *w),
        decreases rate@.len() - i,
    {
        let e = rate[i];
        proof {
            assert(rate@[i as int].wf());
        }
        if (e.time as i128) > w.start {
            let y: i64 = if e.charging {
                e.value.round()
            } else {
                0
            };
            out.push(PlotPoint { x: e.time, y });
        }
        proof {
            assert(rate@.take(i + 1).drop_last() =~= rate@.take(i as int));
            assert(rate@.take(i + 1).last() == rate@[i as int]);
        }
        i = i + 1;
    }
    proof {
        assert(rate@.take(rate@.len() as int) =~= rate@);
    }
    out
}

/// Maps the rate series to the discharging-rate plot points: only in-window
/// entries that were not charging, rounded.
pub fn discharging_rate_series(rate: &Vec<HistoryEntry>, w: &TimeWindow) -> (r: Vec<PlotPoint>)
    requires
        entries_wf(rate@),
    ensures
        r@ == spec_discharging_series(rate@, *w),
{
    let mut out: Vec<PlotPoint> = Vec::new();
    let mut i: usize = 0;
    while i < rate.len()
        invariant
            i <= rate@.len(),
            entries_wf(rate@),
            out@ == spec_discharging_series(rate@.take(i as int), *w),
        decreases rate@.len() - i,
    {
        let e = rate[i];
        proof {
            assert(rate@[i as int].wf());
        }
        if (e.time as i128) > w.start && !e.charging {
            out.push(PlotPoint { x: e.time, y: e.value.round() });
        }
        proof {
            assert(rate@.take(i + 1).drop_last() =~= rate@.take(i as int));
            assert(rate@.take(i + 1).last() == rate@[i as int]);
        }
        i = i + 1;
    }
    proof {
        assert(rate@.take(rate@.len() as int) =~= rate@);
    }
    out
}

/// The raw value of the last in-window entry, or the error to surface when
/// no entry of the series lies inside the window.
pub fn last_window_value(entries: &Vec<HistoryEntry>, w: &TimeWindow) -> (r: Result<
    Milli,
    NoDataError,
>)
    ensures
        match r {
            Ok(v) => spec_last_window_value(entries@, *w) == Some(v),
            Err(_) => spec_last_window_value(entries@, *w) is None,
        },
{
    let mut i: usize = entries.len();
    proof {
        assert(entries@.take(entries@.len() as int) =~= entries@);
    }
    while i > 0
        invariant
            i <= entries@.len(),
            spec_last_window_value(entries@, *w) == spec_last_window_value(
                entries@.take(i as int),
                *w,
            ),
        decreases i,
    {
        let e = entries[i - 1];
        proof {
            assert(entries@.take(i as int).drop_last() =~= entries@.take(i - 1));
            assert(entries@.take(i as int).last() == entries@[i - 1]);
        }
        if (e.time as i128) > w.start {
            return Ok(e.value);
        }
        i = i - 1;
    }
    Err(NoDataError)
}

/// Window boundaries are exclusive on the left: an entry exactly at the
/// window start adds nothing to the percentage series, while one a second
/// later contributes its point.
pub proof fn lemma_window_start_boundary(s: Seq<HistoryEntry>, e: HistoryEntry, w: TimeWindow)
    ensures
        e.time as int == w.start as int ==> spec_pct_series(s.push(e), w) == spec_pct_series(s, w),
        e.time as int == w.start as int + 1 ==> spec_pct_series(s.push(e), w) == spec_pct_series(
            s,
            w,
        ).push(spec_pct_point(e)),
{
    assert(s.push(e).drop_last() =~= s);
    assert(s.push(e).last() == e);
}

/// Zero-fill: an in-window rate entry that is not charging always appears in
/// the charging-rate series, as a point whose value is exactly zero.
pub proof fn lemma_charging_series_zero_fill(s: Seq<HistoryEntry>, e: HistoryEntry, w: TimeWindow)
    requires
        in_window(e, w),
        !e.charging,
    ensures
        spec_charging_series(s.push(e), w) == spec_charging_series(s, w).push(
            PlotPoint { x: e.time, y: 0 },
        ),
{
    assert(s.push(e).drop_last() =~= s);
    assert(s.push(e).last() == e);
}

/// Omission: a charging rate entry never appears in the discharging-rate
/// series; the series stays as it was, rather than gaining a zero point.
pub proof fn lemma_discharging_series_omits_charging(
    s: Seq<HistoryEntry>,
    e: HistoryEntry,
    w: TimeWindow,
)
    requires
        e.charging,
    ensures
        spec_discharging_series(s.push(e), w) == spec_discharging_series(s, w),
{
    assert(s.push(e).drop_last() =~= s);
    assert(s.push(e).last() == e);
}

} // verus!
