//! Selection of the visible time range from the two entry series.

use vstd::prelude::*;

use crate::errors::NoDataError;
use crate::history::HistoryEntry;

verus! {

/// The visible time range, in seconds, as an inclusive-exclusive interval:
/// a sample is shown when its time lies strictly after `start`.
///
/// `start` can lie before the epoch when the logs are younger than the
/// requested span, so both bounds are wider than a timestamp.
#[derive(Clone, Copy, PartialEq, Eq, Structural, Debug)]
pub struct TimeWindow {
    pub start: i128,
    pub end: i128,
}

impl TimeWindow {
    /// Well-formedness: the range is never empty.
    pub open spec fn wf(self) -> bool {
        self.start < self.end
    }
}

/// The last timestamp over the two series: the later of the two last
/// entries' times, or the last time of the one non-empty series.
/// Meaningful only when at least one series is non-empty.
pub open spec fn spec_window_end(charge: Seq<HistoryEntry>, rate: Seq<HistoryEntry>) -> int {
    if charge.len() > 0 && rate.len() > 0 {
        if charge.last().time >= rate.last().time {
            charge.last().time as int
        } else {
            rate.last().time as int
        }
    } else if charge.len() > 0 {
        charge.last().time as int
    } else {
        rate.last().time as int
    }
}

/// The window that `compute_window` selects for the given series and span.
/// Meaningful only when at least one series is non-empty.
pub open spec fn spec_window(
    charge: Seq<HistoryEntry>,
    rate: Seq<HistoryEntry>,
    hours: u32,
) -> TimeWindow {
    TimeWindow {
        start: (spec_window_end(charge, rate) - hours * 3600) as i128,
        end: spec_window_end(charge, rate) as i128,
    }
}

/// Computes the visible time range: it ends at the last timestamp found in
/// either series and spans the requested number of hours back from there.
/// When both series are empty no window exists and the pipeline must not
/// proceed.
pub fn compute_window(
    charge: &Vec<HistoryEntry>,
    rate: &Vec<HistoryEntry>,
    hours: u32,
) -> (r: Result<TimeWindow, NoDataError>)
    requires
        hours >= 1,
    ensures
        match r {
            Ok(w) => {
                &&& charge@.len() > 0 || rate@.len() > 0
                &&& w == spec_window(charge@, rate@, hours)
                &&& w.end == spec_window_end(charge@, rate@)
                &&& w.start == w.end - hours * 3600
                &&& w.wf()
            },
            Err(_) => charge@.len() == 0 && rate@.len() == 0,
        },
{
    let last_time: u64 = if charge.len() > 0 && rate.len() > 0 {
        let c = charge[charge.len() - 1].time;
        let r = rate[rate.len() - 1].time;
        if c >= r {
            c
        } else {
            r
        }
    } else if charge.len() > 0 {
        charge[charge.len() - 1].time
    } else if rate.len() > 0 {
        rate[rate.len() - 1].time
    } else {
        return Err(NoDataError);
    };
    let end: i128 = last_time as i128;
    let start: i128 = end - (hours as i128) * 3600;
    Ok(TimeWindow { start, end })
}

} // verus!
