//! Axis ranges and coordinate parameters shared by the charts.
//!
//! The rate axis tops out at the ceiling of the largest value of the entire
//! rate series, not just of the visible window: as the window slides, the
//! axis then stays put instead of jittering. The percentage axis is fixed at
//! zero to one hundred, and a synthetic hour axis from minus the visible
//! span to zero drives tick and label rendering without touching the large
//! absolute timestamp domain.

use vstd::prelude::*;

use crate::errors::NoDataError;
use crate::history::{entries_wf, HistoryEntry};
use crate::value::{spec_ceil_milli, Milli};
use crate::window::TimeWindow;

verus! {

/// The coordinate parameters of one composed frame. No drawing happens
/// here: these only parameterize the compositor.
#[derive(Clone, Copy, PartialEq, Eq, Structural, Debug)]
pub struct ChartScales {
    /// Time range mapped onto the horizontal pixel span, for both data
    /// charts.
    pub window: TimeWindow,
    /// Upper bound of the percentage axis; the axis is `0..=pct_max`.
    pub pct_max: i64,
    /// Upper bound of the rate axis; the axis is `0..=rate_max`.
    pub rate_max: i64,
    /// Lower bound of the synthetic hour axis `axis_min..=0` that only
    /// drives tick and label placement.
    pub axis_min: i64,
}

/// The largest value of the series, in thousandths.
/// Meaningful only when the series is non-empty.
pub open spec fn spec_max_value(s: Seq<HistoryEntry>) -> int
    decreases s.len(),
{
    if s.len() <= 1 {
        s[0].value.milli as int
    } else {
        let rest = spec_max_value(s.drop_last());
        if s.last().value.milli >= rest {
            s.last().value.milli as int
        } else {
            rest
        }
    }
}

/// The rate axis bound: the ceiling of the largest value over the whole
/// series. Meaningful only when the series is non-empty.
pub open spec fn spec_rate_axis_max(s: Seq<HistoryEntry>) -> int {
    spec_ceil_milli(spec_max_value(s))
}

/// The rate axis bound: the ceiling of the largest value over the whole,
/// unfiltered rate series. It deliberately takes no window, so the visible
/// range cannot affect it. An empty series cannot establish an axis.
pub fn rate_axis_max(rate: &Vec<HistoryEntry>) -> (r: Result<i64, NoDataError>)
    requires
        entries_wf(rate@),
    ensures
        match r {
            Ok(m) => rate@.len() > 0 && m == spec_rate_axis_max(rate@),
            Err(_) => rate@.len() == 0,
        },
{
    if rate.len() == 0 {
        return Err(NoDataError);
    }
    let mut best: i64 = rate[0].value.milli;
    let mut i: usize = 1;
    proof {
        assert(rate@.take(1int)[0] == rate@[0]);
    }
    while i < rate.len()
        invariant
            1 <= i <= rate@.len(),
            entries_wf(rate@),
            rate@.len() > 0,
            best == spec_max_value(rate@.take(i as int)),
        decreases rate@.len() - i,
    {
        proof {
            assert(rate@[i as int].wf());
            assert(rate@.take(i + 1).drop_last() =~= rate@.take(i as int));
            assert(rate@.take(i + 1).last() == rate@[i as int]);
        }
        let v = rate[i].value.milli;
        if v >= best {
            best = v;
        }
        i = i + 1;
    }
    proof {
        assert(rate@.take(rate@.len() as int) =~= rate@);
        assert(forall|j: int| 0 <= j < rate@.len() ==> #[trigger] rate@[j].wf());
        lemma_max_value_wf(rate@);
    }
    let m = Milli { milli: best };
    Ok(m.ceil())
}

/// The largest value of a sequence of well-formed entries is itself
/// well-formed.
proof fn lemma_max_value_wf(s: Seq<HistoryEntry>)
    requires
        s.len() > 0,
        entries_wf(s),
    ensures
        spec_max_value(s) != i64::MIN,
    decreases s.len(),
{
    if s.len() > 1 {
        assert(entries_wf(s.drop_last())) by {
            assert(forall|i: int|
                0 <= i < s.drop_last().len() ==> s.drop_last()[i] == #[trigger] s[i]);
        }
        lemma_max_value_wf(s.drop_last());
    } else {
        assert(s[0].wf());
    }
}

/// Bundles the coordinate parameters of one frame: the visible time range,
/// the fixed percentage axis, the global rate axis, and the synthetic hour
/// axis for the requested span.
pub fn compute_scales(window: &TimeWindow, rate: &Vec<HistoryEntry>, hours: u32) -> (r: Result<
    ChartScales,
    NoDataError,
>)
    requires
        entries_wf(rate@),
        hours >= 1,
    ensures
        match r {
            Ok(s) => {
                &&& rate@.len() > 0
                &&& s.window == *window
                &&& s.pct_max == 100
                &&& s.rate_max == spec_rate_axis_max(rate@)
                &&& s.axis_min == -(hours as int)
            },
            Err(_) => rate@.len() == 0,
        },
{
    let rate_max = match rate_axis_max(rate) {
        Ok(m) => m,
        Err(e) => {
            return Err(e);
        },
    };
    Ok(
        ChartScales {
            window: *window,
            pct_max: 100,
            rate_max,
            axis_min: -(hours as i64),
        },
    )
}

} // verus!
