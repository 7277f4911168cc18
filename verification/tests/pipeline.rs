use upowerchart::config::Rgb;
use upowerchart::frame::{annotation_origins, annotation_y, compose_frame, ChartStyle};
use upowerchart::history::HistoryEntry;
use upowerchart::refresh::should_dismiss;
use upowerchart::scale::rate_axis_max;
use upowerchart::series::{
    charging_rate_series, discharging_rate_series, last_window_value, percentage_series, PlotPoint,
};
use upowerchart::value::Milli;
use upowerchart::window::{compute_window, TimeWindow};

fn entry(time: u64, milli: i64, charging: bool) -> HistoryEntry {
    HistoryEntry { time, value: Milli { milli }, charging }
}

fn style() -> ChartStyle {
    ChartStyle {
        axis: Rgb { r: 255, g: 255, b: 255 },
        background: Rgb { r: 0, g: 0, b: 0 },
        percent: Rgb { r: 0, g: 255, b: 0 },
        charging: Rgb { r: 0, g: 255, b: 255 },
        discharging: Rgb { r: 255, g: 128, b: 0 },
    }
}

#[test]
fn window_ends_at_later_last_timestamp() {
    let charge = vec![entry(100, 50_000, false), entry(7200, 70_000, false)];
    let rate = vec![entry(7000, 8_000, false)];
    let w = compute_window(&charge, &rate, 2).unwrap();
    assert_eq!(w, TimeWindow { start: 0, end: 7200 });
    let w = compute_window(&rate, &charge, 2).unwrap();
    assert_eq!(w, TimeWindow { start: 0, end: 7200 });
}

#[test]
fn window_from_one_series_can_start_before_epoch() {
    let rate = vec![entry(100, 8_000, false)];
    let w = compute_window(&Vec::new(), &rate, 3).unwrap();
    assert_eq!(w, TimeWindow { start: 100 - 3 * 3600, end: 100 });
}

#[test]
fn window_of_two_empty_series_is_no_data() {
    assert!(compute_window(&Vec::new(), &Vec::new(), 3).is_err());
}

#[test]
fn boundary_entry_excluded_next_second_included() {
    let w = TimeWindow { start: 3600, end: 7200 };
    let charge = vec![
        entry(3600, 10_000, false),
        entry(3601, 20_000, false),
    ];
    let got = percentage_series(&charge, &w);
    assert_eq!(got, vec![PlotPoint { x: 3601, y: 20 }]);
}

#[test]
fn charging_series_zero_fills_discharging_entries() {
    let w = TimeWindow { start: 0, end: 7200 };
    let rate = vec![entry(100, 9_000, true), entry(200, 7_000, false)];
    let got = charging_rate_series(&rate, &w);
    assert_eq!(got, vec![PlotPoint { x: 100, y: 9 }, PlotPoint { x: 200, y: 0 }]);
}

#[test]
fn discharging_series_omits_charging_entries() {
    let w = TimeWindow { start: 0, end: 7200 };
    let rate = vec![entry(100, 9_000, true), entry(200, 7_400, false)];
    let got = discharging_rate_series(&rate, &w);
    assert_eq!(got, vec![PlotPoint { x: 200, y: 7 }]);
}

#[test]
fn rounding_is_half_away_from_zero() {
    let w = TimeWindow { start: 0, end: 100 };
    let charge = vec![
        entry(1, 2_500, false),
        entry(2, 2_499, false),
        entry(3, -2_500, false),
    ];
    let got = percentage_series(&charge, &w);
    assert_eq!(got[0].y, 3);
    assert_eq!(got[1].y, 2);
    assert_eq!(got[2].y, -3);
}

#[test]
fn rate_axis_uses_global_maximum_outside_window() {
    // the maximum lies before the window start, yet still sets the axis
    let rate = vec![entry(0, 9_200, true), entry(7200, 5_000, false)];
    assert_eq!(rate_axis_max(&rate).unwrap(), 10);
    let plan = compose_frame(
        &vec![entry(7200, 50_000, false)],
        &rate,
        "M",
        1,
        &style(),
    )
    .unwrap();
    assert_eq!(plan.scales.window, TimeWindow { start: 3600, end: 7200 });
    assert_eq!(plan.scales.rate_max, 10);
}

#[test]
fn rate_axis_of_empty_series_is_no_data() {
    assert!(rate_axis_max(&Vec::new()).is_err());
}

#[test]
fn empty_charge_series_is_no_data_not_a_crash() {
    let rate = vec![entry(7200, 8_000, false)];
    assert!(compose_frame(&Vec::new(), &rate, "M", 3, &style()).is_err());
    let w = compute_window(&Vec::new(), &rate, 3).unwrap();
    assert!(last_window_value(&Vec::new(), &w).is_err());
}

#[test]
fn empty_rate_series_is_no_data_not_a_crash() {
    let charge = vec![entry(7200, 50_000, false)];
    assert!(compose_frame(&charge, &Vec::new(), "M", 3, &style()).is_err());
}

#[test]
fn charge_entries_outside_window_are_no_data_for_annotation() {
    // the charge log ends long before the rate log: nothing of it is visible
    let charge = vec![entry(100, 50_000, false)];
    let rate = vec![entry(720_000, 8_000, false)];
    assert!(compose_frame(&charge, &rate, "M", 1, &style()).is_err());
}

#[test]
fn end_to_end_frame() {
    let charge = vec![
        entry(0, 50_000, false),
        entry(3600, 60_000, false),
        entry(7200, 70_000, false),
    ];
    let rate = vec![
        entry(0, 10_000, true),
        entry(3600, 5_000, false),
        entry(7200, 8_000, false),
    ];
    let st = style();
    let plan = compose_frame(&charge, &rate, "45N1029", 2, &st).unwrap();
    // start = end - hours * 3600; the boundary itself is excluded, so the
    // samples at the window start stay out of every series
    assert_eq!(plan.scales.window, TimeWindow { start: 0, end: 7200 });
    assert_eq!(plan.scales.pct_max, 100);
    assert_eq!(plan.scales.rate_max, 10);
    assert_eq!(plan.scales.axis_min, -2);
    assert_eq!(
        plan.pct_points,
        vec![PlotPoint { x: 3600, y: 60 }, PlotPoint { x: 7200, y: 70 }]
    );
    assert!(!plan.pct_points.iter().any(|p| p.x == 0));
    assert_eq!(
        plan.charging_points,
        vec![PlotPoint { x: 3600, y: 0 }, PlotPoint { x: 7200, y: 0 }]
    );
    assert_eq!(
        plan.discharging_points,
        vec![PlotPoint { x: 3600, y: 5 }, PlotPoint { x: 7200, y: 8 }]
    );
    assert_eq!(plan.background, st.background);
    assert_eq!(plan.axis_color, st.axis);
    assert_eq!(plan.pct_color, st.percent);
    assert_eq!(plan.charging_color, st.charging);
    assert_eq!(plan.discharging_color, st.discharging);
    assert_eq!(plan.annotations.len(), 3);
    assert_eq!(plan.annotations[0].text, "45N1029");
    assert_eq!(plan.annotations[0].color, st.axis);
    assert_eq!(plan.annotations[1].text, "BAT: 70%");
    assert_eq!(plan.annotations[1].color, st.percent);
    assert_eq!(plan.annotations[2].text, "PWR: 8.0W");
    assert_eq!(plan.annotations[2].color, st.discharging);
}

#[test]
fn annotations_are_laid_out_left_to_right() {
    let origins = annotation_origins(&vec![10, 20, 30], 20, 5);
    assert_eq!(origins, vec![20, 35, 60]);
    assert_eq!(annotation_y(200, 12, 10), 183);
}

#[test]
fn dismiss_conditions() {
    assert!(!should_dismiss(true, false, false));
    assert!(should_dismiss(false, false, false));
    assert!(should_dismiss(true, true, false));
    assert!(should_dismiss(true, false, true));
}
