use upowerchart::config::{parse_color, Rgb};
use upowerchart::errors::LookupError;
use upowerchart::history::{parse_file, select_history_files, HistoryEntry};
use upowerchart::text::{bat_text, pwr_text, tenths_string, u64_string, value_string};
use upowerchart::value::Milli;

fn entry(time: u64, milli: i64, charging: bool) -> HistoryEntry {
    HistoryEntry { time, value: Milli { milli }, charging }
}

#[test]
fn parse_single_discharging_line() {
    let got = parse_file(&b"100\t42.5\tdischarging".to_vec()).unwrap();
    assert_eq!(got, vec![entry(100, 42_500, false)]);
}

#[test]
fn parse_two_fields_is_error() {
    assert!(parse_file(&b"100\t42.5".to_vec()).is_err());
}

#[test]
fn parse_charging_token_exact() {
    let got = parse_file(&b"1\t2\tcharging".to_vec()).unwrap();
    assert!(got[0].charging);
    let got = parse_file(&b"1\t2\tCharging".to_vec()).unwrap();
    assert!(!got[0].charging);
    let got = parse_file(&b"1\t2\t".to_vec()).unwrap();
    assert!(!got[0].charging);
}

#[test]
fn parse_skips_empty_lines() {
    let text = b"100\t1.0\tcharging\n\n200\t2.0\tdischarging\n".to_vec();
    let got = parse_file(&text).unwrap();
    assert_eq!(got, vec![entry(100, 1_000, true), entry(200, 2_000, false)]);
}

#[test]
fn parse_handles_crlf_endings() {
    let text = b"100\t1.0\tcharging\r\n200\t2\tdischarging".to_vec();
    let got = parse_file(&text).unwrap();
    assert_eq!(got, vec![entry(100, 1_000, true), entry(200, 2_000, false)]);
}

#[test]
fn parse_ignores_fields_after_third_tab() {
    let got = parse_file(&b"100\t1\tcharging\textra".to_vec()).unwrap();
    assert_eq!(got, vec![entry(100, 1_000, true)]);
}

#[test]
fn parse_rejects_bad_timestamp() {
    assert!(parse_file(&b"abc\t1\tcharging".to_vec()).is_err());
    assert!(parse_file(&b"1.5\t1\tcharging".to_vec()).is_err());
    assert!(parse_file(&b"-1\t1\tcharging".to_vec()).is_err());
    assert!(parse_file(&b"\t1\tcharging".to_vec()).is_err());
}

#[test]
fn parse_accepts_plus_signed_timestamp() {
    let got = parse_file(&b"+100\t1\tdischarging".to_vec()).unwrap();
    assert_eq!(got[0].time, 100);
}

#[test]
fn parse_value_forms() {
    let cases: Vec<(&[u8], i64)> = vec![
        (b"1\t.5\tx", 500),
        (b"1\t5.\tx", 5_000),
        (b"1\t+1.25\tx", 1_250),
        (b"1\t-0.004\tx", -4),
        (b"1\t1.2345\tx", 1_234),
        (b"1\t60\tx", 60_000),
        (b"1\t0\tx", 0),
    ];
    for (text, milli) in cases {
        let got = parse_file(&text.to_vec()).unwrap();
        assert_eq!(got[0].value, Milli { milli }, "input {:?}", text);
    }
}

#[test]
fn parse_rejects_bad_values() {
    assert!(parse_file(&b"1\t\tx".to_vec()).is_err());
    assert!(parse_file(&b"1\t1e5\tx".to_vec()).is_err());
    assert!(parse_file(&b"1\tnan\tx".to_vec()).is_err());
    assert!(parse_file(&b"1\t.\tx".to_vec()).is_err());
    assert!(parse_file(&b"1\t1.2.3\tx".to_vec()).is_err());
    assert!(parse_file(&b"1\t99999999999999999999\tx".to_vec()).is_err());
}

#[test]
fn parse_empty_text_is_empty_log() {
    assert_eq!(parse_file(&Vec::new()).unwrap(), Vec::new());
}

#[test]
fn parse_fails_fast_on_first_bad_line() {
    let text = b"100\t1\tcharging\nbad line\n200\t2\tcharging".to_vec();
    assert!(parse_file(&text).is_err());
}

#[test]
fn color_parses_hex_triples() {
    assert_eq!(parse_color("#00FF00").unwrap(), Rgb { r: 0, g: 255, b: 0 });
    assert_eq!(parse_color("#00ff7f").unwrap(), Rgb { r: 0, g: 255, b: 127 });
    assert_eq!(parse_color("FF8000").unwrap(), Rgb { r: 255, g: 128, b: 0 });
    assert_eq!(parse_color("##FF0000").unwrap(), Rgb { r: 255, g: 0, b: 0 });
    assert_eq!(parse_color("#AABBCCdd").unwrap(), Rgb { r: 170, g: 187, b: 204 });
}

#[test]
fn color_rejects_short_or_bad_digits() {
    assert!(parse_color("#FFF").is_err());
    assert!(parse_color("#GGGGGG").is_err());
    assert!(parse_color("").is_err());
    assert!(parse_color("#").is_err());
}

#[test]
fn select_finds_first_match_of_each_pattern() {
    let names: Vec<Vec<u8>> = vec![
        b"junk.dat".to_vec(),
        b"history-rate-M1-5.dat".to_vec(),
        b"history-charge-M1-5.dat".to_vec(),
        b"history-charge-M1-6.dat".to_vec(),
    ];
    let got = select_history_files(&names, &b"M1".to_vec()).unwrap();
    assert_eq!(got, (2, 1));
}

#[test]
fn select_reports_missing_charge_first() {
    let names: Vec<Vec<u8>> = vec![b"history-rate-M1.dat".to_vec()];
    assert_eq!(
        select_history_files(&names, &b"M1".to_vec()),
        Err(LookupError::ChargeMissing)
    );
    let names: Vec<Vec<u8>> = Vec::new();
    assert_eq!(
        select_history_files(&names, &b"M1".to_vec()),
        Err(LookupError::ChargeMissing)
    );
}

#[test]
fn select_reports_missing_rate() {
    let names: Vec<Vec<u8>> = vec![b"history-charge-M1.dat".to_vec()];
    assert_eq!(
        select_history_files(&names, &b"M1".to_vec()),
        Err(LookupError::RateMissing)
    );
}

#[test]
fn select_respects_device_model() {
    let names: Vec<Vec<u8>> = vec![
        b"history-charge-OTHER.dat".to_vec(),
        b"history-rate-M1.dat".to_vec(),
    ];
    assert_eq!(
        select_history_files(&names, &b"M1".to_vec()),
        Err(LookupError::ChargeMissing)
    );
}

#[test]
fn digits_render_exactly() {
    assert_eq!(u64_string(0), "0");
    assert_eq!(u64_string(7), "7");
    assert_eq!(u64_string(1234567890), "1234567890");
    assert_eq!(u64_string(u64::MAX), "18446744073709551615");
}

#[test]
fn values_render_shortest_exact_decimal() {
    assert_eq!(value_string(&Milli { milli: 42_500 }), "42.5");
    assert_eq!(value_string(&Milli { milli: 60_000 }), "60");
    assert_eq!(value_string(&Milli { milli: -4 }), "-0.004");
    assert_eq!(value_string(&Milli { milli: 1_230 }), "1.23");
    assert_eq!(value_string(&Milli { milli: 0 }), "0");
}

#[test]
fn tenths_render_half_away_from_zero() {
    assert_eq!(tenths_string(&Milli { milli: 8_000 }), "8.0");
    assert_eq!(tenths_string(&Milli { milli: 8_440 }), "8.4");
    assert_eq!(tenths_string(&Milli { milli: 8_450 }), "8.5");
    assert_eq!(tenths_string(&Milli { milli: -40 }), "-0.0");
    assert_eq!(tenths_string(&Milli { milli: 12_350 }), "12.4");
}

#[test]
fn annotation_texts() {
    assert_eq!(bat_text(&Milli { milli: 70_000 }), "BAT: 70%");
    assert_eq!(bat_text(&Milli { milli: 42_500 }), "BAT: 42.5%");
    assert_eq!(pwr_text(&Milli { milli: 8_397 }), "PWR: 8.4W");
    assert_eq!(pwr_text(&Milli { milli: 8_000 }), "PWR: 8.0W");
}
