use cloudflare_auth::time::{
    civil_from_days, days_from_civil, format_unix_iso, parse_iso_checked, parse_iso_pub,
};

#[test]
fn format_epoch() {
    assert_eq!(format_unix_iso(0), "1970-01-01T00:00:00Z");
}

#[test]
fn format_known_instants() {
    assert_eq!(format_unix_iso(1_700_000_000), "2023-11-14T22:13:20Z");
    assert_eq!(format_unix_iso(951_782_400), "2000-02-29T00:00:00Z");
    assert_eq!(format_unix_iso(-1), "1969-12-31T23:59:59Z");
    assert_eq!(format_unix_iso(-62_167_219_200), "0000-01-01T00:00:00Z");
}

#[test]
fn parse_known_texts() {
    assert_eq!(parse_iso_pub("2023-11-14T22:13:20Z"), 1_700_000_000);
    assert_eq!(parse_iso_pub("2023-11-14 22:13:20"), 1_700_000_000);
    assert_eq!(parse_iso_pub("  2023-11-14T22:13:20Z  "), 1_700_000_000);
    assert_eq!(parse_iso_pub("2023-11-14 22:13"), 1_700_000_000 - 20);
}

#[test]
fn parse_rejects_to_zero() {
    assert_eq!(parse_iso_pub(""), 0);
    assert_eq!(parse_iso_pub("2023-11-14"), 0);
    assert_eq!(parse_iso_pub("not a date"), 0);
    assert_eq!(parse_iso_pub("2023-11 10:00:00"), 0);
}

#[test]
fn parse_format_roundtrip_examples() {
    for ts in [0i64, 1, 59, 86_399, 86_400, 1_700_000_000, 4_102_444_800, -1, -86_401, -62_167_219_200] {
        assert_eq!(parse_iso_pub(&format_unix_iso(ts)), ts, "ts {ts}");
    }
}

#[test]
fn negative_years_do_not_roundtrip() {
    let text = format_unix_iso(-62_167_219_201);
    assert_eq!(text, "-001-12-31T23:59:59Z");
    assert_ne!(parse_iso_pub(&text), -62_167_219_201);
}

#[test]
fn civil_day_conversions() {
    assert_eq!(civil_from_days(0), (1970, 1, 1));
    assert_eq!(civil_from_days(11_016), (2000, 2, 29));
    assert_eq!(civil_from_days(-1), (1969, 12, 31));
    assert_eq!(days_from_civil(2000, 3, 1), 11_017);
    assert_eq!(days_from_civil(1970, 1, 1), 0);
    for z in [-800_000i64, -1, 0, 59, 60, 365, 10_957, 2_932_896] {
        let (y, m, d) = civil_from_days(z);
        assert_eq!(days_from_civil(y, m, d), z);
    }
}

#[test]
fn checked_parse_reports_overflow() {
    assert_eq!(parse_iso_checked("2023-11-14T22:13:20Z"), Some(1_700_000_000));
    assert_eq!(parse_iso_checked("garbage"), Some(0));
    assert_eq!(parse_iso_checked("999999999999999999-01-01T00:00:00Z"), None);
}

#[test]
fn civil_days_stay_within_their_month() {
    assert_eq!(civil_from_days(days_from_civil(1900, 3, 1) - 1), (1900, 2, 28));
    assert_eq!(civil_from_days(days_from_civil(2024, 3, 1) - 1), (2024, 2, 29));
    assert_eq!(civil_from_days(days_from_civil(2023, 5, 1) - 1), (2023, 4, 30));
    for z in -800_000..800_000i64 {
        let (y, m, d) = civil_from_days(z);
        let leap = y % 4 == 0 && (y % 100 != 0 || y % 400 == 0);
        let len = match m {
            2 => if leap { 29 } else { 28 },
            4 | 6 | 9 | 11 => 30,
            _ => 31,
        };
        assert!(d >= 1 && d <= len);
    }
}
