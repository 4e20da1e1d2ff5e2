use chrono::{FixedOffset, TimeZone, Utc};
use iptv_proxy::{timestamp_to_hhmm, to_xmltv_time};

fn chrono_xmltv(ms: i64) -> String {
    Utc.timestamp_millis_opt(ms)
        .single()
        .unwrap()
        .with_timezone(&FixedOffset::east_opt(8 * 3600).unwrap())
        .format("%Y%m%d%H%M%S")
        .to_string()
}

#[test]
fn xmltv_time_years_beyond_four_digits() {
    assert_eq!(to_xmltv_time(253402272000000).unwrap(), "+100000101000000");
    assert_eq!(to_xmltv_time(-62198784000000).unwrap(), "-00010101000000");
    assert_eq!(to_xmltv_time(-30636432000000).unwrap(), "09990304000000");
}

#[test]
fn xmltv_time_agrees_with_chrono_formatting() {
    for ms in [
        0i64,
        -1,
        999,
        -999,
        1_733_011_200_000,
        1_709_136_000_123,
        253_402_272_000_000,
        -62_198_784_000_000,
        -30_636_432_000_000,
        8_000_000_000_000_000,
        -8_000_000_000_000_000,
    ] {
        assert_eq!(to_xmltv_time(ms).unwrap(), chrono_xmltv(ms), "{}", ms);
    }
}

#[test]
fn hhmm_agrees_with_chrono() {
    for ms in [0i64, -1, 59_999, 1_733_011_200_000, 1_733_050_000_000, -86_400_001] {
        let secs = ms / 1000;
        let t = Utc.timestamp_opt(secs, 0).single().unwrap() + chrono::Duration::hours(8);
        assert_eq!(timestamp_to_hhmm(ms), t.format("%H:%M").to_string(), "{}", ms);
    }
}
