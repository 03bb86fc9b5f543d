use cuaca::constants::{FALLBACK_ICON, FALLBACK_ICON_NERD};
use cuaca::format::{
    celsius_to_fahrenheit, format_hour_minute, format_indicator, format_temp, format_time,
    format_wind_dir_icon, get_weather_icon, replace_all_str, wind_dir_sector, FieldValue,
    ForecastSlot, SlotField,
};

fn num(key: &str, v: &str) -> SlotField {
    SlotField { key: key.to_string(), value: FieldValue::Number(v.to_string()) }
}

fn text(key: &str, v: &str) -> SlotField {
    SlotField { key: key.to_string(), value: FieldValue::Text(v.to_string()) }
}

/// The sample slot, with its fields in the order in which a JSON object
/// lists its keys (sorted).
fn make_slot() -> ForecastSlot {
    ForecastSlot {
        fields: vec![
            text("analysis_date", "2026-05-10T00:00:00"),
            text("datetime", "2026-05-10T06:00:00Z"),
            num("hu", "68"),
            text("image", "https://api-apps.bmkg.go.id/storage/icon/cuaca/cerah-am.svg"),
            text("local_datetime", "2026-05-10 13:00:00"),
            num("t", "31"),
            num("tcc", "39"),
            text("time_index", "5-6"),
            num("tp", "0.2"),
            num("vs", "8401"),
            text("vs_text", "< 9 km"),
            text("wd", "N"),
            num("wd_deg", "14"),
            text("wd_to", "S"),
            num("weather", "1"),
            text("weather_desc", "Cerah"),
            text("weather_desc_en", "Sunny"),
            num("ws", "8.7"),
        ],
    }
}

#[test]
fn format_time_24h() {
    assert_eq!(format_time("2026-05-10 13:00:00", false), "13:00");
    assert_eq!(format_time("2026-05-10 00:00:00", false), "00:00");
    assert_eq!(format_time("2026-05-10 06:30:00", false), "06:30");
}

#[test]
fn format_time_ampm() {
    assert_eq!(format_time("2026-05-10 13:00:00", true).trim(), "1pm");
    assert_eq!(format_time("2026-05-10 00:00:00", true).trim(), "12am");
    assert_eq!(format_time("2026-05-10 08:00:00", true).trim(), "8am");
    assert_eq!(format_time("2026-05-10 12:00:00", true).trim(), "12pm");
}

#[test]
fn format_time_unparsable_is_midnight() {
    assert_eq!(format_time("not a date", false), "00:00");
    assert_eq!(format_time("2026-05-10T13:00:00", false), "00:00");
}

#[test]
fn format_hour_minute_exact() {
    assert_eq!(format_hour_minute(9, 5, false), "09:05");
    assert_eq!(format_hour_minute(23, 59, false), "23:59");
    assert_eq!(format_hour_minute(13, 0, true), "1pm ");
    assert_eq!(format_hour_minute(11, 30, true), "11am");
}

#[test]
fn format_temp_pads_to_three_chars() {
    assert_eq!(format_temp(5), "  5\u{00b0}");
    assert_eq!(format_temp(20), " 20\u{00b0}");
    assert_eq!(format_temp(100), "100\u{00b0}");
    assert_eq!(format_temp(-3), " -3\u{00b0}");
}

#[test]
fn format_temp_wide_values() {
    assert_eq!(format_temp(1234), "1234\u{00b0}");
    assert_eq!(format_temp(-40), "-40\u{00b0}");
}

#[test]
fn format_wind_dir_all_cardinals() {
    assert_eq!(format_wind_dir_icon(0, false), "\u{2b06}\u{fe0f}");
    assert_eq!(format_wind_dir_icon(45, false), "\u{2197}\u{fe0f}");
    assert_eq!(format_wind_dir_icon(90, false), "\u{27a1}\u{fe0f}");
    assert_eq!(format_wind_dir_icon(135, false), "\u{2198}\u{fe0f}");
    assert_eq!(format_wind_dir_icon(180, false), "\u{2b07}\u{fe0f}");
    assert_eq!(format_wind_dir_icon(225, false), "\u{2199}\u{fe0f}");
    assert_eq!(format_wind_dir_icon(270, false), "\u{2b05}\u{fe0f}");
    assert_eq!(format_wind_dir_icon(315, false), "\u{2196}\u{fe0f}");
}

#[test]
fn format_wind_dir_all_nerd() {
    assert_eq!(format_wind_dir_icon(0, true), "\u{F0340}");
    assert_eq!(format_wind_dir_icon(90, true), "\u{F0343}");
    assert_eq!(format_wind_dir_icon(180, true), "\u{F0341}");
    assert_eq!(format_wind_dir_icon(270, true), "\u{F0342}");
}

#[test]
fn wind_sector_rounding_and_wrap() {
    assert_eq!(wind_dir_sector(22), 0);
    assert_eq!(wind_dir_sector(23), 1);
    assert_eq!(wind_dir_sector(338), 0);
    assert_eq!(wind_dir_sector(360), 0);
    assert_eq!(wind_dir_sector(405), 1);
    // Periodic in 360 degrees.
    assert_eq!(wind_dir_sector(100), wind_dir_sector(460));
    assert_eq!(format_wind_dir_icon(90 + 360, false), format_wind_dir_icon(90, false));
}

#[test]
fn get_weather_icon_known_codes() {
    assert_eq!(get_weather_icon(0, false), "\u{2600}\u{fe0f}");
    assert_eq!(get_weather_icon(2, false), "\u{26c5}");
    assert_eq!(get_weather_icon(3, false), "\u{2601}\u{fe0f}");
}

#[test]
fn get_weather_icon_fallback() {
    assert_eq!(get_weather_icon(99, false), FALLBACK_ICON);
    assert_eq!(get_weather_icon(99, true), FALLBACK_ICON_NERD);
}

#[test]
fn custom_indicator_substitutes_placeholder() {
    let slot = make_slot();
    let result = format_indicator(Some(&slot), "{t}\u{00b0}C", "\u{2600}\u{fe0f}");
    assert_eq!(result, "31\u{00b0}C");
}

#[test]
fn custom_indicator_substitutes_icon() {
    let slot = make_slot();
    let result = format_indicator(Some(&slot), "{ICON} {t}\u{00b0}C", "\u{2600}\u{fe0f}");
    assert_eq!(result, "\u{2600}\u{fe0f} 31\u{00b0}C");
}

#[test]
fn custom_indicator_multiple_placeholders() {
    let slot = make_slot();
    let result = format_indicator(Some(&slot), "{ICON}{t}\u{00b0}C {weather_desc_en}", "\u{26c5}");
    assert_eq!(result, "\u{26c5}31\u{00b0}C Sunny");
}

#[test]
fn custom_indicator_null_returns_empty() {
    let result = format_indicator(None, "{t}", "\u{2600}\u{fe0f}");
    assert_eq!(result, "");
}

#[test]
fn custom_indicator_number_placeholder() {
    let slot = ForecastSlot { fields: vec![num("hu", "70"), num("t", "25")] };
    let result = format_indicator(Some(&slot), "{t} {hu}%", "\u{2600}\u{fe0f}");
    assert_eq!(result, "25 70%");
}

#[test]
fn custom_indicator_other_values_and_unknown_keys() {
    let slot = ForecastSlot {
        fields: vec![
            SlotField { key: "x".to_string(), value: FieldValue::Other },
            num("tp", "0.2"),
        ],
    };
    assert_eq!(format_indicator(Some(&slot), "[{x}] {tp} {nope}", "i"), "[] 0.2 {nope}");
}

#[test]
fn replace_all_str_matches_str_replace() {
    assert_eq!(replace_all_str("aaa", "aa", "b"), "aaa".replace("aa", "b"));
    assert_eq!(replace_all_str("{t}{t}", "{t}", "1"), "11");
    assert_eq!(replace_all_str("abc", "x", "y"), "abc");
}

#[test]
fn celsius_to_fahrenheit_conversions() {
    assert_eq!(celsius_to_fahrenheit(0), 32);
    assert_eq!(celsius_to_fahrenheit(100), 212);
    assert_eq!(celsius_to_fahrenheit(-40), -40);
    assert_eq!(celsius_to_fahrenheit(37), 99);
    assert_eq!(celsius_to_fahrenheit(20), 68);
}

#[test]
fn celsius_to_fahrenheit_rounds_half_up() {
    // 1.8 * 21 + 32 = 69.8, rounded to 70; 1.8 * -1 + 32 = 30.2, rounded to 30.
    assert_eq!(celsius_to_fahrenheit(21), 70);
    assert_eq!(celsius_to_fahrenheit(-1), 30);
}
