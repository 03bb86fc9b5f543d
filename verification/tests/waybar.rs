use cuaca::cli::run::{
    check_forecast, has_slots, bar_text, css_class, detail_lines, location_label, push_day_heading, push_slot_line,
    push_warning_entry, tooltip, waybar_output, BarStyle, SlotInfo, WarningNote,
};
use cuaca::format::{FieldValue, ForecastSlot, SlotField};
use cuaca::lang::Lang;
use cuaca::weather_core::error::CuacaError;

fn slot(time: &str, t: i64, desc: &str) -> SlotInfo {
    SlotInfo {
        local_datetime: Some(time.to_string()),
        weather: Some(1),
        t: Some(t),
        hu: Some(68),
        tcc: Some(39),
        wd_deg: Some(90),
        wd: Some("E".to_string()),
        desc: Some(desc.to_string()),
        vs_text: Some("< 9 km".to_string()),
        ws: "8.7".to_string(),
        tp: "0.2".to_string(),
        tp_one_decimal: "0.2".to_string(),
    }
}

fn style() -> BarStyle {
    BarStyle { lang: Lang::EN, nerd: false, ampm: false, fahrenheit: false, hide_details: false }
}

#[test]
fn bar_text_default_and_custom() {
    assert_eq!(bar_text("☀️", 31, None, None, false), "☀️  31°");
    assert_eq!(bar_text("☀️", 5, None, None, true), "⚠️ ☀️   5°");
    let fields = ForecastSlot {
        fields: vec![SlotField { key: "t".to_string(), value: FieldValue::Number("31".to_string()) }],
    };
    assert_eq!(bar_text("☀️", 31, Some("{ICON} {t}°C"), Some(&fields), false), "☀️ 31°C");
    assert_eq!(bar_text("☀️", 31, Some("{t}"), None, false), "");
}

#[test]
fn location_label_skips_empty_parts() {
    assert_eq!(location_label("Kemayoran", "Kemayoran", "Jakarta Pusat", "DKI Jakarta"), "Kemayoran, Kemayoran, Jakarta Pusat, DKI Jakarta");
    assert_eq!(location_label("", "Serang", "", "Banten"), "Serang, Banten");
    assert_eq!(location_label("", "", "", ""), "");
}

#[test]
fn css_class_from_description() {
    assert_eq!(css_class(&Some("Cerah Berawan".to_string())), "cerah_berawan");
    assert_eq!(css_class(&Some(" Hujan Ringan, Petir ".to_string())), "hujan_ringan");
    assert_eq!(css_class(&None), "unknown");
    assert_eq!(css_class(&Some("".to_string())), "");
}

#[test]
fn detail_lines_of_first_slot() {
    let s = slot("2026-05-10 13:00:00", 31, "Sunny");
    let lines = detail_lines(&s, style());
    assert_eq!(
        lines,
        vec![
            "Humidity: 68%".to_string(),
            "Cloud Cover: 39%".to_string(),
            "Precipitation: 0.2 mm".to_string(),
            "Wind: \u{27a1}\u{fe0f} E 8.7 km/h".to_string(),
            "Visibility: &lt; 9 km".to_string(),
        ]
    );
}

#[test]
fn slot_lines() {
    let s = slot("2026-05-10 13:00:00", 31, "Sunny & warm");
    let mut out = String::new();
    push_slot_line(&mut out, &s, style());
    assert_eq!(
        out,
        "13:00  \u{2600}\u{fe0f}   31°  Sunny &amp; warm  \u{27a1}\u{fe0f} 8.7 km/h  \u{2601}\u{fe0f} 39%  \u{1f327}\u{fe0f} 0.2 mm  \u{1f441}\u{fe0f} &lt; 9 km\n"
    );
    let mut short = String::new();
    let st = BarStyle { hide_details: true, ampm: true, fahrenheit: true, ..style() };
    push_slot_line(&mut short, &s, st);
    assert_eq!(short, "1pm   \u{2600}\u{fe0f}   88°  Sunny &amp; warm  \u{27a1}\u{fe0f} 8.7 km/h\n");
}

#[test]
fn day_headings() {
    let mut out = String::new();
    push_day_heading(&mut out, Lang::EN, 0, &Some("2026-05-10".to_string()));
    push_day_heading(&mut out, Lang::ID, 1, &Some("2026-05-11".to_string()));
    push_day_heading(&mut out, Lang::EN, 3, &Some("2026-05-13".to_string()));
    push_day_heading(&mut out, Lang::EN, 2, &None);
    assert_eq!(out, "<b>Today, 2026-05-10</b>\n\n<b>Besok, 2026-05-11</b>\n\n<b>2026-05-13</b>\n\n<b>");
}

#[test]
fn warning_entries() {
    let hour: i128 = 3_600_000_000_000;
    let w = WarningNote {
        headline: "Hujan Lebat & Petir".to_string(),
        effective: Some(13 * hour + 5 * 60_000_000_000),
        expires: Some(-hour),
        web: Some("https://x/a?b=1&c=2".to_string()),
    };
    let mut out = String::new();
    push_warning_entry(&mut out, &w);
    assert_eq!(
        out,
        "• <b>Hujan Lebat &amp; Petir<br/>Valid: 13:05–23:00\n<a href=\"https://x/a?b=1&amp;c=2\">Infographic</a></br>\n"
    );
    let bare = WarningNote { headline: "H".to_string(), effective: None, expires: Some(0), web: None };
    let mut out = String::new();
    push_warning_entry(&mut out, &bare);
    assert_eq!(out, "• <b>H<br/></br>\n");
}

#[test]
fn tooltip_sorts_slots_and_groups_days() {
    let groups = vec![
        vec![
            slot("2026-05-10 16:00:00", 30, "Cloudy"),
            slot("2026-05-10 13:00:00", 31, "Sunny"),
        ],
        vec![slot("2026-05-11 01:00:00", 25, "Rain")],
    ];
    let st = BarStyle { hide_details: true, ..style() };
    let tip = tooltip(st, "%a %d %b", "Kemayoran, DKI Jakarta", &groups, &vec![]);
    let expected_head = "<b>Weather Report:</b> Kemayoran, DKI Jakarta\n\n<b>Cloudy</b> 30 °C\n";
    assert!(tip.starts_with(expected_head), "{}", tip);
    let sections = "\n<b>Today, Sun 10 May</b>\n\
        13:00  \u{2600}\u{fe0f}   31°  Sunny  \u{27a1}\u{fe0f} 8.7 km/h\n\
        16:00  \u{2600}\u{fe0f}   30°  Cloudy  \u{27a1}\u{fe0f} 8.7 km/h\n\
        \n<b>Tomorrow, Mon 11 May</b>\n\
        01:00  \u{2600}\u{fe0f}   25°  Rain  \u{27a1}\u{fe0f} 8.7 km/h\n\
        \n<small>Source: BMKG (Badan Meteorologi, Klimatologi, dan Geofisika)</small>";
    assert!(tip.ends_with(sections), "{}", tip);
    // The art of the first slot is in monospace spans, one per detail line.
    assert_eq!(tip.matches("<span font_family=\"monospace\">").count(), 5);
}

#[test]
fn tooltip_lists_warnings() {
    let groups = vec![vec![slot("2026-05-10 13:00:00", 31, "Sunny")]];
    let w = WarningNote { headline: "Petir".to_string(), effective: None, expires: None, web: None };
    let tip = tooltip(style(), "%a %d %b", "X", &groups, &vec![w]);
    assert!(tip.contains("<b>Weather Warnings:</b>\n• <b>Petir<br/></br>\n\n\n<small>"));
}

#[test]
fn waybar_output_fields() {
    let groups = vec![vec![], vec![slot("2026-05-10 13:00:00", 31, "Cerah Berawan")]];
    let w = WarningNote { headline: "Petir".to_string(), effective: None, expires: None, web: None };
    let out = waybar_output(style(), "%Y-%m-%d", None, None, "X", &groups, &vec![w]);
    assert_eq!(out.text, "⚠️ \u{2600}\u{fe0f}  31°");
    assert_eq!(out.class, "cerah_berawan");
    assert!(out.tooltip.starts_with("<b>Weather Report:</b> X\n\n<b>Cerah Berawan</b> 31 °C\n"));
}

#[test]
fn tooltip_dates_use_format_and_language() {
    let groups = vec![vec![slot("2026-05-10 13:00:00", 31, "Cerah")], vec![slot("bad", 25, "Hujan")]];
    let st = BarStyle { lang: Lang::ID, hide_details: true, ..style() };
    let tip = tooltip(st, "%A %d %B", "X", &groups, &vec![]);
    assert!(tip.contains("\n<b>Hari Ini, Minggu 10 Mei</b>\n"), "{}", tip);
    // A slot whose time is no valid time opens its day without a date.
    assert!(tip.contains("\n<b>"), "{}", tip);
    assert!(!tip.contains("Besok"), "{}", tip);
    let out = waybar_output(style(), "%Y/%m/%d", None, None, "X", &groups, &vec![]);
    assert!(out.tooltip.contains("<b>Today, 2026/05/10</b>\n"), "{}", out.tooltip);
    // A format that cannot be written leaves the date out.
    let odd = tooltip(style(), "%Q", "X", &groups, &vec![]);
    assert!(!odd.contains("Today"), "{}", odd);
}

#[test]
fn tooltip_art_keeps_its_colours() {
    let groups = vec![vec![slot("2026-05-10 13:00:00", 31, "Sunny")]];
    let tip = tooltip(style(), "%a %d %b", "X", &groups, &vec![]);
    assert!(
        tip.contains(
            "<span font_family=\"monospace\"><span foreground=\"#ffff00\">    \\ . /    </span></span> "
        ),
        "{}",
        tip
    );
    assert!(!tip.contains('\u{1b}'));
}

#[test]
fn forecast_shape_errors() {
    assert_eq!(check_forecast(None), Err(CuacaError::Data("invalid BMKG data structure".to_string())));
    assert_eq!(
        check_forecast(Some(&vec![0, 0])),
        Err(CuacaError::Data("no forecast data available".to_string()))
    );
    assert_eq!(check_forecast(Some(&vec![])), Err(CuacaError::Data("no forecast data available".to_string())));
    assert_eq!(check_forecast(Some(&vec![0, 3])), Ok(()));
    assert!(has_slots(&vec![0, 0, 1]));
    assert!(!has_slots(&vec![]));
}
