use cuaca::lang::Lang;
use cuaca::terminal::{
    chart_hour, current_conditions, forecast_tables, push_table_row, report_foot, report_head, ReportSlot,
};

fn rslot(time: Option<&str>, t: i64) -> ReportSlot {
    ReportSlot {
        local_datetime: time.map(|s| s.to_string()),
        t: Some(t),
        desc: Some("Cerah Berawan".to_string()),
        wd: Some("NE".to_string()),
        ws_rounded: "9".to_string(),
        tcc_rounded: "39".to_string(),
        tp_one_decimal: "0.2".to_string(),
        vs_text: Some("< 9 km".to_string()),
    }
}

#[test]
fn report_head_with_and_without_warnings() {
    let none: Vec<String> = vec![];
    assert_eq!(
        report_head(Lang::EN, "Kemayoran", &Some("2026-05-10 13:00:00".to_string()), &none, false),
        "  Weather Report: Kemayoran\n  Sun 10 May\n\n\n"
    );
    let ws = vec!["Petir".to_string()];
    assert_eq!(
        report_head(Lang::ID, "X", &None, &ws, true),
        "  \x1b[1;37mLaporan Cuaca: X\x1b[0m\n  Unknown\n\n\n     ⚠️  \x1b[38;5;226mPetir\x1b[0m\n\n"
    );
}

#[test]
fn current_conditions_lines() {
    let out = current_conditions(0, "Sunny", 31, 33, false, 90, 8, "< 9 km", "0.2", Lang::EN, false);
    let lines: Vec<&str> = out.split('\n').collect();
    assert_eq!(lines.len(), 7);
    assert_eq!(lines[0], format!("     {}   {}", "    \\ . /    ", "Sunny"));
    assert_eq!(lines[1], format!("     {}  {}", "   - .-. -   ", "+31(33) °C"));
    assert_eq!(lines[2], format!("     {}  {}", "  ‒ (   ) ‒  ", "\u{27a1}\u{fe0f} 8 km/h"));
    assert_eq!(lines[3], format!("     {}  {}", "   . `-᾿ .   ", "< 9 km"));
    assert_eq!(lines[4], format!("     {}  {}", "    / ' \\    ", "0.2 mm"));
    assert_eq!(lines[5], "");
    assert_eq!(lines[6], "");
    let cold = current_conditions(0, "x", -3, 0, true, 0, 0, "v", "0.0", Lang::EN, false);
    assert!(cold.contains("-3(0) °F"));
}

#[test]
fn table_rows_have_fixed_columns() {
    let mut out = String::new();
    push_table_row(&mut out, &rslot(Some("2026-05-11 07:00:00"), 26), false, Lang::EN);
    assert_eq!(
        out,
        format!(
            "  {:>5}  {:<6}  {:<20}  {:<15}  {:>5}  {:>7}  {:<8}\n",
            "07:00", "26°C", "Cerah Berawan", "NE 9 km/h", "39%", "0.2 mm", "< 9 km"
        )
    );
    let mut bad = String::new();
    push_table_row(&mut bad, &rslot(Some("tomorrow"), 26), true, Lang::EN);
    assert!(bad.starts_with("  ??:??  79°F  "));
}

#[test]
fn forecast_tables_skip_today_and_empty_days() {
    let groups = vec![
        vec![rslot(Some("2026-05-10 13:00:00"), 31)],
        vec![rslot(Some("2026-05-11 07:00:00"), 26)],
        vec![],
    ];
    let out = forecast_tables(&groups, Lang::EN, false, false);
    let lines: Vec<&str> = out.split('\n').collect();
    assert_eq!(lines[0], "  Tomorrow, Mon 11 May");
    assert_eq!(
        lines[1],
        "   Time  Temp    Desc                  Wind             Cloud   Precip  Vis     "
    );
    assert_eq!(
        lines[2],
        "  -----  ------  --------------------  ---------------  -----  -------  --------"
    );
    assert!(lines[3].starts_with("  07:00  26°C"));
    assert_eq!(lines[4], "");
    assert_eq!(lines.len(), 6);
    assert!(!out.contains("Sun 10 May"));
    let unknown = vec![vec![], vec![rslot(None, 1)]];
    assert!(forecast_tables(&unknown, Lang::ID, false, false).starts_with("  Besok, Unknown\n"));
}

#[test]
fn report_foot_shows_source() {
    assert_eq!(
        report_foot(Lang::EN, false),
        "\n  Source: BMKG (Badan Meteorologi, Klimatologi, dan Geofisika)\n"
    );
}

#[test]
fn report_dates_follow_the_language() {
    let none: Vec<String> = vec![];
    let head = report_head(Lang::ID, "X", &Some("2026-05-10 13:00:00".to_string()), &none, false);
    assert_eq!(head, "  Laporan Cuaca: X\n  Min 10 Mei\n\n\n");
    let bad = report_head(Lang::EN, "X", &Some("10/05/2026".to_string()), &none, false);
    assert_eq!(bad, "  Weather Report: X\n  Unknown\n\n\n");
    let groups = vec![vec![], vec![rslot(Some("2026-05-11 07:00:00"), 26)]];
    assert!(forecast_tables(&groups, Lang::ID, false, false).starts_with("  Besok, Sen 11 Mei\n"));
}

#[test]
fn chart_hours_from_slot_times() {
    assert_eq!(chart_hour("2026-05-10 07:00:00"), Some("07".to_string()));
    assert_eq!(chart_hour("2026-05-10T19:30:00"), Some("19".to_string()));
    // Not a valid time: bytes 11 to 13 when they read as a number.
    assert_eq!(chart_hour("2026-05-10 25:00:00"), Some("25".to_string()));
    assert_eq!(chart_hour("2026-05-10 +7:00"), Some("+7".to_string()));
    assert_eq!(chart_hour("2026-05-10 ab:00"), Some("??".to_string()));
    assert_eq!(chart_hour("short"), Some("??".to_string()));
    // A two-byte character in bytes 11 to 13 reads as no number.
    assert_eq!(chart_hour("2026-05-10 é:00"), Some("??".to_string()));
    // Byte 11 inside a character: the text cannot be cut there.
    assert_eq!(chart_hour("2026-05-10é7:00:00"), None);
}
