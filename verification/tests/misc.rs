use cuaca::cli::args::ServerOpts;
use cuaca::constants::ascii::{CODE_FOG, CODE_SUNNY, CODE_UNKNOWN};
use cuaca::constants::get_ascii_icon;
use cuaca::lang::Lang;
use cuaca::stats::{
    adm4_selected, archived_slot, lead_seconds, rfc3339_time, selected_variables, stats_groups, stats_header, stats_row, stats_rule, vars_header,
    ArchivedSlot, VarSummary,
};
use cuaca::weather_core::error::CuacaError;

#[test]
fn vars_header_default_variables() {
    assert_eq!(
        vars_header("t,hu,tp,ws,tcc"),
        "Temp(°C)  Hum(%)  Precip(mm)  Wind(km/h)  Cloud(%)"
    );
}

#[test]
fn vars_header_unknown_and_empty_names() {
    assert_eq!(vars_header("t,foo"), "Temp(°C)  foo");
    assert_eq!(vars_header(""), "");
    assert_eq!(vars_header("t,,hu"), "Temp(°C)    Hum(%)");
    assert_eq!(vars_header("T"), "T");
}

#[test]
fn server_ttl_in_seconds() {
    let opts = ServerOpts { archive: false, socket: None, ttl: Some(10) };
    assert_eq!(opts.ttl_secs(), 600);
    let opts = ServerOpts { archive: true, socket: Some("/tmp/c.sock".to_string()), ttl: Some(1) };
    assert_eq!(opts.ttl_secs(), 60);
    let opts = ServerOpts { archive: false, socket: None, ttl: None };
    assert_eq!(opts.ttl_secs(), 600);
}

#[test]
fn ascii_icons_by_code() {
    assert_eq!(get_ascii_icon(0), CODE_SUNNY);
    assert_eq!(get_ascii_icon(1), CODE_SUNNY);
    assert_eq!(get_ascii_icon(45), CODE_FOG);
    assert_eq!(get_ascii_icon(12345), CODE_UNKNOWN);
    assert_eq!(
        cuaca::weather_core::constants::ascii::get_ascii_icon(0)[1],
        "   - .-. -   "
    );
}

#[test]
fn labels_by_language() {
    assert_eq!(Lang::EN.humidity(), "Humidity");
    assert_eq!(Lang::ID.humidity(), "Kelembaban");
    assert_eq!(Lang::EN.weather_desc_key(), "weather_desc_en");
    assert_eq!(Lang::ID.weather_desc_key(), "weather_desc");
    assert_eq!(Lang::ID.day_after_tomorrow(), "Lusa");
    assert_eq!(Lang::EN.rainfall(), "RAINFALL (mm)");
    assert_eq!(Lang::ID.visibility_label(), "JARAK PANDANG");
    assert_eq!(Lang::EN.total(), Lang::ID.total());
}

#[test]
fn error_messages() {
    assert_eq!(
        CuacaError::Config("--lat requires --lon".to_string()).message(),
        "Configuration error: --lat requires --lon"
    );
    assert_eq!(CuacaError::Cache("disk full".to_string()).message(), "Cache I/O error: disk full");
    assert_eq!(CuacaError::Network("x".to_string()).message(), "Network error: x");
}

#[test]
fn stats_table_lines() {
    assert_eq!(
        stats_header("t,hu"),
        format!("{:<12} {:<6} {:<8} {}", "Date", "Hour", "Lead(h)", "Temp(°C)  Hum(%)")
    );
    assert_eq!(stats_rule(), "-".repeat(79));
    let summaries = vec![VarSummary {
        name: "t".to_string(),
        mean: "28.5".to_string(),
        stddev: "1.2".to_string(),
    }];
    assert_eq!(
        stats_row("2026-05-10", 13, "6.5", "t,hu", &summaries),
        format!("{:<12} {:<6} {:<8.1} {}", "2026-05-10", 13, 6.5f64, "t 28.5±1.2  hu N/A")
    );
}

fn archived(adm4: &str, date: (i32, u32, u32), hour: u32) -> ArchivedSlot {
    ArchivedSlot { adm4: adm4.to_string(), date, hour }
}

#[test]
fn stats_groups_by_date_and_hour_ascending() {
    let slots = vec![
        archived("31.71.01.1001", (2026, 5, 11), 9),
        archived("31.71.01.1001", (2026, 5, 10), 21),
        archived("31.71.01.1001", (2026, 5, 10), 9),
        archived("31.71.01.1001", (2026, 5, 11), 9),
        archived("31.71.01.1001", (2025, 12, 31), 23),
    ];
    let groups = stats_groups(&slots, None, None, None);
    assert_eq!(
        groups,
        vec![
            ((2025, 12, 31), 23, vec![4]),
            ((2026, 5, 10), 9, vec![2]),
            ((2026, 5, 10), 21, vec![1]),
            ((2026, 5, 11), 9, vec![0, 3]),
        ]
    );
}

#[test]
fn stats_groups_filter_by_place_and_dates() {
    let slots = vec![
        archived("a", (2026, 5, 9), 6),
        archived("b", (2026, 5, 10), 6),
        archived("a", (2026, 5, 10), 6),
        archived("a", (2026, 5, 12), 6),
        archived("a", (2026, 5, 11), 18),
    ];
    let groups = stats_groups(&slots, Some("a"), Some((2026, 5, 10)), Some((2026, 5, 11)));
    assert_eq!(
        groups,
        vec![((2026, 5, 10), 6, vec![2]), ((2026, 5, 11), 18, vec![4])]
    );
    assert!(stats_groups(&slots, Some("c"), None, None).is_empty());
    assert!(stats_groups(&Vec::new(), None, None, None).is_empty());
}

#[test]
fn adm4_filter_matches_whole_code() {
    assert!(adm4_selected("31.71", None));
    assert!(adm4_selected("31.71", Some("31.71")));
    assert!(!adm4_selected("31.71", Some("31.7")));
}

#[test]
fn selected_variables_split_at_commas() {
    assert_eq!(selected_variables("t,hu,tp"), vec!["t", "hu", "tp"]);
    assert_eq!(selected_variables("t,,ws"), vec!["t", "", "ws"]);
    assert_eq!(selected_variables(""), vec![""]);
}

#[test]
fn archived_slots_read_their_local_time() {
    let a = archived_slot("31.71.01.1001", "2026-05-10 13:00:00").unwrap();
    assert_eq!(a.adm4, "31.71.01.1001");
    assert_eq!(a.date, (2026, 5, 10));
    assert_eq!(a.hour, 13);
    assert!(archived_slot("x", "2026-05-10T13:00:00").is_none());
    assert!(archived_slot("x", "2026-02-30 13:00:00").is_none());
}

#[test]
fn lead_time_of_an_archived_slot() {
    let fetched = rfc3339_time("2026-05-10T06:00:00+07:00").unwrap();
    assert_eq!(fetched, (1_778_367_600, 0));
    // The slot at 2026-05-10 02:00 UTC is three hours after the fetch.
    assert_eq!(lead_seconds(fetched, "2026-05-10 02:00:00"), Some(-10_800));
    assert_eq!(lead_seconds(fetched, "2026-05-09 22:30:00"), Some(1_800));
    assert_eq!(lead_seconds(fetched, "soon"), None);
    assert_eq!(rfc3339_time("2026-05-10 06:00:00"), None);
}
