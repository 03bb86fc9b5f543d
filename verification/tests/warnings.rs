use cuaca::weather_core::warnings::fetch::WarningWindow;
use cuaca::weather_core::warnings::{cap_id_from_link, filter_by_province};

#[test]
fn test_cap_id_from_link() {
    assert_eq!(
        cap_id_from_link("https://www.bmkg.go.id/alerts/nowcast/id/CBT20260520001_alert.xml"),
        "CBT20260520001"
    );
    assert_eq!(cap_id_from_link("https://example.com/foo.xml"), "foo");
}

#[test]
fn cap_id_edge_cases() {
    // No extension: the whole file name.
    assert_eq!(cap_id_from_link("https://example.com/alerts/ABC"), "ABC");
    // A trailing slash is skipped like Path::file_name does.
    assert_eq!(cap_id_from_link("https://example.com/x/DEF_alert.xml/"), "DEF");
}

const HOUR: i128 = 3_600_000_000_000;

fn window(area: &str, effective: Option<i128>, expires: Option<i128>) -> WarningWindow {
    WarningWindow { area_desc: area.to_string(), effective, expires }
}

#[test]
fn filter_keeps_current_warnings_of_the_province() {
    let now: i128 = 1_000 * HOUR;
    let alerts = vec![
        window("Banten: Kab. Serang", Some(now - HOUR), Some(now + HOUR)),
        window("DKI Jakarta", Some(now - HOUR), Some(now + HOUR)),
        window("BANTEN", Some(now + HOUR), Some(now + 2 * HOUR)),
        window("banten", None, None),
        window("Banten", Some(now - 2 * HOUR), Some(now)),
    ];
    assert_eq!(filter_by_province(&alerts, "Banten", now), vec![0, 3]);
    assert_eq!(filter_by_province(&alerts, "dki jakarta", now), vec![1]);
    assert_eq!(filter_by_province(&alerts, "Papua", now), Vec::<usize>::new());
}
