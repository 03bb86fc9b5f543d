use cuaca::lang::Lang;
use cuaca::weather_core::warnings::fetch::{
    cached_alert_usable, rss_url, select_warnings, within_ttl, WarningWindow,
};
use cuaca::weather_core::weather::{
    cache_file_name, cache_is_fresh, forecast_cache_age, forecast_cache_is_fresh, forecast_url,
    weather_retry_delay,
};

const MINUTE: i128 = 60_000_000_000;

fn window(area: &str) -> WarningWindow {
    WarningWindow { area_desc: area.to_string(), effective: None, expires: None }
}

#[test]
fn polygons_decide_where_there_are_polygons() {
    let alerts = vec![window("Banten"), window("Jawa Barat"), window("Banten"), window("Banten")];
    // Alert 0 has a polygon that misses the place: not shown, though it names the province.
    // Alert 1 has a polygon that holds the place: shown, whatever its area.
    // Alerts 2 and 3 have no polygon: shown when they name the province.
    let hits = vec![Some(false), Some(true), None, None];
    assert_eq!(select_warnings(&alerts, &hits, "Banten", 0), vec![1, 2, 3]);
    assert_eq!(select_warnings(&alerts, &hits, "Papua", 0), vec![1]);
    let none = vec![None, None, None, None];
    assert_eq!(select_warnings(&alerts, &none, "banten", 0), vec![0, 2, 3]);
}

#[test]
fn polygon_less_warnings_need_their_window() {
    let hour: i128 = 3_600_000_000_000;
    let alerts = vec![
        WarningWindow { area_desc: "Banten".to_string(), effective: Some(hour), expires: Some(2 * hour) },
        WarningWindow { area_desc: "Banten".to_string(), effective: Some(0), expires: Some(hour) },
    ];
    assert_eq!(select_warnings(&alerts, &vec![None, None], "Banten", hour), vec![0]);
}

#[test]
fn feed_urls() {
    assert_eq!(rss_url(Lang::EN), "https://www.bmkg.go.id/alerts/nowcast/en");
    assert_eq!(rss_url(Lang::ID), "https://www.bmkg.go.id/alerts/nowcast/id");
}

#[test]
fn cache_lifetimes() {
    assert!(within_ttl(14 * MINUTE, 15));
    assert!(!within_ttl(15 * MINUTE, 15));
    assert!(cached_alert_usable(Some(100), 99, None, 15));
    assert!(!cached_alert_usable(Some(100), 100, Some(0), 15));
    assert!(cached_alert_usable(None, 0, Some(MINUTE), 15));
    assert!(!cached_alert_usable(None, 0, None, 15));
}

#[test]
fn forecast_cache_and_retries() {
    assert_eq!(
        forecast_url("31.71.03.1001"),
        "https://api.bmkg.go.id/publik/prakiraan-cuaca?adm4=31.71.03.1001"
    );
    assert_eq!(cache_file_name("31.71.03.1001"), "cuaca-31.71.03.1001.json");
    assert!(cache_is_fresh(Some(599), 600));
    assert!(!cache_is_fresh(Some(600), 600));
    assert!(!cache_is_fresh(None, 600));
    assert_eq!(weather_retry_delay(1), Some(500));
    assert_eq!(weather_retry_delay(2), Some(1000));
    assert_eq!(weather_retry_delay(3), Some(2000));
    assert_eq!(weather_retry_delay(20), Some(262_144_000));
    assert_eq!(weather_retry_delay(21), None);
}

#[test]
fn forecast_cache_age_counts_whole_seconds() {
    // 2026-05-10T06:00:00+07:00 is 2026-05-09T23:00:00Z.
    let fetched = "2026-05-10T06:00:00+07:00";
    let t: i64 = 1_778_367_600;
    assert_eq!(forecast_cache_age(fetched, (t + 599, 999_999_999)), Some(599));
    assert_eq!(forecast_cache_age(fetched, (t, 0)), Some(0));
    // A time before the fetch counts towards zero.
    assert_eq!(forecast_cache_age(fetched, (t - 2, 500_000_000)), Some(-1));
    assert_eq!(forecast_cache_age("2026-05-10 06:00:00", (t, 0)), None);
}

#[test]
fn forecast_cache_freshness_now() {
    assert!(forecast_cache_is_fresh("9999-01-01T00:00:00Z", 600));
    assert!(!forecast_cache_is_fresh("2000-01-01T00:00:00Z", 600));
    assert!(!forecast_cache_is_fresh("yesterday", 600));
}
