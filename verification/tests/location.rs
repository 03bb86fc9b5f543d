use cuaca::weather_core::error::CuacaError;
use cuaca::weather_core::location::{is_fresh_at, location_query, name_key, LocationQuery, CACHE_TTL_SECS};

#[test]
fn test_name_key_normalization() {
    assert_eq!(name_key("  Kemayoran  "), "kemayoran");
    assert_eq!(name_key("JAKARTA"), "jakarta");
}

#[test]
fn name_key_is_idempotent() {
    let once = name_key("  Jakarta Pusat\t");
    assert_eq!(once, "jakarta pusat");
    assert_eq!(name_key(&once), once);
}

#[test]
fn test_resolve_adm4_direct() {
    let result = location_query(Some("31.71.03.1001"), false, false, None);
    assert!(result.is_ok());
    assert_eq!(result.unwrap(), LocationQuery::Adm4("31.71.03.1001".to_string()));
}

#[test]
fn adm4_wins_over_other_options() {
    let result = location_query(Some("31.71.03.1001"), true, false, Some("x"));
    assert_eq!(result.unwrap(), LocationQuery::Adm4("31.71.03.1001".to_string()));
}

#[test]
fn test_resolve_lat_without_lon_error() {
    let result = location_query(None, true, false, None);
    assert!(result.is_err());
    match result.unwrap_err() {
        CuacaError::Config(msg) => assert!(msg.contains("--lat requires --lon")),
        _ => panic!("wrong error type"),
    }
}

#[test]
fn test_resolve_lon_without_lat_error() {
    let result = location_query(None, false, true, None);
    assert!(result.is_err());
    match result.unwrap_err() {
        CuacaError::Config(msg) => assert!(msg.contains("--lon requires --lat")),
        _ => panic!("wrong error type"),
    }
}

#[test]
fn test_resolve_no_args_error() {
    let result = location_query(None, false, false, None);
    assert!(result.is_err());
    match result.unwrap_err() {
        CuacaError::Location(msg) => assert!(msg.contains("provide --adm4")),
        _ => panic!("wrong error type"),
    }
}

#[test]
fn gps_and_name_queries() {
    assert_eq!(location_query(None, true, true, Some("x")).unwrap(), LocationQuery::Gps);
    assert_eq!(
        location_query(None, false, false, Some(" Kemayoran ")).unwrap(),
        LocationQuery::Name { name: " Kemayoran ".to_string(), key: "kemayoran".to_string() }
    );
}

#[test]
fn cache_freshness_window() {
    assert!(is_fresh_at(1000, 1000));
    assert!(is_fresh_at(1000, 1000 + CACHE_TTL_SECS - 1));
    assert!(!is_fresh_at(1000, 1000 + CACHE_TTL_SECS));
}
