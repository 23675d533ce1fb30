use weathrs::api::{CityParam, DeviceApiKey, ErrorResponse, UnitsParam};
use weathrs::config::{default_city, default_host, default_port, DbConfig, DisplayConfig};
use weathrs::devices::DeviceResponse;

#[test]
fn defaults() {
    let d = DisplayConfig::default();
    assert!(d.temperature && d.humidity && d.wind_speed && d.description && d.feels_like);
    assert!(!d.pressure && !d.visibility);
    let db = DbConfig::default();
    assert_eq!(db.url, "sqlite:data/weathrs.db");
    assert_eq!(db.max_connections, 5);
    assert_eq!(default_host(), "0.0.0.0");
    assert_eq!(default_port(), 3000);
    assert_eq!(default_city(), "London");
}

#[test]
fn params_fall_back_to_defaults() {
    assert_eq!(CityParam(None).or_default("London"), "London");
    assert_eq!(CityParam(Some("Paris".to_string())).or_default("London"), "Paris");
    assert_eq!(CityParam(Some("Oslo".to_string())).into_inner(), Some("Oslo".to_string()));
    assert_eq!(UnitsParam(None).or_default("metric"), "metric");
}

#[test]
fn responses() {
    let e = ErrorResponse::with_code("City not found", "CITY_NOT_FOUND");
    assert_eq!(e.code, Some("CITY_NOT_FOUND".to_string()));
    assert!(ErrorResponse::new("x").code.is_none());
    let ok = DeviceResponse::success(Some("id".to_string()));
    assert!(ok.success && ok.message.is_none());
    let err = DeviceResponse::error("nope");
    assert!(!err.success && err.message == Some("nope".to_string()));
}

#[test]
fn device_api_key() {
    assert!(DeviceApiKey(None).allows(None));
    let key = DeviceApiKey(Some("SECRET-REDACTED".to_string()));
    assert!(key.allows(Some("SECRET-REDACTED")));
    assert!(!key.allows(Some("other")));
    assert!(!key.allows(None));
}
