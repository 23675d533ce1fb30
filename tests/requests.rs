use weathrs::api::TriggerResponse;
use weathrs::devices::{apply_settings, register_device, Device, DeviceRegistrationRequest, DeviceSettingsRequest, Platform};
use weathrs::forecast::ForecastError;
use weathrs::jobs::{ForecastJob, NotifyConfig};
use weathrs::ranges::{days_to_fetch, history_range, trend_range, HistoryError};
use weathrs::requests::{merge_update, CreateJobRequest, NotifyConfigRequest, UpdateJobRequest};

fn create_request(notify: Option<NotifyConfigRequest>) -> CreateJobRequest {
    CreateJobRequest {
        name: "Morning".to_string(),
        city: "Chicago".to_string(),
        units: "metric".to_string(),
        cron: "0 30 5 * * *".to_string(),
        timezone: "UTC".to_string(),
        include_daily: true,
        include_hourly: false,
        enabled: true,
        notify,
    }
}

#[test]
fn create_request_notify_defaults() {
    let j = create_request(None).into_job("id1".to_string());
    assert_eq!(j.id, "id1");
    assert!(!j.notify.on_run && !j.notify.on_alert && !j.notify.on_precipitation);
    let given = NotifyConfigRequest {
        on_run: None,
        on_alert: Some(false),
        on_precipitation: None,
        cold_threshold: Some(-500),
        heat_threshold: None,
    };
    let j = create_request(Some(given)).into_new_job();
    assert!(j.notify.on_run && !j.notify.on_alert && !j.notify.on_precipitation);
    assert_eq!(j.notify.cold_threshold, Some(-500));
    assert_eq!(j.id.len(), 36);
}

#[test]
fn update_request_merges_fields() {
    let existing = ForecastJob {
        id: "u".to_string(),
        name: "Old".to_string(),
        city: "Chicago".to_string(),
        units: "metric".to_string(),
        cron: "0 0 7 * * *".to_string(),
        timezone: "UTC".to_string(),
        include_daily: true,
        include_hourly: false,
        enabled: true,
        notify: NotifyConfig {
            on_run: true,
            on_alert: false,
            on_precipitation: false,
            cold_threshold: Some(0),
            heat_threshold: None,
        },
    };
    let request = UpdateJobRequest {
        name: None,
        city: Some("London".to_string()),
        units: None,
        cron: None,
        timezone: Some("Europe/London".to_string()),
        include_daily: None,
        include_hourly: Some(true),
        enabled: Some(false),
        notify: Some(NotifyConfigRequest {
            on_run: None,
            on_alert: Some(true),
            on_precipitation: None,
            cold_threshold: None,
            heat_threshold: Some(3000),
        }),
    };
    let j = merge_update(existing, request);
    assert_eq!(j.id, "u");
    assert_eq!(j.name, "Old");
    assert_eq!(j.city, "London");
    assert_eq!(j.timezone, "Europe/London");
    assert!(j.include_daily && j.include_hourly && !j.enabled);
    assert!(j.notify.on_run && j.notify.on_alert);
    assert_eq!(j.notify.cold_threshold, Some(0));
    assert_eq!(j.notify.heat_threshold, Some(3000));
}

#[test]
fn test_default_date_range() {
    // When start is None, it defaults to end - 7 days
    let now = 1_700_000_000;
    let (start, end) = history_range(None, None, now).ok().unwrap();
    assert_eq!(end - start, 7 * 86400);
    assert_eq!(end, now);
}

#[test]
fn history_range_rejects_inverted() {
    let r = history_range(Some(10), Some(10), 0);
    assert!(matches!(r, Err(HistoryError::InvalidDateRange(ref m)) if m == "start must be before end"));
    assert_eq!(history_range(Some(5), Some(10), 0).ok(), Some((5, 10)));
}

#[test]
fn trend_ranges() {
    let now = 1_000_000_000;
    assert_eq!(trend_range("30d", None, None, now).ok(), Some((now - 30 * 86400, now)));
    assert!(matches!(trend_range("1y", None, None, now), Err(HistoryError::InvalidDateRange(_))));
    assert_eq!(trend_range("bogus", Some(0), Some(365 * 86400 + 86399), now).ok(), Some((0, 365 * 86400 + 86399)));
    let too_long = trend_range("7d", Some(0), Some(366 * 86400), now);
    assert!(matches!(too_long, Err(HistoryError::InvalidDateRange(ref m)) if m == "custom range cannot exceed 365 days"));
    assert!(matches!(trend_range("7d", Some(5), Some(5), now), Err(HistoryError::InvalidDateRange(_))));
}

#[test]
fn fetch_days_are_capped_at_ninety_noons() {
    let days: Vec<i64> = (0..100).map(|d| d * 86400).collect();
    let r = days_to_fetch(&days);
    assert_eq!(r.len(), 90);
    assert_eq!(r[0], 43200);
    assert_eq!(r[89], 89 * 86400 + 43200);
    assert_eq!(days_to_fetch(&vec![i64::MAX]), vec![i64::MAX]);
}

#[test]
fn error_codes() {
    assert_eq!(HistoryError::SubscriptionRequired.status_code(), 402);
    assert_eq!(HistoryError::CityNotFound("x".to_string()).error_code(), "CITY_NOT_FOUND");
    assert_eq!(ForecastError::RequestError("x".to_string()).status_code(), 502);
    assert_eq!(ForecastError::InvalidResponse("x".to_string()).error_code(), "INVALID_RESPONSE");
}

#[test]
fn trigger_response() {
    let r = TriggerResponse::triggered("Paris");
    assert_eq!(r.status, "success");
    assert_eq!(r.message, "Forecast triggered for Paris");
}

fn registration(token: &str) -> DeviceRegistrationRequest {
    DeviceRegistrationRequest {
        token: token.to_string(),
        platform: Platform::Ios,
        device_name: Some("Phone".to_string()),
        app_version: Some("2.0".to_string()),
        cities: vec!["Paris".to_string()],
        units: "metric".to_string(),
        enabled: true,
    }
}

#[test]
fn test_upsert_and_get_by_token() {
    let new = register_device(None, registration("test_token_123"), 100, "dev-1".to_string());
    assert_eq!(new.id, "dev-1");
    assert_eq!(new.token, "test_token_123");
    assert_eq!(new.registered_at, 100);
    let again = register_device(Some(new), registration("test_token_123"), 200, "dev-2".to_string());
    assert_eq!(again.id, "dev-1");
    assert_eq!(again.registered_at, 100);
    assert_eq!(again.updated_at, 200);
    assert_eq!(again.cities, vec!["Paris".to_string()]);
}

#[test]
fn settings_update_only_given_fields() {
    let d: Device = register_device(None, registration("t"), 1, "id".to_string());
    let changed = apply_settings(
        d,
        DeviceSettingsRequest { token: "t".to_string(), enabled: Some(false), cities: None, units: None },
        5,
    );
    assert!(!changed.enabled);
    assert_eq!(changed.cities, vec!["Paris".to_string()]);
    assert_eq!(changed.units, "metric");
    assert_eq!(changed.updated_at, 5);
}
