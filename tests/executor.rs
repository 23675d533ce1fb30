use weathrs::executor::{build_notification_message, failure_message, should_notify_for_forecast, tick_outcome};
use weathrs::forecast::{
    AlertResponse, CurrentWeatherResponse, DailyForecastResponse, ForecastResponse, LocationInfo,
};
use weathrs::jobs::NotifyConfig;
use weathrs::notifications::Priority;

fn create_test_forecast(
    current_temp: Option<i64>,
    alerts: Vec<AlertResponse>,
    daily_precip_prob: u32,
) -> ForecastResponse {
    ForecastResponse {
        location: LocationInfo {
            city: "Chicago".to_string(),
            country: "US".to_string(),
            state: Some("Illinois".to_string()),
            lat: 41878100,
            lon: -87629800,
        },
        timezone: "America/Chicago".to_string(),
        current: current_temp.map(|temp| CurrentWeatherResponse {
            timestamp: 1700000000,
            temperature: temp,
            feels_like: temp - 100,
            humidity: 65,
            pressure: 1013,
            clouds: 40,
            wind_direction: 180,
            description: "clear sky".to_string(),
            icon: "01d".to_string(),
            sunrise: Some(1699980000),
            sunset: Some(1700020000),
        }),
        daily: vec![DailyForecastResponse {
            timestamp: 1700000000,
            sunrise: 1699980000,
            sunset: 1700020000,
            summary: Some("Clear skies".to_string()),
            temp_min: 1500,
            temp_max: 2500,
            humidity: 60,
            pressure: 1013,
            clouds: 20,
            wind_direction: 180,
            precipitation_probability: daily_precip_prob,
            description: "clear sky".to_string(),
            icon: "01d".to_string(),
        }],
        alerts,
    }
}

fn heat_alert() -> AlertResponse {
    AlertResponse {
        sender: "NWS".to_string(),
        event: "Heat Advisory".to_string(),
        start: 1700000000,
        end: 1700100000,
        description: "Heat warning".to_string(),
        tags: None,
    }
}

#[test]
fn test_should_notify_on_run_true() {
    let forecast = create_test_forecast(Some(2000), vec![], 0);
    let mut config = NotifyConfig::off();
    config.on_run = true;
    assert!(should_notify_for_forecast(&forecast, &config));
}

#[test]
fn test_should_notify_on_run_false() {
    let forecast = create_test_forecast(Some(2000), vec![], 0);
    let config = NotifyConfig::off();
    assert!(!should_notify_for_forecast(&forecast, &config));
}

#[test]
fn test_should_notify_on_alert_with_alerts() {
    let forecast = create_test_forecast(Some(3500), vec![heat_alert()], 0);
    let mut config = NotifyConfig::off();
    config.on_alert = true;
    assert!(should_notify_for_forecast(&forecast, &config));
}

#[test]
fn test_should_notify_on_alert_without_alerts() {
    let forecast = create_test_forecast(Some(2000), vec![], 0);
    let mut config = NotifyConfig::off();
    config.on_alert = true;
    assert!(!should_notify_for_forecast(&forecast, &config));
}

#[test]
fn test_should_notify_on_precipitation_high_chance() {
    let forecast = create_test_forecast(Some(2000), vec![], 75);
    let mut config = NotifyConfig::off();
    config.on_precipitation = true;
    assert!(should_notify_for_forecast(&forecast, &config));
}

#[test]
fn test_should_notify_on_precipitation_low_chance() {
    let forecast = create_test_forecast(Some(2000), vec![], 30);
    let mut config = NotifyConfig::off();
    config.on_precipitation = true;
    assert!(!should_notify_for_forecast(&forecast, &config));
}

#[test]
fn test_should_notify_cold_threshold_triggered() {
    let forecast = create_test_forecast(Some(-500), vec![], 0);
    let mut config = NotifyConfig::off();
    config.cold_threshold = Some(0);
    assert!(should_notify_for_forecast(&forecast, &config));
}

#[test]
fn test_should_notify_cold_threshold_not_triggered() {
    let forecast = create_test_forecast(Some(1000), vec![], 0);
    let mut config = NotifyConfig::off();
    config.cold_threshold = Some(0);
    assert!(!should_notify_for_forecast(&forecast, &config));
}

#[test]
fn test_should_notify_heat_threshold_triggered() {
    let forecast = create_test_forecast(Some(3800), vec![], 0);
    let mut config = NotifyConfig::off();
    config.heat_threshold = Some(3500);
    assert!(should_notify_for_forecast(&forecast, &config));
}

#[test]
fn test_should_notify_heat_threshold_not_triggered() {
    let forecast = create_test_forecast(Some(2500), vec![], 0);
    let mut config = NotifyConfig::off();
    config.heat_threshold = Some(3500);
    assert!(!should_notify_for_forecast(&forecast, &config));
}

#[test]
fn test_should_notify_no_current_weather() {
    let forecast = create_test_forecast(None, vec![], 0);
    let mut config = NotifyConfig::off();
    config.cold_threshold = Some(0);
    // Should not notify since there's no current weather to check
    assert!(!should_notify_for_forecast(&forecast, &config));
}

#[test]
fn precipitation_at_exactly_half_does_not_trigger() {
    let forecast = create_test_forecast(Some(2000), vec![], 50);
    let mut config = NotifyConfig::off();
    config.on_precipitation = true;
    assert!(!should_notify_for_forecast(&forecast, &config));
}

#[test]
fn message_without_alerts() {
    let forecast = create_test_forecast(Some(2000), vec![], 0);
    let m = build_notification_message(&forecast);
    assert_eq!(m.title, "Chicago, US");
    assert_eq!(m.body, "Now: 20.0 (feels 19.0)\nclear sky\nToday: 15 - 25\nClear skies");
    assert!(m.priority == Priority::Default);
    assert_eq!(m.tags, vec!["sunny".to_string(), "weather".to_string()]);
    assert_eq!(m.city, Some("Chicago".to_string()));
}

#[test]
fn message_with_alerts_and_rain() {
    let forecast = create_test_forecast(Some(-1234), vec![heat_alert()], 75);
    let m = build_notification_message(&forecast);
    assert_eq!(
        m.body,
        "Now: -12.3 (feels -13.3)\nclear sky\nToday: 15 - 25\nRain: 75% chance\nClear skies\n\nWEATHER ALERTS:\n- Heat Advisory\n"
    );
    assert!(m.priority == Priority::Urgent);
    assert_eq!(m.tags, vec!["warning".to_string(), "weather".to_string()]);
}

#[test]
fn message_rounds_halves_away_from_zero() {
    let mut forecast = create_test_forecast(Some(2005), vec![], 0);
    forecast.daily[0].temp_min = 1450;
    forecast.daily[0].temp_max = -1450;
    forecast.daily[0].summary = None;
    let m = build_notification_message(&forecast);
    assert_eq!(m.body, "Now: 20.1 (feels 19.1)\nclear sky\nToday: 15 - -15\n");
}

#[test]
fn message_without_current_or_daily() {
    let mut forecast = create_test_forecast(None, vec![], 0);
    forecast.daily.clear();
    let m = build_notification_message(&forecast);
    assert_eq!(m.body, "");
}

#[test]
fn failure_notification() {
    let m = failure_message("Morning", "Chicago", "timeout");
    assert_eq!(m.title, "Weather Alert: Morning Failed");
    assert_eq!(m.body, "Failed to fetch forecast for Chicago: timeout");
    assert!(m.priority == Priority::High);
    assert_eq!(m.tags, vec!["warning".to_string()]);
}

#[test]
fn tick_decisions() {
    let config = NotifyConfig::off();
    let failed: Result<ForecastResponse, String> = Err("boom".to_string());
    let m = tick_outcome("Job", "Paris", &config, &failed).unwrap();
    assert_eq!(m.body, "Failed to fetch forecast for Paris: boom");
    assert!(m.priority == Priority::High);
    assert_eq!(m.city, Some("Paris".to_string()));
    assert_eq!(m.tags, vec!["warning".to_string()]);
    let quiet = Ok(create_test_forecast(Some(2000), vec![], 0));
    assert!(tick_outcome("Job", "Chicago", &config, &quiet).is_none());
    let mut on_run = NotifyConfig::off();
    on_run.on_run = true;
    let m = tick_outcome("Job", "Chicago", &on_run, &quiet).unwrap();
    assert_eq!(m.title, "Chicago, US");
    assert!(m.priority == Priority::Default);
    assert_eq!(m.city, Some("Chicago".to_string()));
}
