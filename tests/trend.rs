use weathrs::trend::{compute_trend_summary, format_period, round_2, DailyHistorySummary};

fn make_daily(date: &str, temp_avg: i64, temp_min: i64, temp_max: i64) -> DailyHistorySummary {
    DailyHistorySummary {
        date: date.to_string(),
        temp_min,
        temp_max,
        temp_avg,
        humidity_avg: 6000,
        wind_speed_avg: 500,
        precipitation_total: 0,
        dominant_condition: Some("clear sky".to_string()),
    }
}

#[test]
fn test_trend_calculation_rising() {
    let days = vec![
        make_daily("2024-01-01", 1000, 500, 1500),
        make_daily("2024-01-02", 1200, 700, 1700),
        make_daily("2024-01-03", 1400, 900, 1900),
        make_daily("2024-01-04", 1600, 1100, 2100),
        make_daily("2024-01-05", 1800, 1300, 2300),
    ];
    let summary = compute_trend_summary(&days);
    assert_eq!(summary.temp_trend, "rising");
    assert_eq!(summary.max_temp.value, 2300);
    assert_eq!(summary.min_temp.value, 500);
}

#[test]
fn test_trend_calculation_falling() {
    let days = vec![
        make_daily("2024-01-01", 2000, 1500, 2500),
        make_daily("2024-01-02", 1800, 1300, 2300),
        make_daily("2024-01-03", 1600, 1100, 2100),
        make_daily("2024-01-04", 1400, 900, 1900),
        make_daily("2024-01-05", 1200, 700, 1700),
    ];
    let summary = compute_trend_summary(&days);
    assert_eq!(summary.temp_trend, "falling");
}

#[test]
fn test_trend_calculation_stable() {
    let days = vec![
        make_daily("2024-01-01", 1500, 1000, 2000),
        make_daily("2024-01-02", 1505, 1000, 2000),
        make_daily("2024-01-03", 1495, 1000, 2000),
        make_daily("2024-01-04", 1500, 1000, 2000),
        make_daily("2024-01-05", 1502, 1000, 2000),
    ];
    let summary = compute_trend_summary(&days);
    assert_eq!(summary.temp_trend, "stable");
}

#[test]
fn test_trend_empty_days() {
    let summary = compute_trend_summary(&vec![]);
    assert_eq!(summary.temp_trend, "stable");
    assert_eq!(summary.avg_temp, 0);
    assert_eq!(summary.avg_humidity, 0);
    assert_eq!(summary.total_precipitation, 0);
    assert_eq!(summary.max_temp.date, "");
}

#[test]
fn test_format_period() {
    assert_eq!(format_period(0, 7 * 86400), "7d");
    assert_eq!(format_period(0, 30 * 86400), "30d");
}

#[test]
fn format_period_truncates_partial_days() {
    assert_eq!(format_period(0, 86399), "0d");
    assert_eq!(format_period(100, 100 + 90 * 86400 + 5), "90d");
    assert_eq!(format_period(86400 * 2, 0), "-2d");
}

#[test]
fn test_round_2() {
    // Thousandths to hundredths: 15.456 -> 15.46, 15.0 -> 15.0, 15.005 -> 15.01
    assert_eq!(round_2(15456), 1546);
    assert_eq!(round_2(15000), 1500);
    assert_eq!(round_2(15005), 1501);
}

#[test]
fn round_2_halves_away_from_zero() {
    assert_eq!(round_2(-15005), -1501);
    assert_eq!(round_2(-15004), -1500);
    assert_eq!(round_2(4), 0);
    assert_eq!(round_2(5), 1);
}

#[test]
fn trend_single_day_is_stable() {
    let days = vec![make_daily("2024-01-01", 1000, 500, 1500)];
    let summary = compute_trend_summary(&days);
    assert_eq!(summary.temp_trend, "stable");
    assert_eq!(summary.avg_temp, 1000);
}

#[test]
fn trend_threshold_is_a_tenth_per_day() {
    // A slope of exactly 0.1 per day is not above the threshold.
    let at = vec![make_daily("d1", 1000, 0, 0), make_daily("d2", 1010, 0, 0)];
    assert_eq!(compute_trend_summary(&at).temp_trend, "stable");
    let above = vec![make_daily("d1", 1000, 0, 0), make_daily("d2", 1011, 0, 0)];
    assert_eq!(compute_trend_summary(&above).temp_trend, "rising");
    let below = vec![make_daily("d1", 1000, 0, 0), make_daily("d2", 989, 0, 0)];
    assert_eq!(compute_trend_summary(&below).temp_trend, "falling");
}

#[test]
fn trend_summary_statistics() {
    let mut days = vec![
        make_daily("2024-01-01", 1000, 500, 2300),
        make_daily("2024-01-02", 1001, 400, 2300),
        make_daily("2024-01-03", 1000, 400, 2000),
    ];
    days[0].precipitation_total = 125;
    days[2].precipitation_total = 75;
    days[1].humidity_avg = 6001;
    let summary = compute_trend_summary(&days);
    // (1000 + 1001 + 1000) / 3 = 1000.33 -> 1000
    assert_eq!(summary.avg_temp, 1000);
    // (6000 + 6001 + 6000) / 3 -> 6000
    assert_eq!(summary.avg_humidity, 6000);
    assert_eq!(summary.total_precipitation, 200);
    // Highest maximum: the last day holding it; lowest minimum: the first.
    assert_eq!(summary.max_temp.value, 2300);
    assert_eq!(summary.max_temp.date, "2024-01-02");
    assert_eq!(summary.min_temp.value, 400);
    assert_eq!(summary.min_temp.date, "2024-01-02");
}
