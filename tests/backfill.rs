use weathrs::backfill::{backfill_window, build_city_list, BackfillAction, BackfillRun};
use weathrs::budget::ApiCallBudget;
use weathrs::devices::{broadcast_tokens, tokens_for_city, Device, Platform};
use weathrs::jobs::ForecastJob;

fn device(token: &str, cities: &[&str], enabled: bool) -> Device {
    Device {
        id: format!("id-{}", token),
        token: token.to_string(),
        platform: Platform::Android,
        device_name: Some("Test Device".to_string()),
        app_version: Some("1.0.0".to_string()),
        cities: cities.iter().map(|c| c.to_string()).collect(),
        units: "metric".to_string(),
        enabled,
        registered_at: 1700000000,
        updated_at: 1700000000,
    }
}

fn job(city: &str, enabled: bool) -> ForecastJob {
    let mut j = ForecastJob::new("job", city, "0 0 7 * * *");
    j.enabled = enabled;
    j
}

#[test]
fn city_list_priority_and_dedup() {
    let devices = vec![
        device("a", &["Chicago", "London"], true),
        device("b", &["Paris", "Chicago"], true),
        device("c", &["Tokyo"], false),
    ];
    let jobs = vec![job("Berlin", true), job("Oslo", false), job("Paris", true)];
    let fallback = vec!["London".to_string(), "Madrid".to_string()];
    let cities = build_city_list(&devices, &jobs, &fallback);
    assert_eq!(cities, vec!["Chicago", "Paris", "London", "Berlin", "Madrid"]);
}

#[test]
fn city_list_empty() {
    assert!(build_city_list(&vec![], &vec![], &vec![]).is_empty());
}

#[test]
fn window_spans_whole_years() {
    assert_eq!(backfill_window(1_000_000_000, 1), (1_000_000_000 - 365 * 86400, 1_000_000_000));
    assert_eq!(backfill_window(i64::MIN + 5, 2), (i64::MIN, i64::MIN + 5));
}

/// Drives a run where every city has `needs` missing buckets; returns the
/// cities prepared and the fetches made.
fn drive(cities: &[&str], needs: usize, budget: &mut ApiCallBudget) -> (Vec<String>, Vec<(String, i64)>) {
    let mut run = BackfillRun::new(cities.iter().map(|c| c.to_string()).collect());
    let mut prepared = Vec::new();
    let mut fetched = Vec::new();
    loop {
        match run.next_action_on(budget, 500) {
            BackfillAction::PrepareCity(c) => {
                prepared.push(c);
                run.city_ready((0..needs as i64).map(|h| h * 3600).collect());
            }
            BackfillAction::Fetch { city, bucket } => {
                fetched.push((city, bucket));
                run.record_inserted(24);
            }
            BackfillAction::Finish => break,
        }
    }
    assert!(run.is_finished());
    (prepared, fetched)
}

#[test]
fn backfill_stops_when_budget_is_spent() {
    // Budget of 2, four cities each needing one call: two cities are filled,
    // the rest are left for the next run.
    let mut budget = ApiCallBudget::new_on(2, 500);
    let (prepared, fetched) = drive(&["A", "B", "C", "D"], 1, &mut budget);
    assert_eq!(prepared, vec!["A", "B"]);
    assert_eq!(fetched, vec![("A".to_string(), 0), ("B".to_string(), 0)]);
    assert_eq!(budget.remaining_on(500), 0);
}

#[test]
fn backfill_stops_mid_city_and_ends_the_run() {
    let mut budget = ApiCallBudget::new_on(3, 500);
    let (prepared, fetched) = drive(&["A", "B"], 5, &mut budget);
    assert_eq!(prepared, vec!["A"]);
    assert_eq!(fetched.len(), 3);
    assert!(fetched.iter().all(|(c, _)| c == "A"));
}

#[test]
fn backfill_skips_failed_and_full_cities() {
    let mut budget = ApiCallBudget::new_on(10, 500);
    let mut run = BackfillRun::new(vec!["A".to_string(), "B".to_string(), "C".to_string()]);
    assert!(matches!(run.next_action_on(&mut budget, 500), BackfillAction::PrepareCity(ref c) if c == "A"));
    run.city_failed();
    assert!(matches!(run.next_action_on(&mut budget, 500), BackfillAction::PrepareCity(ref c) if c == "B"));
    run.city_ready(vec![]);
    assert!(matches!(run.next_action_on(&mut budget, 500), BackfillAction::PrepareCity(ref c) if c == "C"));
    run.city_ready(vec![7200]);
    assert!(matches!(run.next_action_on(&mut budget, 500), BackfillAction::Fetch { ref city, bucket: 7200 } if city == "C"));
    run.record_inserted(5);
    assert!(matches!(run.next_action_on(&mut budget, 500), BackfillAction::Finish));
    assert!(matches!(run.next_action_on(&mut budget, 500), BackfillAction::Finish));
    assert_eq!(run.total_inserted(), 5);
    assert_eq!(budget.used_today_on(500), 1);
}

#[test]
fn exhausted_budget_touches_no_city() {
    let mut budget = ApiCallBudget::new_on(0, 500);
    let (prepared, fetched) = drive(&["A"], 1, &mut budget);
    assert!(prepared.is_empty() && fetched.is_empty());
}

#[test]
fn test_get_by_city() {
    let device1 = device("token1", &["Chicago", "London"], true);
    let device2 = device("token2", &["Paris"], true);
    let devices = vec![device1, device2];
    assert_eq!(tokens_for_city(&devices, "Chicago"), vec!["token1"]);
    assert_eq!(tokens_for_city(&devices, "Paris"), vec!["token2"]);
}

#[test]
fn city_subscription_ignores_case_and_takes_all_when_empty() {
    let devices = vec![
        device("t1", &["CHICAGO"], true),
        device("t2", &[], true),
        device("t3", &["chicago"], false),
    ];
    assert_eq!(tokens_for_city(&devices, "Chicago"), vec!["t1", "t2"]);
}

#[test]
fn broadcast_reaches_enabled_devices() {
    let devices = vec![device("t1", &["A"], true), device("t2", &[], false), device("t3", &["B"], true)];
    assert_eq!(broadcast_tokens(&devices), vec!["t1", "t3"]);
}
