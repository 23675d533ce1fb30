use weathrs::history::{missing_timestamps, HistoryRecord, HistoryStore};

fn create_test_record(city: &str, timestamp: i64) -> HistoryRecord {
    HistoryRecord {
        city: city.to_string(),
        lat: 41878100,
        lon: -87629800,
        timestamp,
        temperature: 2050,
        feels_like: 1900,
        humidity: 65,
        pressure: 1013,
        wind_speed: 550,
        wind_direction: Some(180),
        clouds: Some(40),
        visibility: Some(10000),
        description: Some("clear sky".to_string()),
        icon: Some("01d".to_string()),
        rain_1h: None,
        snow_1h: None,
        units: "metric".to_string(),
        fetched_at: 1700000000,
    }
}

#[test]
fn test_dedup_on_insert() {
    let mut repo = HistoryStore::new();
    let records = vec![
        create_test_record("Chicago", 1700000000),
        create_test_record("Chicago", 1700000000), // duplicate
    ];
    let inserted = repo.insert_batch(records);
    assert_eq!(inserted, 1); // Second should be ignored
    // Insert same record again
    let inserted2 = repo.insert_batch(vec![create_test_record("Chicago", 1700000000)]);
    assert_eq!(inserted2, 0); // Already exists
}

#[test]
fn dedup_never_overwrites() {
    let mut repo = HistoryStore::new();
    repo.insert_batch(vec![create_test_record("Chicago", 1)]);
    let mut newer = create_test_record("Chicago", 1);
    newer.temperature = 9999;
    assert_eq!(repo.insert_batch(vec![newer]), 0);
    assert_eq!(repo.len(), 1);
    // Another city or other units are other keys.
    let mut imperial = create_test_record("Chicago", 1);
    imperial.units = "imperial".to_string();
    assert_eq!(repo.insert_batch(vec![imperial, create_test_record("Paris", 1)]), 2);
    assert!(repo.has_data(&"Paris".to_string(), 1, &"metric".to_string()));
    assert!(!repo.has_data(&"Paris".to_string(), 2, &"metric".to_string()));
}

#[test]
fn test_missing_timestamps() {
    let mut repo = HistoryStore::new();
    // Insert data at hours 0 and 2, but not hour 1
    let base = 1700000000_i64;
    repo.insert_batch(vec![
        create_test_record("Chicago", base),
        create_test_record("Chicago", base + 7200), // skip 3600
    ]);
    let missing = repo.get_missing_timestamps(
        &"Chicago".to_string(),
        base,
        base + 7200,
        3600,
        &"metric".to_string(),
    );
    assert_eq!(missing.len(), 1);
    assert_eq!(missing[0], base + 3600);
}

#[test]
fn missing_buckets_edges() {
    assert_eq!(missing_timestamps(&vec![], 10, 5, 1), Vec::<i64>::new());
    assert_eq!(missing_timestamps(&vec![], 0, 0, 3600), vec![0]);
    assert_eq!(missing_timestamps(&vec![0, 3600], 0, 7199, 3600), Vec::<i64>::new());
    assert_eq!(missing_timestamps(&vec![3600], 0, 10800, 3600), vec![0, 7200, 10800]);
    assert_eq!(
        missing_timestamps(&vec![], i64::MAX - 1, i64::MAX, 3600),
        vec![i64::MAX - 1]
    );
}

#[test]
fn missing_buckets_ignore_other_cities() {
    let mut repo = HistoryStore::new();
    repo.insert_batch(vec![create_test_record("Paris", 0)]);
    let missing = repo.get_missing_timestamps(&"Chicago".to_string(), 0, 3600, 3600, &"metric".to_string());
    assert_eq!(missing, vec![0, 3600]);
}
