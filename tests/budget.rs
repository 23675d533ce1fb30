use weathrs::budget::{utc_day, ApiCallBudget};

#[test]
fn test_record_call_within_budget() {
    let mut budget = ApiCallBudget::new(3);
    assert!(budget.record_call());
    assert!(budget.record_call());
    assert!(budget.record_call());
    // 4th call exceeds budget
    assert!(!budget.record_call());
}

#[test]
fn test_remaining() {
    let mut budget = ApiCallBudget::new(10);
    assert_eq!(budget.remaining(), 10);
    budget.record_call();
    assert_eq!(budget.remaining(), 9);
}

#[test]
fn test_used_today() {
    let mut budget = ApiCallBudget::new(100);
    assert_eq!(budget.used_today(), 0);
    budget.record_call();
    budget.record_call();
    assert_eq!(budget.used_today(), 2);
}

#[test]
fn budget_exact_limit_then_refusal() {
    for limit in [0u32, 1, 2, 5] {
        let mut budget = ApiCallBudget::new_on(limit, 20000);
        for _ in 0..limit {
            assert!(budget.record_call_on(20000));
        }
        assert!(!budget.record_call_on(20000));
        assert_eq!(budget.remaining_on(20000), 0);
        assert_eq!(budget.used_today_on(20000), limit + 1);
    }
}

#[test]
fn budget_over_limit_calls_are_counted() {
    let mut budget = ApiCallBudget::new_on(1, 7);
    assert!(budget.record_call_on(7));
    assert!(!budget.record_call_on(7));
    assert!(!budget.record_call_on(7));
    assert_eq!(budget.used_today_on(7), 3);
    assert_eq!(budget.remaining_on(7), 0);
}

#[test]
fn budget_resets_once_per_day() {
    let mut budget = ApiCallBudget::new_on(2, 100);
    budget.record_call_on(100);
    budget.record_call_on(100);
    assert!(!budget.record_call_on(100));
    // The first access on the next day resets the count.
    assert_eq!(budget.used_today_on(101), 0);
    assert!(budget.record_call_on(101));
    // Later accesses on that day do not reset it again.
    assert_eq!(budget.used_today_on(101), 1);
    assert_eq!(budget.remaining_on(101), 1);
    budget.maybe_reset_on(101);
    assert_eq!(budget.used_today_on(101), 1);
}

#[test]
fn utc_day_rounds_down() {
    assert_eq!(utc_day(0), 0);
    assert_eq!(utc_day(86399), 0);
    assert_eq!(utc_day(86400), 1);
    assert_eq!(utc_day(1700000000), 19675);
    assert_eq!(utc_day(-1), -1);
    assert_eq!(utc_day(-86400), -1);
    assert_eq!(utc_day(-86401), -2);
}
