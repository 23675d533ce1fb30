use weathrs::jobs::{ForecastJob, JobConfig, JobStorage, NotifyConfig};
use weathrs::scheduler::{SchedulerError, SchedulerService};

fn create_test_job(id: &str) -> ForecastJob {
    ForecastJob {
        id: id.to_string(),
        name: format!("Test Job {}", id),
        city: "Chicago".to_string(),
        units: "metric".to_string(),
        cron: "0 0 7 * * *".to_string(),
        timezone: "America/Chicago".to_string(),
        include_daily: true,
        include_hourly: false,
        enabled: true,
        notify: NotifyConfig {
            on_run: true,
            on_alert: true,
            on_precipitation: false,
            cold_threshold: Some(0),
            heat_threshold: Some(3500),
        },
    }
}

fn service() -> SchedulerService {
    SchedulerService::new(JobStorage::new())
}

#[test]
fn test_upsert_and_get() {
    let mut repo = JobStorage::new();
    let job = create_test_job("test-job-1");
    repo.upsert(job.duplicate());
    let retrieved = repo.get("test-job-1");
    assert!(retrieved.is_some());
    let retrieved = retrieved.unwrap();
    assert_eq!(retrieved.id, job.id);
    assert_eq!(retrieved.name, job.name);
    assert_eq!(retrieved.city, job.city);
    assert_eq!(retrieved.notify.cold_threshold, Some(0));
}

#[test]
fn test_get_enabled() {
    let mut repo = JobStorage::new();
    let job1 = create_test_job("job1");
    let mut job2 = create_test_job("job2");
    job2.enabled = false;
    repo.upsert(job1);
    repo.upsert(job2);
    let enabled = repo.get_enabled();
    assert_eq!(enabled.len(), 1);
    assert_eq!(enabled[0].id, "job1");
}

#[test]
fn test_exists() {
    let mut repo = JobStorage::new();
    assert!(!repo.has_job("nonexistent"));
    repo.upsert(create_test_job("exists-job"));
    assert!(repo.has_job("exists-job"));
}

#[test]
fn job_repo_test_remove() {
    let mut repo = JobStorage::new();
    repo.upsert(create_test_job("job-to-remove"));
    assert!(repo.remove("job-to-remove"));
    assert!(repo.get("job-to-remove").is_none());
    assert!(!repo.remove("job-to-remove"));
}

#[test]
fn job_repo_test_count() {
    let mut repo = JobStorage::new();
    assert_eq!(repo.count(), 0);
    repo.upsert(create_test_job("job1"));
    repo.upsert(create_test_job("job2"));
    assert_eq!(repo.count(), 2);
}

#[test]
fn test_update_existing() {
    let mut repo = JobStorage::new();
    let mut job = create_test_job("update-test");
    repo.upsert(job.duplicate());
    job.city = "London".to_string();
    job.enabled = false;
    repo.upsert(job);
    let retrieved = repo.get("update-test").unwrap();
    assert_eq!(retrieved.city, "London");
    assert!(!retrieved.enabled);
    assert_eq!(repo.count(), 1);
}

#[test]
fn new_job_defaults() {
    let job = ForecastJob::new("Morning", "Chicago", "0 30 5 * * *").with_timezone("Europe/Paris");
    assert_eq!(job.units, "metric");
    assert_eq!(job.timezone, "Europe/Paris");
    assert!(job.include_daily && !job.include_hourly && job.enabled);
    assert!(!job.notify.on_run && job.notify.cold_threshold.is_none());
    assert_eq!(job.id.len(), 36);
    let other = ForecastJob::new("Morning", "Chicago", "0 30 5 * * *");
    assert_ne!(job.id, other.id);
}

#[test]
fn create_job_with_bad_cron_is_rejected() {
    let mut s = service();
    let mut job = create_test_job("bad-cron");
    job.cron = "not-a-cron".to_string();
    let r = s.create_job(job);
    assert!(matches!(r, Err(SchedulerError::InvalidCron(ref c)) if c == "not-a-cron"));
    assert!(s.get_jobs().is_empty());
    assert!(s.get_job("bad-cron").is_none());
}

#[test]
fn create_job_with_bad_timezone_is_rejected() {
    let mut s = service();
    let mut job = create_test_job("bad-tz");
    job.timezone = "Mars/Olympus_Mons".to_string();
    let r = s.create_job(job);
    assert!(matches!(r, Err(SchedulerError::InvalidTimezone(ref t)) if t == "Mars/Olympus_Mons"));
    assert!(s.get_jobs().is_empty());
}

#[test]
fn create_job_checks_cron_before_timezone() {
    let mut s = service();
    let mut job = create_test_job("both-bad");
    job.cron = "nope".to_string();
    job.timezone = "Nowhere".to_string();
    assert!(matches!(s.create_job(job), Err(SchedulerError::InvalidCron(_))));
}

#[test]
fn create_then_schedule_then_delete() {
    let mut s = service();
    let created = s.create_job(create_test_job("j1"));
    assert!(created.is_ok());
    assert_eq!(s.job_count(), 1);
    assert_eq!(s.jobs_to_schedule().len(), 1);
    s.record_schedule("j1", 42);
    assert_eq!(s.scheduled_handle("j1"), Some(42));
    assert!(s.delete_job("j1"));
    assert_eq!(s.scheduled_handle("j1"), None);
    assert!(s.get_job("j1").is_none());
    assert!(!s.delete_job("j1"));
}

#[test]
fn unschedule_is_idempotent() {
    let mut s = service();
    assert_eq!(s.unschedule_job("missing"), None);
    s.create_job(create_test_job("j")).ok().unwrap();
    s.record_schedule("j", 7);
    assert_eq!(s.unschedule_job("j"), Some(7));
    assert_eq!(s.unschedule_job("j"), None);
    // Disabling keeps the record.
    assert!(s.get_job("j").is_some());
}

#[test]
fn update_job_rules() {
    let mut s = service();
    let missing = s.update_job(create_test_job("ghost"));
    assert!(matches!(missing, Err(SchedulerError::NotFound(ref id)) if id == "ghost"));
    s.create_job(create_test_job("u")).ok().unwrap();
    s.record_schedule("u", 9);
    let mut bad = create_test_job("u");
    bad.cron = "bad".to_string();
    assert!(matches!(s.update_job(bad), Err(SchedulerError::InvalidCron(_))));
    assert_eq!(s.scheduled_handle("u"), Some(9));
    let mut changed = create_test_job("u");
    changed.city = "Paris".to_string();
    changed.enabled = false;
    let change = s.update_job(changed).ok().unwrap();
    assert_eq!(change.unschedule, Some(9));
    assert!(!change.schedule);
    assert_eq!(s.get_job("u").unwrap().city, "Paris");
    assert_eq!(s.scheduled_handle("u"), None);
    assert!(s.jobs_to_schedule().is_empty());
}

#[test]
fn load_jobs_skips_existing_and_invalid() {
    let mut s = service();
    let mut stored = create_test_job("a");
    stored.city = "Stored".to_string();
    s.create_job(stored).ok().unwrap();
    let mut from_config = create_test_job("a");
    from_config.city = "Config".to_string();
    let mut invalid = create_test_job("b");
    invalid.cron = "never".to_string();
    let config = JobConfig { jobs: vec![from_config, invalid, create_test_job("c")] };
    let added = s.load_jobs(&config);
    assert_eq!(added.len(), 1);
    assert_eq!(added[0].job.id, "c");
    assert!(added[0].schedule);
    assert_eq!(s.get_job("a").unwrap().city, "Stored");
    assert!(s.get_job("b").is_none());
    assert_eq!(s.job_count(), 2);
    // Loading again adds nothing.
    assert!(s.load_jobs(&config).is_empty());
}

#[test]
fn accepted_jobs_are_scheduled_iff_enabled() {
    let mut s = service();
    let change = s.create_job(create_test_job("on")).ok().unwrap();
    assert!(change.schedule);
    assert_eq!(change.unschedule, None);
    assert_eq!(change.job.id, "on");
    let mut off = create_test_job("off");
    off.enabled = false;
    let change = s.create_job(off).ok().unwrap();
    assert!(!change.schedule);
    assert_eq!(s.job_count(), 2);
}

#[test]
fn rejected_update_keeps_job_and_handle() {
    let mut s = service();
    s.create_job(create_test_job("k")).ok().unwrap();
    s.record_schedule("k", 3);
    let mut bad = create_test_job("k");
    bad.timezone = "Nowhere/Else".to_string();
    bad.city = "Rome".to_string();
    assert!(matches!(s.update_job(bad), Err(SchedulerError::InvalidTimezone(_))));
    assert_eq!(s.get_job("k").unwrap().city, "Chicago");
    assert_eq!(s.scheduled_handle("k"), Some(3));
}
