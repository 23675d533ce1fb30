//! Job create and update requests, and how they become stored jobs.
//! Thresholds are in hundredths of a degree.
use vstd::prelude::*;
use crate::jobs::{ForecastJob, NotifyConfig, random_job_id};

verus! {

/// Notification settings in a request; absent triggers take defaults.
pub struct NotifyConfigRequest {
    pub on_run: Option<bool>,
    pub on_alert: Option<bool>,
    pub on_precipitation: Option<bool>,
    pub cold_threshold: Option<i64>,
    pub heat_threshold: Option<i64>,
}

/// A request to create a job.
pub struct CreateJobRequest {
    pub name: String,
    pub city: String,
    pub units: String,
    pub cron: String,
    pub timezone: String,
    pub include_daily: bool,
    pub include_hourly: bool,
    pub enabled: bool,
    pub notify: Option<NotifyConfigRequest>,
}

/// A request to change a job; absent fields keep their stored value.
pub struct UpdateJobRequest {
    pub name: Option<String>,
    pub city: Option<String>,
    pub units: Option<String>,
    pub cron: Option<String>,
    pub timezone: Option<String>,
    pub include_daily: Option<bool>,
    pub include_hourly: Option<bool>,
    pub enabled: Option<bool>,
    pub notify: Option<NotifyConfigRequest>,
}

/// `o`'s value, or `d` when absent.
pub open spec fn or_else<T>(o: Option<T>, d: T) -> T {
    match o {
        Some(v) => v,
        None => d,
    }
}

/// `o` when present, else `d`.
pub open spec fn either<T>(o: Option<T>, d: Option<T>) -> Option<T> {
    match o {
        Some(v) => Some(v),
        None => d,
    }
}

/// The settings of a new job: notify on every run and on alerts unless told
/// otherwise, not on precipitation; all off when the request gives none.
pub open spec fn new_notify(n: Option<NotifyConfigRequest>) -> NotifyConfig {
    match n {
        Some(n) => NotifyConfig {
            on_run: or_else(n.on_run, true),
            on_alert: or_else(n.on_alert, true),
            on_precipitation: or_else(n.on_precipitation, false),
            cold_threshold: n.cold_threshold,
            heat_threshold: n.heat_threshold,
        },
        None => NotifyConfig {
            on_run: false,
            on_alert: false,
            on_precipitation: false,
            cold_threshold: None,
            heat_threshold: None,
        },
    }
}

/// The settings of a changed job: each given field replaces the stored one.
pub open spec fn merged_notify(n: Option<NotifyConfigRequest>, old: NotifyConfig) -> NotifyConfig {
    match n {
        Some(n) => NotifyConfig {
            on_run: or_else(n.on_run, old.on_run),
            on_alert: or_else(n.on_alert, old.on_alert),
            on_precipitation: or_else(n.on_precipitation, old.on_precipitation),
            cold_threshold: either(n.cold_threshold, old.cold_threshold),
            heat_threshold: either(n.heat_threshold, old.heat_threshold),
        },
        None => old,
    }
}

fn unwrap_or<T>(o: Option<T>, d: T) -> (r: T)
    ensures
        r == or_else(o, d),
{
    match o {
        Some(v) => v,
        None => d,
    }
}

fn first_of<T>(o: Option<T>, d: Option<T>) -> (r: Option<T>)
    ensures
        r == either(o, d),
{
    match o {
        Some(v) => Some(v),
        None => d,
    }
}

impl CreateJobRequest {
    /// The job this request describes, under `id`.
    pub fn into_job(self, id: String) -> (j: ForecastJob)
        ensures
            j == (ForecastJob {
                id,
                name: self.name,
                city: self.city,
                units: self.units,
                cron: self.cron,
                timezone: self.timezone,
                include_daily: self.include_daily,
                include_hourly: self.include_hourly,
                enabled: self.enabled,
                notify: new_notify(self.notify),
            }),
    {
        let notify = match self.notify {
            Some(n) => NotifyConfig {
                on_run: unwrap_or(n.on_run, true),
                on_alert: unwrap_or(n.on_alert, true),
                on_precipitation: unwrap_or(n.on_precipitation, false),
                cold_threshold: n.cold_threshold,
                heat_threshold: n.heat_threshold,
            },
            None => NotifyConfig::off(),
        };
        ForecastJob {
            id,
            name: self.name,
            city: self.city,
            units: self.units,
            cron: self.cron,
            timezone: self.timezone,
            include_daily: self.include_daily,
            include_hourly: self.include_hourly,
            enabled: self.enabled,
            notify,
        }
    }

    /// The job this request describes, under a fresh random id.
    pub fn into_new_job(self) -> (j: ForecastJob)
        ensures
            j == (ForecastJob {
                id: j.id,
                name: self.name,
                city: self.city,
                units: self.units,
                cron: self.cron,
                timezone: self.timezone,
                include_daily: self.include_daily,
                include_hourly: self.include_hourly,
                enabled: self.enabled,
                notify: new_notify(self.notify),
            }),
    {
        let id = random_job_id();
        self.into_job(id)
    }
}

/// The stored job with the request's changes applied; the id never changes.
pub fn merge_update(existing: ForecastJob, request: UpdateJobRequest) -> (j: ForecastJob)
    ensures
        j == (ForecastJob {
            id: existing.id,
            name: or_else(request.name, existing.name),
            city: or_else(request.city, existing.city),
            units: or_else(request.units, existing.units),
            cron: or_else(request.cron, existing.cron),
            timezone: or_else(request.timezone, existing.timezone),
            include_daily: or_else(request.include_daily, existing.include_daily),
            include_hourly: or_else(request.include_hourly, existing.include_hourly),
            enabled: or_else(request.enabled, existing.enabled),
            notify: merged_notify(request.notify, existing.notify),
        }),
{
    let old = existing.notify;
    let notify = match request.notify {
        Some(n) => NotifyConfig {
            on_run: unwrap_or(n.on_run, old.on_run),
            on_alert: unwrap_or(n.on_alert, old.on_alert),
            on_precipitation: unwrap_or(n.on_precipitation, old.on_precipitation),
            cold_threshold: first_of(n.cold_threshold, old.cold_threshold),
            heat_threshold: first_of(n.heat_threshold, old.heat_threshold),
        },
        None => old,
    };
    ForecastJob {
        id: existing.id,
        name: unwrap_or(request.name, existing.name),
        city: unwrap_or(request.city, existing.city),
        units: unwrap_or(request.units, existing.units),
        cron: unwrap_or(request.cron, existing.cron),
        timezone: unwrap_or(request.timezone, existing.timezone),
        include_daily: unwrap_or(request.include_daily, existing.include_daily),
        include_hourly: unwrap_or(request.include_hourly, existing.include_hourly),
        enabled: unwrap_or(request.enabled, existing.enabled),
        notify,
    }
}

} // verus!
