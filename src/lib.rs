//! Scheduling, notification and history-backfill core of a weather service.
//!
//! The logic here is verified; the network, the file system and the cron
//! engine are driven by the caller, which hands results back in. The few calls
//! into std and outside crates (the clock, text case and trimming, cron and
//! time-zone parsing, base64, identifiers, an ordered set) sit behind small
//! trusted wrappers whose contracts name what each call is relied on for.

pub mod api;
pub mod backfill;
pub mod budget;
pub mod cache;
pub mod clock;
pub mod config;
pub mod devices;
pub mod executor;
pub mod expo;
pub mod forecast;
pub mod history;
pub mod jobs;
pub mod location;
pub mod notifications;
pub mod ranges;
pub mod requests;
pub mod scheduler;
pub mod text;
pub mod trend;
