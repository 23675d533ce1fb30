//! Settings and their defaults.
use vstd::prelude::*;
use vstd::string::*;

verus! {

/// Which measurements a display shows.
pub struct DisplayConfig {
    pub temperature: bool,
    pub humidity: bool,
    pub wind_speed: bool,
    pub description: bool,
    pub feels_like: bool,
    pub pressure: bool,
    pub visibility: bool,
}

impl Default for DisplayConfig {
    /// Everything but pressure and visibility.
    fn default() -> (c: Self)
        ensures
            c.temperature && c.humidity && c.wind_speed && c.description && c.feels_like,
            !c.pressure && !c.visibility,
    {
        DisplayConfig {
            temperature: default_true(),
            humidity: default_true(),
            wind_speed: default_true(),
            description: default_true(),
            feels_like: default_true(),
            pressure: default_false(),
            visibility: default_false(),
        }
    }
}

/// Where history is stored.
pub struct DbConfig {
    pub url: String,
    pub max_connections: u32,
}

impl Default for DbConfig {
    /// The default database with five connections.
    fn default() -> (c: Self)
        ensures
            c.url@ == "sqlite:data/weathrs.db"@,
            c.max_connections == 5,
    {
        DbConfig { url: default_database_url(), max_connections: 5 }
    }
}

/// Address the server listens on by default.
pub fn default_host() -> (r: String)
    ensures
        r@ == "0.0.0.0"@,
{
    String::from_str("0.0.0.0")
}

/// Port the server listens on by default.
pub fn default_port() -> (r: u16)
    ensures
        r == 3000,
{
    3000
}

/// City used when a request names none.
pub fn default_city() -> (r: String)
    ensures
        r@ == "London"@,
{
    String::from_str("London")
}

/// Units used when a request names none.
pub fn default_units() -> (r: String)
    ensures
        r@ == "metric"@,
{
    String::from_str("metric")
}

/// Database used when none is configured.
pub fn default_database_url() -> (r: String)
    ensures
        r@ == "sqlite:data/weathrs.db"@,
{
    String::from_str("sqlite:data/weathrs.db")
}

pub fn default_true() -> (r: bool)
    ensures
        r,
{
    true
}

pub fn default_false() -> (r: bool)
    ensures
        !r,
{
    false
}

/// Settings of the history backfill.
pub struct HistoryBackfillConfig {
    pub enabled: bool,
    /// Cron expression of the backfill trigger.
    pub cron: String,
    /// Years of history to keep filled.
    pub max_years: u32,
    /// Metered calls allowed per UTC day.
    pub daily_budget: u32,
    /// Cities filled after the devices' and jobs' cities.
    pub fallback_cities: Vec<String>,
}

} // verus!
