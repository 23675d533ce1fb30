//! Shapes of requests and answers exchanged with clients.
use vstd::prelude::*;
use vstd::string::*;
use crate::text::push_text;

verus! {

/// An error reported to a client, with a machine-readable code when known.
pub struct ErrorResponse {
    pub error: String,
    pub code: Option<String>,
}

impl ErrorResponse {
    pub fn new(error: &str) -> (r: Self)
        ensures
            r.error@ == error@,
            r.code is None,
    {
        ErrorResponse { error: String::from_str(error), code: None }
    }

    pub fn with_code(error: &str, code: &str) -> (r: Self)
        ensures
            r.error@ == error@,
            r.code matches Some(c) && c@ == code@,
    {
        ErrorResponse { error: String::from_str(error), code: Some(String::from_str(code)) }
    }
}

/// City and units given in a query string.
pub struct WeatherQuery {
    pub city: Option<String>,
    pub units: Option<String>,
}

/// A city taken from the path or, failing that, the query.
pub struct CityParam(pub Option<String>);

impl CityParam {
    /// The city, or `default` when none was given.
    pub fn or_default(self, default: &str) -> (r: String)
        ensures
            match self.0 {
                Some(c) => r == c,
                None => r@ == default@,
            },
    {
        match self.0 {
            Some(c) => c,
            None => String::from_str(default),
        }
    }

    /// The city, if one was given.
    pub fn into_inner(self) -> (r: Option<String>)
        ensures
            r == self.0,
    {
        self.0
    }
}

/// Units taken from the query.
pub struct UnitsParam(pub Option<String>);

impl UnitsParam {
    /// The units, or `default` when none were given.
    pub fn or_default(self, default: &str) -> (r: String)
        ensures
            match self.0 {
                Some(u) => r == u,
                None => r@ == default@,
            },
    {
        match self.0 {
            Some(u) => u,
            None => String::from_str(default),
        }
    }
}

/// Why a city could not be taken from a request.
pub struct CityParamRejection(pub String);

/// A request to run a forecast notification now.
pub struct TriggerRequest {
    pub city: String,
    pub units: Option<String>,
}

/// The answer to a manual trigger.
pub struct TriggerResponse {
    pub status: String,
    pub message: String,
}

impl TriggerResponse {
    /// The answer to a manual trigger for `city`.
    pub fn triggered(city: &str) -> (r: Self)
        ensures
            r.status@ == "success"@,
            r.message@ == "Forecast triggered for "@ + city@,
    {
        let mut message = String::from_str("Forecast triggered for ");
        push_text(&mut message, city);
        TriggerResponse { status: String::from_str("success"), message }
    }
}

/// The scheduler's state as reported to clients.
pub struct SchedulerStatus {
    pub running: bool,
    pub job_count: usize,
    pub notifications_configured: bool,
}

/// Time range of a history query.
pub struct HistoryQuery {
    pub start: Option<i64>,
    pub end: Option<i64>,
    pub units: Option<String>,
}

/// Period or range of a trends query.
pub struct TrendsQuery {
    pub period: Option<String>,
    pub units: Option<String>,
    pub start: Option<i64>,
    pub end: Option<i64>,
}

/// The key that device endpoints require, when one is configured.
pub struct DeviceApiKey(pub Option<String>);

impl DeviceApiKey {
    /// Whether a request presenting `presented` may use the device endpoints:
    /// always when no key is configured, else only with that exact key.
    pub fn allows(&self, presented: Option<&str>) -> (r: bool)
        ensures
            match self.0 {
                None => r,
                Some(k) => r == (presented matches Some(p) && p@ == k@),
            },
    {
        match &self.0 {
            None => true,
            Some(k) => match presented {
                None => false,
                Some(p) => {
                    let given = String::from_str(p);
                    given == *k
                },
            },
        }
    }
}

} // verus!
