//! Time ranges of history queries, the errors they report, and the days a
//! single request fetches.
use vstd::prelude::*;
use vstd::string::*;

verus! {

/// Days of history a query covers when it gives no start.
pub const DEFAULT_RANGE_DAYS: i64 = 7;

/// Most days fetched from upstream for one request.
pub const MAX_DAYS_PER_REQUEST: usize = 90;

/// Longest custom trend range, in days.
pub const MAX_CUSTOM_RANGE_DAYS: i64 = 365;

/// Why a history request failed.
pub enum HistoryError {
    RequestError(String),
    CityNotFound(String),
    ApiError(String),
    DatabaseError(String),
    InvalidDateRange(String),
    SubscriptionRequired,
}

impl HistoryError {
    /// The HTTP status reported for this error.
    pub fn status_code(&self) -> (r: u16)
        ensures
            r == match self {
                HistoryError::CityNotFound(_) => 404u16,
                HistoryError::RequestError(_) => 502u16,
                HistoryError::ApiError(_) => 400u16,
                HistoryError::DatabaseError(_) => 500u16,
                HistoryError::InvalidDateRange(_) => 400u16,
                HistoryError::SubscriptionRequired => 402u16,
            },
    {
        match self {
            HistoryError::CityNotFound(_) => 404,
            HistoryError::RequestError(_) => 502,
            HistoryError::ApiError(_) => 400,
            HistoryError::DatabaseError(_) => 500,
            HistoryError::InvalidDateRange(_) => 400,
            HistoryError::SubscriptionRequired => 402,
        }
    }

    /// The machine-readable code reported for this error.
    pub fn error_code(&self) -> (r: String)
        ensures
            r@ == match self {
                HistoryError::CityNotFound(_) => "CITY_NOT_FOUND"@,
                HistoryError::RequestError(_) => "REQUEST_ERROR"@,
                HistoryError::ApiError(_) => "API_ERROR"@,
                HistoryError::DatabaseError(_) => "DATABASE_ERROR"@,
                HistoryError::InvalidDateRange(_) => "INVALID_DATE_RANGE"@,
                HistoryError::SubscriptionRequired => "SUBSCRIPTION_REQUIRED"@,
            },
    {
        match self {
            HistoryError::CityNotFound(_) => String::from_str("CITY_NOT_FOUND"),
            HistoryError::RequestError(_) => String::from_str("REQUEST_ERROR"),
            HistoryError::ApiError(_) => String::from_str("API_ERROR"),
            HistoryError::DatabaseError(_) => String::from_str("DATABASE_ERROR"),
            HistoryError::InvalidDateRange(_) => String::from_str("INVALID_DATE_RANGE"),
            HistoryError::SubscriptionRequired => String::from_str("SUBSCRIPTION_REQUIRED"),
        }
    }
}

/// `r` is an invalid-range error with this explanation.
pub open spec fn is_invalid_range<T>(r: Result<T, HistoryError>, why: Seq<char>) -> bool {
    match r {
        Err(HistoryError::InvalidDateRange(m)) => m@ == why,
        _ => false,
    }
}

/// `a - b`, or the smallest instant when that is below it.
pub open spec fn minus_clamped(a: int, b: int) -> int {
    if a - b >= i64::MIN {
        a - b
    } else {
        i64::MIN as int
    }
}

fn minus_days(t: i64, days: i64) -> (r: i64)
    requires
        0 <= days <= MAX_CUSTOM_RANGE_DAYS,
    ensures
        r == minus_clamped(t as int, days * 86400),
{
    let x = t as i128 - (days as i128) * 86400;
    if x >= i64::MIN as i128 {
        x as i64
    } else {
        i64::MIN
    }
}

/// The range of a history query: `end` defaults to `now`, `start` to a week
/// before the end; a start not before the end is rejected.
pub fn history_range(start: Option<i64>, end: Option<i64>, now: i64) -> (r: Result<(i64, i64), HistoryError>)
    ensures
        ({
            let e = match end {
                Some(e) => e as int,
                None => now as int,
            };
            let s = match start {
                Some(s) => s as int,
                None => minus_clamped(e, DEFAULT_RANGE_DAYS * 86400),
            };
            &&& s < e ==> r == Ok::<(i64, i64), HistoryError>((s as i64, e as i64))
            &&& s >= e ==> is_invalid_range(r, "start must be before end"@)
        }),
{
    let end_ts = match end {
        Some(e) => e,
        None => now,
    };
    let start_ts = match start {
        Some(s) => s,
        None => minus_days(end_ts, DEFAULT_RANGE_DAYS),
    };
    if start_ts >= end_ts {
        return Err(HistoryError::InvalidDateRange(String::from_str("start must be before end")));
    }
    Ok((start_ts, end_ts))
}

/// Days in a named trend period, if the name is one of "7d", "30d", "90d".
pub open spec fn period_days(period: Seq<char>) -> Option<int> {
    if period == "7d"@ {
        Some(7)
    } else if period == "30d"@ {
        Some(30)
    } else if period == "90d"@ {
        Some(90)
    } else {
        None
    }
}

/// The range of a trends query: a custom range when both ends are given
/// (start before end, at most 365 whole days), else a named period ending
/// `now`.
pub fn trend_range(period: &str, custom_start: Option<i64>, custom_end: Option<i64>, now: i64) -> (r:
    Result<(i64, i64), HistoryError>)
    ensures
        match (custom_start, custom_end) {
            (Some(s), Some(e)) => if s >= e {
                is_invalid_range(r, "start must be before end"@)
            } else if (e - s) / 86400 > MAX_CUSTOM_RANGE_DAYS {
                is_invalid_range(r, "custom range cannot exceed 365 days"@)
            } else {
                r == Ok::<(i64, i64), HistoryError>((s, e))
            },
            _ => match period_days(period@) {
                None => is_invalid_range(r, "period must be 7d, 30d, or 90d"@),
                Some(d) => r == Ok::<(i64, i64), HistoryError>(
                    (minus_clamped(now as int, d * 86400) as i64, now),
                ),
            },
        },
{
    if let (Some(s), Some(e)) = (custom_start, custom_end) {
        if s >= e {
            return Err(HistoryError::InvalidDateRange(String::from_str("start must be before end")));
        }
        let span = ((e as i128 - s as i128) as u128) / 86400;
        if span > MAX_CUSTOM_RANGE_DAYS as u128 {
            return Err(
                HistoryError::InvalidDateRange(String::from_str("custom range cannot exceed 365 days")),
            );
        }
        return Ok((s, e));
    }
    let p = String::from_str(period);
    let days: i64 = if p == String::from_str("7d") {
        7
    } else if p == String::from_str("30d") {
        30
    } else if p == String::from_str("90d") {
        90
    } else {
        return Err(HistoryError::InvalidDateRange(String::from_str("period must be 7d, 30d, or 90d")));
    };
    Ok((minus_days(now, days), now))
}

/// Noon of a UTC day given by its midnight, capped at the largest instant.
pub open spec fn noon_of(day: int) -> int {
    if day + 43200 <= i64::MAX {
        day + 43200
    } else {
        i64::MAX as int
    }
}

/// The instants fetched for a request: noon of each of the first
/// `MAX_DAYS_PER_REQUEST` missing days, in order.
pub fn days_to_fetch(missing_days: &Vec<i64>) -> (r: Vec<i64>)
    ensures
        r@.len() == if missing_days@.len() < MAX_DAYS_PER_REQUEST {
            missing_days@.len() as int
        } else {
            MAX_DAYS_PER_REQUEST as int
        },
        forall|i: int| 0 <= i < r@.len() ==> #[trigger] r@[i] == noon_of(missing_days@[i] as int),
{
    let mut out: Vec<i64> = Vec::new();
    let mut i: usize = 0;
    while i < missing_days.len() && i < MAX_DAYS_PER_REQUEST
        invariant
            i <= missing_days@.len(),
            i <= MAX_DAYS_PER_REQUEST,
            out@.len() == i,
            forall|j: int| 0 <= j < i ==> #[trigger] out@[j] == noon_of(missing_days@[j] as int),
        decreases missing_days.len() - i,
    {
        let d = missing_days[i];
        let noon = if d <= i64::MAX - 43200 {
            d + 43200
        } else {
            i64::MAX
        };
        out.push(noon);
        i = i + 1;
    }
    out
}

} // verus!
