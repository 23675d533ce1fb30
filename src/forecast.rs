//! The forecast snapshot a job evaluates, in fixed-point integers:
//! temperatures in hundredths of a degree, coordinates in millionths of a
//! degree, precipitation chance in percent.
use vstd::prelude::*;
use vstd::string::*;

verus! {

/// Where a forecast is for.
pub struct LocationInfo {
    pub city: String,
    pub country: String,
    pub state: Option<String>,
    pub lat: i64,
    pub lon: i64,
}

/// Conditions now.
pub struct CurrentWeatherResponse {
    pub timestamp: i64,
    pub temperature: i64,
    pub feels_like: i64,
    pub humidity: u32,
    pub pressure: u32,
    pub clouds: u32,
    pub wind_direction: u32,
    pub description: String,
    pub icon: String,
    pub sunrise: Option<i64>,
    pub sunset: Option<i64>,
}

/// One day of forecast.
pub struct DailyForecastResponse {
    pub timestamp: i64,
    pub sunrise: i64,
    pub sunset: i64,
    pub summary: Option<String>,
    pub temp_min: i64,
    pub temp_max: i64,
    pub humidity: u32,
    pub pressure: u32,
    pub clouds: u32,
    pub wind_direction: u32,
    /// Chance of precipitation, 0 to 100.
    pub precipitation_probability: u32,
    pub description: String,
    pub icon: String,
}

/// A weather alert issued for the location.
pub struct AlertResponse {
    pub sender: String,
    pub event: String,
    pub start: i64,
    pub end: i64,
    pub description: String,
    pub tags: Option<Vec<String>>,
}

/// A condition as the upstream service describes it.
pub struct WeatherCondition {
    pub id: u32,
    pub main: String,
    pub description: String,
    pub icon: String,
}

/// An alert as the upstream service sends it.
pub struct WeatherAlert {
    pub sender_name: String,
    pub event: String,
    pub start: i64,
    pub end: i64,
    pub description: String,
    pub tags: Option<Vec<String>>,
}

/// City and units of a forecast request.
pub struct ForecastQuery {
    pub city: Option<String>,
    pub units: Option<String>,
}

/// A forecast snapshot.
pub struct ForecastResponse {
    pub location: LocationInfo,
    pub timezone: String,
    pub current: Option<CurrentWeatherResponse>,
    pub daily: Vec<DailyForecastResponse>,
    pub alerts: Vec<AlertResponse>,
}

/// Why a forecast could not be produced.
pub enum ForecastError {
    RequestError(String),
    CityNotFound(String),
    ApiError(String),
    InvalidResponse(String),
    SubscriptionRequired,
}

impl ForecastError {
    /// The HTTP status reported for this error.
    pub fn status_code(&self) -> (r: u16)
        ensures
            r == match self {
                ForecastError::CityNotFound(_) => 404u16,
                ForecastError::RequestError(_) => 502u16,
                ForecastError::ApiError(_) => 400u16,
                ForecastError::InvalidResponse(_) => 500u16,
                ForecastError::SubscriptionRequired => 402u16,
            },
    {
        match self {
            ForecastError::CityNotFound(_) => 404,
            ForecastError::RequestError(_) => 502,
            ForecastError::ApiError(_) => 400,
            ForecastError::InvalidResponse(_) => 500,
            ForecastError::SubscriptionRequired => 402,
        }
    }

    /// The machine-readable code reported for this error.
    pub fn error_code(&self) -> (r: String)
        ensures
            r@ == match self {
                ForecastError::CityNotFound(_) => "CITY_NOT_FOUND"@,
                ForecastError::RequestError(_) => "REQUEST_ERROR"@,
                ForecastError::ApiError(_) => "API_ERROR"@,
                ForecastError::InvalidResponse(_) => "INVALID_RESPONSE"@,
                ForecastError::SubscriptionRequired => "SUBSCRIPTION_REQUIRED"@,
            },
    {
        match self {
            ForecastError::CityNotFound(_) => String::from_str("CITY_NOT_FOUND"),
            ForecastError::RequestError(_) => String::from_str("REQUEST_ERROR"),
            ForecastError::ApiError(_) => String::from_str("API_ERROR"),
            ForecastError::InvalidResponse(_) => String::from_str("INVALID_RESPONSE"),
            ForecastError::SubscriptionRequired => String::from_str("SUBSCRIPTION_REQUIRED"),
        }
    }
}

} // verus!
