//! What one firing of a forecast job decides: whether to notify, and the
//! message to send.
use vstd::prelude::*;
use vstd::string::*;
use crate::forecast::{AlertResponse, CurrentWeatherResponse, DailyForecastResponse, ForecastResponse};
use crate::jobs::NotifyConfig;
use crate::notifications::{NotificationMessage, Priority};
use crate::text::{digit_char, nat_numeral, int_numeral, push_char, push_int, push_nat, push_text};
use crate::trend::{div_round, rounded_quotient};

verus! {

/// A day's precipitation chance, in percent, above which a job notifies.
pub const PRECIPITATION_TRIGGER: u32 = 50;

/// Whether a forecast warrants a notification under `config`: any one of
/// the triggers suffices.
pub open spec fn notify_wanted(f: ForecastResponse, config: NotifyConfig) -> bool {
    ||| config.on_run
    ||| config.on_alert && f.alerts@.len() > 0
    ||| config.on_precipitation && exists|i: int|
        0 <= i < f.daily@.len() && (#[trigger] f.daily@[i]).precipitation_probability
            > PRECIPITATION_TRIGGER
    ||| f.current matches Some(c) && (config.cold_threshold matches Some(t) && c.temperature < t)
    ||| f.current matches Some(c) && (config.heat_threshold matches Some(t) && c.temperature > t)
}

/// Decides whether `forecast` warrants a notification under `config`.
pub fn should_notify_for_forecast(forecast: &ForecastResponse, config: &NotifyConfig) -> (r: bool)
    ensures
        r == notify_wanted(*forecast, *config),
{
    if config.on_run {
        return true;
    }
    if config.on_alert && forecast.alerts.len() > 0 {
        return true;
    }
    if config.on_precipitation {
        let mut i: usize = 0;
        while i < forecast.daily.len()
            invariant
                config.on_precipitation,
                i <= forecast.daily@.len(),
                forall|j: int|
                    0 <= j < i ==> (#[trigger] forecast.daily@[j]).precipitation_probability
                        <= PRECIPITATION_TRIGGER,
            decreases forecast.daily.len() - i,
        {
            if forecast.daily[i].precipitation_probability > PRECIPITATION_TRIGGER {
                assert(forecast.daily@[i as int].precipitation_probability > PRECIPITATION_TRIGGER);
                assert(config.on_precipitation && exists|j: int|
                    0 <= j < forecast.daily@.len() && (#[trigger] forecast.daily@[j]).precipitation_probability
                        > PRECIPITATION_TRIGGER);
                return true;
            }
            i = i + 1;
        }
    }
    if let Some(current) = &forecast.current {
        if let Some(cold) = config.cold_threshold {
            if current.temperature < cold {
                return true;
            }
        }
        if let Some(heat) = config.heat_threshold {
            if current.temperature > heat {
                return true;
            }
        }
    }
    false
}

/// A value in hundredths written with one decimal, rounded half away from zero.
pub open spec fn one_decimal(h: int) -> Seq<char> {
    let t = div_round(h, 10);
    let a = if t < 0 { -t } else { t };
    (if t < 0 { "-"@ } else { ""@ }) + nat_numeral((a / 10) as nat) + "."@ + seq![digit_char(a % 10)]
}

/// A value in hundredths written as a whole number, rounded half away from zero.
pub open spec fn no_decimals(h: int) -> Seq<char> {
    int_numeral(div_round(h, 100))
}

/// The lines about current conditions.
pub open spec fn current_part(c: Option<CurrentWeatherResponse>) -> Seq<char> {
    match c {
        None => ""@,
        Some(c) => "Now: "@ + one_decimal(c.temperature as int) + " (feels "@ + one_decimal(
            c.feels_like as int,
        ) + ")\n"@ + c.description@ + "\n"@,
    }
}

/// The lines about today.
pub open spec fn today_part(days: Seq<DailyForecastResponse>) -> Seq<char> {
    if days.len() == 0 {
        ""@
    } else {
        let d = days[0];
        "Today: "@ + no_decimals(d.temp_min as int) + " - "@ + no_decimals(d.temp_max as int)
            + "\n"@ + (if d.precipitation_probability > 0 {
            "Rain: "@ + nat_numeral(d.precipitation_probability as nat) + "% chance\n"@
        } else {
            ""@
        }) + match d.summary {
            Some(s) => s@,
            None => ""@,
        }
    }
}

/// One line per alert among the first `k`.
pub open spec fn alert_lines(alerts: Seq<AlertResponse>, k: nat) -> Seq<char>
    decreases k,
{
    if k == 0 {
        ""@
    } else {
        alert_lines(alerts, (k - 1) as nat) + "- "@ + alerts[k - 1].event@ + "\n"@
    }
}

/// The alert section, present only when there are alerts.
pub open spec fn alert_part(alerts: Seq<AlertResponse>) -> Seq<char> {
    if alerts.len() == 0 {
        ""@
    } else {
        "\n\nWEATHER ALERTS:\n"@ + alert_lines(alerts, alerts.len())
    }
}

/// The body of the message for a forecast.
pub open spec fn message_body(f: ForecastResponse) -> Seq<char> {
    current_part(f.current) + today_part(f.daily@) + alert_part(f.alerts@)
}

fn push_one_decimal(s: &mut String, h: i64)
    ensures
        final(s)@ == old(s)@ + one_decimal(h as int),
{
    proof {
        assert(-0x8000_0000_0000_0000 <= div_round(h as int, 10) <= 0x8000_0000_0000_0000) by {
            let x = h as int;
            if x >= 0 {
                assert((2 * x + 10) / 20 <= x + 1) by (nonlinear_arith)
                    requires
                        x >= 0,
                ;
            } else {
                assert((-2 * x + 10) / 20 <= -x + 1) by (nonlinear_arith)
                    requires
                        x < 0,
                ;
            }
        }
    }
    let t = rounded_quotient(h as i128, 10);
    let a: u64 = if t < 0 { (-t) as u64 } else { t as u64 };
    if t < 0 {
        push_char(s, '-');
    }
    let ghost mid = s@;
    push_nat(s, a / 10);
    push_char(s, '.');
    push_nat(s, a % 10);
    proof {
        reveal_strlit("-");
        reveal_strlit("");
        reveal_strlit(".");
        assert(nat_numeral((a % 10) as nat) == seq![digit_char((a % 10) as int)]);
        assert(s@ =~= old(s)@ + one_decimal(h as int));
    }
}

fn push_no_decimals(s: &mut String, h: i64)
    ensures
        final(s)@ == old(s)@ + no_decimals(h as int),
{
    proof {
        let x = h as int;
        if x >= 0 {
            assert((2 * x + 100) / 200 <= x) by (nonlinear_arith)
                requires
                    x >= 0,
                    x < 0x8000_0000_0000_0000,
            ;
        } else {
            assert((-2 * x + 100) / 200 <= -x) by (nonlinear_arith)
                requires
                    x < 0,
            ;
        }
    }
    let t = rounded_quotient(h as i128, 100);
    push_int(s, t as i64);
}

fn push_current_part(body: &mut String, current: &Option<CurrentWeatherResponse>)
    ensures
        final(body)@ == old(body)@ + current_part(*current),
{
    proof {
        reveal_strlit("");
    }
    if let Some(c) = current {
        push_text(body, "Now: ");
        push_one_decimal(body, c.temperature);
        push_text(body, " (feels ");
        push_one_decimal(body, c.feels_like);
        push_text(body, ")\n");
        push_text(body, c.description.as_str());
        push_text(body, "\n");
    }
    assert(body@ =~= old(body)@ + current_part(*current));
}

fn push_today_part(body: &mut String, daily: &Vec<DailyForecastResponse>)
    ensures
        final(body)@ == old(body)@ + today_part(daily@),
{
    proof {
        reveal_strlit("");
    }
    if daily.len() > 0 {
        let today = &daily[0];
        push_text(body, "Today: ");
        push_no_decimals(body, today.temp_min);
        push_text(body, " - ");
        push_no_decimals(body, today.temp_max);
        push_text(body, "\n");
        let ghost head = body@;
        if today.precipitation_probability > 0 {
            push_text(body, "Rain: ");
            push_nat(body, today.precipitation_probability as u64);
            push_text(body, "% chance\n");
        }
        let ghost mid = body@;
        if let Some(summary) = &today.summary {
            push_text(body, summary.as_str());
        }
        let ghost rain = if today.precipitation_probability > 0 {
            "Rain: "@ + nat_numeral(today.precipitation_probability as nat) + "% chance\n"@
        } else {
            ""@
        };
        let ghost tail = match daily@[0].summary {
            Some(x) => x@,
            None => ""@,
        };
        assert(mid =~= head + rain);
        assert(body@ =~= mid + tail);
    }
    assert(body@ =~= old(body)@ + today_part(daily@));
}

fn push_alert_part(body: &mut String, alerts: &Vec<AlertResponse>)
    ensures
        final(body)@ == old(body)@ + alert_part(alerts@),
{
    proof {
        reveal_strlit("");
    }
    if alerts.len() > 0 {
        push_text(body, "\n\nWEATHER ALERTS:\n");
        let ghost head = body@;
        let mut i: usize = 0;
        while i < alerts.len()
            invariant
                i <= alerts@.len(),
                body@ == head + alert_lines(alerts@, i as nat),
            decreases alerts.len() - i,
        {
            push_text(body, "- ");
            push_text(body, alerts[i].event.as_str());
            push_text(body, "\n");
            proof {
                assert(body@ =~= head + alert_lines(alerts@, (i + 1) as nat));
            }
            i = i + 1;
        }
    }
    assert(body@ =~= old(body)@ + alert_part(alerts@));
}

/// `m` is the message for forecast `f`: titled "<city>, <country>", with
/// the body above, urgent and tagged as a warning when alerts are present,
/// else of default priority, and naming the city.
pub open spec fn is_forecast_message(m: NotificationMessage, f: ForecastResponse) -> bool {
    &&& m.title@ == f.location.city@ + ", "@ + f.location.country@
    &&& m.body@ == message_body(f)
    &&& f.alerts@.len() > 0 ==> m.priority == Priority::Urgent && m.tags@.len() == 2
        && m.tags@[0]@ == "warning"@ && m.tags@[1]@ == "weather"@
    &&& f.alerts@.len() == 0 ==> m.priority == Priority::Default && m.tags@.len() == 2
        && m.tags@[0]@ == "sunny"@ && m.tags@[1]@ == "weather"@
    &&& m.city matches Some(c) && c@ == f.location.city@
}

/// `m` is the high-priority notice that job `job_name` could not fetch the
/// forecast for `city` because of `error`.
pub open spec fn is_failure_message(
    m: NotificationMessage,
    job_name: Seq<char>,
    city: Seq<char>,
    error: Seq<char>,
) -> bool {
    &&& m.title@ == "Weather Alert: "@ + job_name + " Failed"@
    &&& m.body@ == "Failed to fetch forecast for "@ + city + ": "@ + error
    &&& m.priority == Priority::High
    &&& m.tags@.len() == 1 && m.tags@[0]@ == "warning"@
    &&& m.city matches Some(c) && c@ == city
}

/// The message for a forecast; see `is_forecast_message`.
pub fn build_notification_message(forecast: &ForecastResponse) -> (m: NotificationMessage)
    ensures
        is_forecast_message(m, *forecast),
{
    let mut body = String::new();
    push_current_part(&mut body, &forecast.current);
    push_today_part(&mut body, &forecast.daily);
    push_alert_part(&mut body, &forecast.alerts);
    assert(body@ =~= message_body(*forecast));
    let has_alerts = forecast.alerts.len() > 0;
    let priority = if has_alerts {
        Priority::Urgent
    } else {
        Priority::Default
    };
    let tags = if has_alerts {
        vec![String::from_str("warning"), String::from_str("weather")]
    } else {
        vec![String::from_str("sunny"), String::from_str("weather")]
    };
    let mut title = forecast.location.city.clone();
    push_text(&mut title, ", ");
    push_text(&mut title, forecast.location.country.as_str());
    NotificationMessage { title, body, priority, tags, city: Some(forecast.location.city.clone()) }
}

/// The high-priority message sent when a job's forecast could not be fetched.
pub fn failure_message(job_name: &str, city: &str, error: &str) -> (m: NotificationMessage)
    ensures
        is_failure_message(m, job_name@, city@, error@),
{
    let mut title = String::from_str("Weather Alert: ");
    push_text(&mut title, job_name);
    push_text(&mut title, " Failed");
    let mut body = String::from_str("Failed to fetch forecast for ");
    push_text(&mut body, city);
    push_text(&mut body, ": ");
    push_text(&mut body, error);
    NotificationMessage {
        title,
        body,
        priority: Priority::High,
        tags: vec![String::from_str("warning")],
        city: Some(String::from_str(city)),
    }
}

/// What one firing of a job sends, given the outcome of fetching its
/// forecast: on failure the failure message (no retry within the firing); on
/// success the forecast message when the job's triggers want one, else nothing.
pub fn tick_outcome(
    job_name: &str,
    city: &str,
    config: &NotifyConfig,
    fetched: &Result<ForecastResponse, String>,
) -> (r: Option<NotificationMessage>)
    ensures
        match fetched {
            Err(e) => r matches Some(m) && is_failure_message(m, job_name@, city@, e@),
            Ok(f) => if notify_wanted(*f, *config) {
                r matches Some(m) && is_forecast_message(m, *f)
            } else {
                r is None
            },
        },
{
    match fetched {
        Err(e) => Some(failure_message(job_name, city, e.as_str())),
        Ok(f) => {
            if should_notify_for_forecast(f, config) {
                Some(build_notification_message(f))
            } else {
                None
            }
        },
    }
}

} // verus!
