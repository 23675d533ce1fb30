//! Registered devices and the subscription rule that picks a city's recipients.
use vstd::prelude::*;
use vstd::string::*;
use crate::cache::{lowercase_text, lowercased};

verus! {

/// Why a device operation failed.
pub enum DevicesError {
    NotFound,
    Storage(String),
    NotificationError(String),
}

/// Platform of a registered device.
#[derive(Clone, Copy, PartialEq, Eq, Structural)]
pub enum Platform {
    Ios,
    Android,
    Web,
}

/// A device registered for push notifications.
pub struct Device {
    pub id: String,
    /// Push token the device is addressed by.
    pub token: String,
    pub platform: Platform,
    pub device_name: Option<String>,
    pub app_version: Option<String>,
    /// Cities it wants notifications for; the first is its home location.
    pub cities: Vec<String>,
    pub units: String,
    pub enabled: bool,
    pub registered_at: i64,
    pub updated_at: i64,
}

/// A request to register a device.
pub struct DeviceRegistrationRequest {
    pub token: String,
    pub platform: Platform,
    pub device_name: Option<String>,
    pub app_version: Option<String>,
    pub cities: Vec<String>,
    pub units: String,
    pub enabled: bool,
}

/// A request to unregister a device.
pub struct DeviceUnregisterRequest {
    pub token: String,
}

/// A request to change a device's settings; absent fields stay as they are.
pub struct DeviceSettingsRequest {
    pub token: String,
    pub enabled: Option<bool>,
    pub cities: Option<Vec<String>>,
    pub units: Option<String>,
}

/// A request to send a test notification to one device.
pub struct TestNotificationRequest {
    pub token: String,
}

/// The answer to a device operation.
pub struct DeviceResponse {
    pub success: bool,
    pub device_id: Option<String>,
    pub message: Option<String>,
}

impl DeviceResponse {
    /// A success, with the device's id when known.
    pub fn success(device_id: Option<String>) -> (r: Self)
        ensures
            r.success && r.device_id == device_id && r.message is None,
    {
        DeviceResponse { success: true, device_id, message: None }
    }

    /// A failure with its reason.
    pub fn error(message: &str) -> (r: Self)
        ensures
            !r.success && r.device_id is None,
            r.message matches Some(m) && m@ == message@,
    {
        DeviceResponse { success: false, device_id: None, message: Some(String::from_str(message)) }
    }
}

/// Whether one of the first `k` of `cities` matches `city` ignoring case.
pub open spec fn lists_city(cities: Seq<String>, city: Seq<char>) -> bool {
    exists|i: int|
        0 <= i < cities.len() && lowercased((#[trigger] cities[i])@) == lowercased(city)
}

/// A device receives a city's notifications when it is enabled and either
/// lists no city (it takes every city) or lists that city, ignoring case.
pub open spec fn subscribed(d: Device, city: Seq<char>) -> bool {
    d.enabled && (d.cities@.len() == 0 || lists_city(d.cities@, city))
}

/// The tokens of the subscribed devices among the first `k`, in order.
pub open spec fn recipients_upto(devices: Seq<Device>, city: Seq<char>, k: nat) -> Seq<Seq<char>>
    decreases k,
{
    if k == 0 {
        seq![]
    } else if subscribed(devices[k - 1], city) {
        recipients_upto(devices, city, (k - 1) as nat).push(devices[k - 1].token@)
    } else {
        recipients_upto(devices, city, (k - 1) as nat)
    }
}

/// Whether `d` receives `city`'s notifications.
pub fn is_subscribed(d: &Device, city: &str) -> (r: bool)
    ensures
        r == subscribed(*d, city@),
{
    if !d.enabled {
        return false;
    }
    if d.cities.len() == 0 {
        return true;
    }
    let wanted = lowercase_text(city);
    let mut i: usize = 0;
    while i < d.cities.len()
        invariant
            d.enabled,
            i <= d.cities@.len(),
            wanted@ == lowercased(city@),
            forall|j: int| 0 <= j < i ==> lowercased((#[trigger] d.cities@[j])@) != lowercased(city@),
        decreases d.cities.len() - i,
    {
        let c = lowercase_text(d.cities[i].as_str());
        if c == wanted {
            assert(lowercased(d.cities@[i as int]@) == lowercased(city@));
            return true;
        }
        i = i + 1;
    }
    false
}

/// The push tokens of the devices subscribed to `city`, in order.
pub fn tokens_for_city(devices: &Vec<Device>, city: &str) -> (r: Vec<String>)
    ensures
        r@.len() == recipients_upto(devices@, city@, devices@.len()).len(),
        forall|i: int|
            0 <= i < r@.len() ==> (#[trigger] r@[i])@ == recipients_upto(
                devices@,
                city@,
                devices@.len(),
            )[i],
{
    let mut out: Vec<String> = Vec::new();
    let mut i: usize = 0;
    while i < devices.len()
        invariant
            i <= devices@.len(),
            out@.len() == recipients_upto(devices@, city@, i as nat).len(),
            forall|j: int|
                0 <= j < out@.len() ==> (#[trigger] out@[j])@ == recipients_upto(
                    devices@,
                    city@,
                    i as nat,
                )[j],
        decreases devices.len() - i,
    {
        if is_subscribed(&devices[i], city) {
            out.push(devices[i].token.clone());
        }
        i = i + 1;
    }
    out
}

/// The push tokens of the enabled devices among the first `k`, in order.
pub open spec fn enabled_tokens_upto(devices: Seq<Device>, k: nat) -> Seq<Seq<char>>
    decreases k,
{
    if k == 0 {
        seq![]
    } else if devices[k - 1].enabled {
        enabled_tokens_upto(devices, (k - 1) as nat).push(devices[k - 1].token@)
    } else {
        enabled_tokens_upto(devices, (k - 1) as nat)
    }
}

/// The push tokens of all enabled devices, for a broadcast.
pub fn broadcast_tokens(devices: &Vec<Device>) -> (r: Vec<String>)
    ensures
        r@.len() == enabled_tokens_upto(devices@, devices@.len()).len(),
        forall|i: int|
            0 <= i < r@.len() ==> (#[trigger] r@[i])@ == enabled_tokens_upto(
                devices@,
                devices@.len(),
            )[i],
{
    let mut out: Vec<String> = Vec::new();
    let mut i: usize = 0;
    while i < devices.len()
        invariant
            i <= devices@.len(),
            out@.len() == enabled_tokens_upto(devices@, i as nat).len(),
            forall|j: int|
                0 <= j < out@.len() ==> (#[trigger] out@[j])@ == enabled_tokens_upto(
                    devices@,
                    i as nat,
                )[j],
        decreases devices.len() - i,
    {
        if devices[i].enabled {
            out.push(devices[i].token.clone());
        }
        i = i + 1;
    }
    out
}

/// A device registration: an already registered token keeps its id and
/// registration time and takes the request's settings; a new token becomes a
/// new device under `new_id`. Either way the update time is `now`.
pub fn register_device(
    existing: Option<Device>,
    request: DeviceRegistrationRequest,
    now: i64,
    new_id: String,
) -> (d: Device)
    ensures
        match existing {
            Some(e) => d == (Device {
                platform: request.platform,
                device_name: request.device_name,
                app_version: request.app_version,
                cities: request.cities,
                units: request.units,
                enabled: request.enabled,
                updated_at: now,
                ..e
            }),
            None => d == (Device {
                id: new_id,
                token: request.token,
                platform: request.platform,
                device_name: request.device_name,
                app_version: request.app_version,
                cities: request.cities,
                units: request.units,
                enabled: request.enabled,
                registered_at: now,
                updated_at: now,
            }),
        },
{
    match existing {
        Some(e) => Device {
            id: e.id,
            token: e.token,
            platform: request.platform,
            device_name: request.device_name,
            app_version: request.app_version,
            cities: request.cities,
            units: request.units,
            enabled: request.enabled,
            registered_at: e.registered_at,
            updated_at: now,
        },
        None => Device {
            id: new_id,
            token: request.token,
            platform: request.platform,
            device_name: request.device_name,
            app_version: request.app_version,
            cities: request.cities,
            units: request.units,
            enabled: request.enabled,
            registered_at: now,
            updated_at: now,
        },
    }
}

/// A device with the given settings changed; the update time becomes `now`.
pub fn apply_settings(device: Device, request: DeviceSettingsRequest, now: i64) -> (d: Device)
    ensures
        d == (Device {
            enabled: match request.enabled {
                Some(b) => b,
                None => device.enabled,
            },
            cities: match request.cities {
                Some(c) => c,
                None => device.cities,
            },
            units: match request.units {
                Some(u) => u,
                None => device.units,
            },
            updated_at: now,
            ..device
        }),
{
    let mut d = device;
    if let Some(b) = request.enabled {
        d.enabled = b;
    }
    if let Some(c) = request.cities {
        d.cities = c;
    }
    if let Some(u) = request.units {
        d.units = u;
    }
    d.updated_at = now;
    d
}

/// Devices default to imperial units.
pub fn default_units() -> (r: String)
    ensures
        r@ == "imperial"@,
{
    String::from_str("imperial")
}

} // verus!
