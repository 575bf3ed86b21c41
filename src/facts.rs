//! Fact extractors: total functions from raw input fields to the canonical
//! device, identity, session, network, event and geo records.

use vstd::prelude::*;
use crate::decimal::Decimal;
use crate::json::{JsonValue, json_get};
use crate::text::{contains_text, copy_opt, has_substring, int_text, int_to_string, opt_text};

verus! {

/// Whether chrono can represent the instant `ms` milliseconds after the epoch.
pub uninterp spec fn millis_in_range(ms: int) -> bool;

/// The RFC 3339 text, in UTC, of the instant `ms` milliseconds after the epoch.
pub uninterp spec fn rfc3339_text(ms: int) -> Seq<char>;

/// Relies on chrono's `DateTime::<Utc>::from_timestamp_millis`, which returns
/// `None` exactly for instants out of its range (dates of years -262143 to
/// 262142, which include every instant within 8 * 10^15 ms of the epoch), and
/// on `DateTime::to_rfc3339`, which renders the instant.
#[verifier::external_body]
pub(crate) fn rfc3339_of_millis(ms: i64) -> (r: Option<String>)
    ensures
        r is Some <==> millis_in_range(ms as int),
        -8_000_000_000_000_000 <= ms <= 8_000_000_000_000_000 ==> r is Some,
        r matches Some(s) ==> s@ == rfc3339_text(ms as int),
{
    match chrono::DateTime::from_timestamp_millis(ms) {
        Some(dt) => Some(dt.to_rfc3339()),
        None => None,
    }
}

/// An instant in UTC, as milliseconds since the epoch, with its RFC 3339 text.
#[derive(Debug)]
pub struct Timestamp {
    pub millis: i64,
    pub rfc3339: String,
}

impl Timestamp {
    pub open spec fn wf(&self) -> bool {
        self.rfc3339@ == rfc3339_text(self.millis as int)
    }

    /// The instant `ms` milliseconds after the epoch, when it can be represented.
    pub fn from_millis(ms: i64) -> (r: Option<Timestamp>)
        ensures
            r is Some <==> millis_in_range(ms as int),
            -8_000_000_000_000_000 <= ms <= 8_000_000_000_000_000 ==> r is Some,
            r matches Some(t) ==> t.millis == ms && t.wf(),
    {
        match rfc3339_of_millis(ms) {
            Some(text) => Some(Timestamp { millis: ms, rfc3339: text }),
            None => None,
        }
    }

    /// Whole seconds since the epoch, rounded down.
    pub fn epoch_seconds(&self) -> (r: i64)
        ensures
            r == self.millis as int / 1000,
    {
        match self.millis.checked_div_euclid(1000) {
            Some(q) => q,
            None => 0,
        }
    }
}

/// The characters of a value when it is a string.
pub open spec fn str_of(v: Option<JsonValue>) -> Option<Seq<char>> {
    match v {
        Some(JsonValue::Str(s)) => Some(s@),
        _ => None,
    }
}

/// Field access that passes absence through.
pub open spec fn get_opt(v: Option<JsonValue>, key: Seq<char>) -> Option<JsonValue> {
    match v {
        Some(x) => json_get(x, key),
        None => None,
    }
}

pub open spec fn or_empty(o: Option<Seq<char>>) -> Seq<char> {
    match o {
        Some(s) => s,
        None => Seq::empty(),
    }
}

/// A copy of the string held by a value, when it is one.
fn string_of(v: Option<&JsonValue>) -> (r: Option<String>)
    ensures
        opt_text(r) == str_of(
            match v {
                Some(x) => Some(*x),
                None => None,
            },
        ),
{
    match v {
        Some(JsonValue::Str(s)) => Some(s.clone()),
        _ => None,
    }
}

/// The member `key` of an optional value.
fn field_of<'a>(v: Option<&'a JsonValue>, key: &str) -> (r: Option<&'a JsonValue>)
    ensures
        match r {
            Some(x) => get_opt(
                match v {
                    Some(y) => Some(*y),
                    None => None,
                },
                key@,
            ) == Some(*x),
            None => get_opt(
                match v {
                    Some(y) => Some(*y),
                    None => None,
                },
                key@,
            ) is None,
        },
{
    match v {
        Some(x) => x.get(key),
        None => None,
    }
}

#[derive(Debug)]
pub struct ParsedDevice {
    pub id: String,
    pub os: Option<String>,
    pub browser: Option<String>,
    pub device_type: Option<String>,
}

/// The device class a user-agent string suggests.
pub open spec fn device_type_of(ua: Seq<char>) -> Seq<char> {
    if has_substring(ua, "Mobile"@) {
        "mobile"@
    } else if has_substring(ua, "Tablet"@) {
        "tablet"@
    } else {
        "desktop"@
    }
}

/// The device class: inferred from the user agent, `unknown` without one.
pub open spec fn device_class(ua: Option<Seq<char>>) -> Seq<char> {
    match ua {
        Some(u) => device_type_of(u),
        None => "unknown"@,
    }
}

pub open spec fn fingerprint_id(fp: JsonValue) -> Seq<char> {
    match str_of(json_get(fp, "visitorId"@)) {
        Some(s) => s,
        None => "unknown"@,
    }
}

/// The string at `components.<name>.value` of a fingerprint.
pub open spec fn component_value(fp: JsonValue, name: Seq<char>) -> Option<Seq<char>> {
    str_of(get_opt(get_opt(json_get(fp, "components"@), name), "value"@))
}

fn device_type_label(ua: &str) -> (r: String)
    ensures
        r@ == device_type_of(ua@),
{
    if contains_text(ua, "Mobile") {
        String::from_str("mobile")
    } else if contains_text(ua, "Tablet") {
        String::from_str("tablet")
    } else {
        String::from_str("desktop")
    }
}

/// Reads the device from a fingerprint: its visitor id (`"unknown"` when
/// missing), platform and user agent, and the device class the user agent
/// suggests (`"unknown"` when there is no user agent).
pub fn extract_device_info(fingerprint: &JsonValue) -> (r: ParsedDevice)
    ensures
        r.id@ == fingerprint_id(*fingerprint),
        opt_text(r.os) == component_value(*fingerprint, "platform"@),
        opt_text(r.browser) == component_value(*fingerprint, "userAgent"@),
        opt_text(r.device_type) == Some(device_class(component_value(*fingerprint, "userAgent"@))),
{
    let id = match string_of(fingerprint.get("visitorId")) {
        Some(s) => s,
        None => String::from_str("unknown"),
    };
    let components = fingerprint.get("components");
    let os = string_of(field_of(field_of(components, "platform"), "value"));
    let browser = string_of(field_of(field_of(components, "userAgent"), "value"));
    let device_type = match &browser {
        Some(ua) => Some(device_type_label(ua.as_str())),
        None => Some(String::from_str("unknown")),
    };
    ParsedDevice { id, os, browser, device_type }
}

#[derive(Debug)]
pub struct ParsedIdentity {
    pub id: String,
    pub user_id: Option<String>,
}

/// The identity is the caller's subject id; the user id is resolved elsewhere.
pub fn extract_identity_info(shaayud_id: &str) -> (r: ParsedIdentity)
    ensures
        r.id@ == shaayud_id@,
        r.user_id is None,
{
    ParsedIdentity { id: String::from_str(shaayud_id), user_id: None }
}

#[derive(Debug)]
pub struct ParsedSession {
    pub id: String,
    pub started_at_iso: String,
}

pub open spec fn header_session_id(header: JsonValue) -> Option<Seq<char>> {
    str_of(json_get(header, "sessionId"@))
}

/// The session id: the payload's, else the header's, else one made of the
/// device id and the epoch second.
pub open spec fn session_id_of(
    header: JsonValue,
    payload: Option<Seq<char>>,
    device_id: Seq<char>,
    secs: int,
) -> Seq<char> {
    match payload {
        Some(p) => p,
        None => match header_session_id(header) {
            Some(h) => h,
            None => "sess:"@ + device_id + ":"@ + int_text(secs),
        },
    }
}

pub fn extract_session_info(
    header: &JsonValue,
    payload_session_id: &Option<String>,
    device_id: &str,
    timestamp: &Timestamp,
) -> (r: ParsedSession)
    requires
        timestamp.wf(),
    ensures
        r.id@ == session_id_of(
            *header,
            opt_text(*payload_session_id),
            device_id@,
            timestamp.millis as int / 1000,
        ),
        r.started_at_iso@ == rfc3339_text(timestamp.millis as int),
{
    let id = match payload_session_id {
        Some(p) => p.clone(),
        None => match string_of(header.get("sessionId")) {
            Some(h) => h,
            None => {
                let mut s = String::from_str("sess:");
                s.append(device_id);
                s.append(":");
                let secs = int_to_string(timestamp.epoch_seconds());
                s.append(secs.as_str());
                s
            },
        },
    };
    ParsedSession { id, started_at_iso: timestamp.rfc3339.clone() }
}

#[derive(Debug)]
pub struct ParsedNetwork {
    pub ip: Option<String>,
    pub ua_raw: Option<String>,
}

/// Absent for empty text.
pub open spec fn nonempty_text(s: Seq<char>) -> Option<Seq<char>> {
    if s.len() == 0 {
        None
    } else {
        Some(s)
    }
}

fn nonempty_string(s: &str) -> (r: Option<String>)
    ensures
        opt_text(r) == nonempty_text(s@),
{
    if s.is_empty() {
        None
    } else {
        Some(String::from_str(s))
    }
}

/// Empty ip or user agent become absent.
pub fn extract_network_info(ip: &str, user_agent: &str) -> (r: ParsedNetwork)
    ensures
        opt_text(r.ip) == nonempty_text(ip@),
        opt_text(r.ua_raw) == nonempty_text(user_agent@),
{
    ParsedNetwork { ip: nonempty_string(ip), ua_raw: nonempty_string(user_agent) }
}

#[derive(Debug)]
pub struct ParsedEvent {
    pub id: String,
    pub event_type: String,
    pub ts_ms: i64,
}

/// The event id: the explicit one, else one made of identity, session and the
/// epoch second.
pub open spec fn event_id_of(
    explicit: Option<Seq<char>>,
    identity_id: Seq<char>,
    session_id: Seq<char>,
    secs: int,
) -> Seq<char> {
    match explicit {
        Some(e) => e,
        None => "evt:"@ + identity_id + ":"@ + session_id + ":"@ + int_text(secs),
    }
}

/// The event type: the explicit one, else method and path.
pub open spec fn event_type_of(explicit: Option<Seq<char>>, method: Seq<char>, path: Seq<char>) -> Seq<
    char,
> {
    match explicit {
        Some(t) => t,
        None => method + " "@ + path,
    }
}

pub fn extract_event_info(
    event_id: &Option<String>,
    event_type: &Option<String>,
    method: &str,
    path: &str,
    identity_id: &str,
    session_id: &str,
    timestamp: &Timestamp,
) -> (r: ParsedEvent)
    ensures
        r.id@ == event_id_of(
            opt_text(*event_id),
            identity_id@,
            session_id@,
            timestamp.millis as int / 1000,
        ),
        r.event_type@ == event_type_of(opt_text(*event_type), method@, path@),
        r.ts_ms == timestamp.millis,
{
    let id = match event_id {
        Some(e) => e.clone(),
        None => {
            let mut s = String::from_str("evt:");
            s.append(identity_id);
            s.append(":");
            s.append(session_id);
            s.append(":");
            let secs = int_to_string(timestamp.epoch_seconds());
            s.append(secs.as_str());
            s
        },
    };
    let etype = match event_type {
        Some(t) => t.clone(),
        None => {
            let mut s = String::from_str(method);
            s.append(" ");
            s.append(path);
            s
        },
    };
    ParsedEvent { id, event_type: etype, ts_ms: timestamp.millis }
}

/// Geo data sent explicitly by the client.
#[derive(Debug)]
pub struct GeoPayload {
    pub country: Option<String>,
    pub region: Option<String>,
    pub city: Option<String>,
    pub latitude: Option<Decimal>,
    pub longitude: Option<Decimal>,
    pub timezone: Option<String>,
}

#[derive(Debug)]
pub struct ParsedGeo {
    pub key: String,
    pub country: Option<String>,
    pub region: Option<String>,
    pub city: Option<String>,
    pub timezone: Option<String>,
    pub latitude: Option<Decimal>,
    pub longitude: Option<Decimal>,
}

/// The composite geo key: the four attributes joined by `|`, missing ones as
/// empty text; empty when all four are missing.
pub open spec fn geo_key_of(
    country: Option<Seq<char>>,
    region: Option<Seq<char>>,
    city: Option<Seq<char>>,
    timezone: Option<Seq<char>>,
) -> Seq<char> {
    if country is None && region is None && city is None && timezone is None {
        Seq::empty()
    } else {
        or_empty(country) + "|"@ + or_empty(region) + "|"@ + or_empty(city) + "|"@ + or_empty(
            timezone,
        )
    }
}

/// The geo attribute a header carries.
pub open spec fn header_text(headers: JsonValue, name: Seq<char>) -> Option<Seq<char>> {
    str_of(json_get(headers, name))
}

fn append_opt(s: &mut String, o: &Option<String>)
    ensures
        final(s)@ == old(s)@ + or_empty(opt_text(*o)),
{
    match o {
        Some(x) => s.append(x.as_str()),
        None => {
            assert(old(s)@ + Seq::<char>::empty() =~= old(s)@);
        },
    }
}

fn geo_key(
    country: &Option<String>,
    region: &Option<String>,
    city: &Option<String>,
    timezone: &Option<String>,
) -> (r: String)
    ensures
        r@ == geo_key_of(opt_text(*country), opt_text(*region), opt_text(*city), opt_text(*timezone)),
{
    if country.is_none() && region.is_none() && city.is_none() && timezone.is_none() {
        return String::new();
    }
    let mut s = String::new();
    append_opt(&mut s, country);
    s.append("|");
    append_opt(&mut s, region);
    s.append("|");
    append_opt(&mut s, city);
    s.append("|");
    append_opt(&mut s, timezone);
    assert(s@ =~= geo_key_of(opt_text(*country), opt_text(*region), opt_text(*city), opt_text(*timezone)));
    s
}

/// Geo facts: the explicit payload when there is one, else the `x-geo-*`
/// headers (which carry no coordinates).
pub fn extract_geo_info(geo: &Option<GeoPayload>, headers: &JsonValue) -> (r: ParsedGeo)
    ensures
        match geo {
            Some(g) => opt_text(r.country) == opt_text(g.country) && opt_text(r.region) == opt_text(
                g.region,
            ) && opt_text(r.city) == opt_text(g.city) && opt_text(r.timezone) == opt_text(
                g.timezone,
            ) && r.latitude == g.latitude && r.longitude == g.longitude,
            None => opt_text(r.country) == header_text(*headers, "x-geo-country"@) && opt_text(
                r.region,
            ) == header_text(*headers, "x-geo-region"@) && opt_text(r.city) == header_text(
                *headers,
                "x-geo-city"@,
            ) && opt_text(r.timezone) == header_text(*headers, "x-geo-timezone"@)
                && r.latitude is None && r.longitude is None,
        },
        r.key@ == geo_key_of(opt_text(r.country), opt_text(r.region), opt_text(r.city), opt_text(r.timezone)),
{
    let (country, region, city, timezone, latitude, longitude) = match geo {
        Some(g) => (
            copy_opt(&g.country),
            copy_opt(&g.region),
            copy_opt(&g.city),
            copy_opt(&g.timezone),
            g.latitude,
            g.longitude,
        ),
        None => (
            string_of(headers.get("x-geo-country")),
            string_of(headers.get("x-geo-region")),
            string_of(headers.get("x-geo-city")),
            string_of(headers.get("x-geo-timezone")),
            None,
            None,
        ),
    };
    let key = geo_key(&country, &region, &city, &timezone);
    ParsedGeo { key, country, region, city, timezone, latitude, longitude }
}

/// The geo key is empty exactly when all four attributes are missing.
pub proof fn lemma_geo_key_empty(
    country: Option<Seq<char>>,
    region: Option<Seq<char>>,
    city: Option<Seq<char>>,
    timezone: Option<Seq<char>>,
)
    ensures
        (geo_key_of(country, region, city, timezone).len() == 0) <==> (country is None
            && region is None && city is None && timezone is None),
{
    reveal_strlit("|");
}

} // verus!
