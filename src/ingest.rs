//! The ingest pipeline: input record, extraction of every fact, the fact bag
//! the rules read, and the flat parameter set of the graph upsert.

use vstd::prelude::*;
use crate::decimal::Decimal;
use crate::facts::{
    lemma_geo_key_empty, millis_in_range, rfc3339_of_millis,
    GeoPayload, ParsedDevice, ParsedEvent, ParsedGeo, ParsedIdentity, ParsedNetwork, ParsedSession,
    Timestamp, component_value, device_class, event_id_of, event_type_of, extract_device_info,
    extract_event_info, extract_geo_info, extract_identity_info, extract_network_info,
    extract_session_info, fingerprint_id, get_opt, header_text, nonempty_text, or_empty,
    session_id_of, geo_key_of,
};
use crate::json::{JsonValue, Member, json_get, lemma_lookup_at};
use crate::score::{
    Rule, RuleSet, ScoreBreakdown, entry_view, eval_score, lemma_fit_rules_fit_every_bag, matched_rules, rule_entry, score_sum, scores_fit,
};
use crate::text::{blank_text, is_blank, opt_text, text_equal};
use crate::graph::{
    GraphState, IngestError, ParamValue, ParamView, Rel, apply_upsert, edges_after, int_or_null,
    int_param, lemma_param_at, num_or_null, num_param, param_of, param_view, params_view,
    Prop, first_non_null, lemma_repeat_ingest, lemma_upsert_writes, node_props, same_ids, same_node_keys, stored,
    text_of, text_or_null, text_param,
};

verus! {

#[derive(Debug, Clone, Copy)]
pub struct Viewport {
    pub w: i32,
    pub h: i32,
}

#[derive(Debug, Clone, Copy)]
pub struct Click {
    pub x: i32,
    pub y: i32,
    pub t: i32,
    pub b: i32,
}

#[derive(Debug, Clone, Copy)]
pub struct Wheel {
    pub ticks: i32,
    pub dy_sum: Decimal,
}

/// One telemetry event as the transport hands it over.
#[derive(Debug)]
pub struct EventoInput {
    pub shaayud_id: String,
    pub fingerprint: JsonValue,
    pub ip: String,
    pub user_agent: String,
    pub header: JsonValue,
    pub timestamp: Timestamp,
    pub method: String,
    pub path: String,
    pub session_id: Option<String>,
    pub event_id: Option<String>,
    pub event_type: Option<String>,
    pub geo: Option<GeoPayload>,
    pub front_url: Option<String>,
    pub front_path: Option<String>,
    pub front_referrer: Option<String>,
    pub backend_path: Option<String>,
    pub backend_method: Option<String>,
    pub backend_host: Option<String>,
    pub ts_start: Option<i64>,
    pub ts_end: Option<i64>,
    pub viewport: Option<Viewport>,
    pub points_deflate_b64: Option<String>,
    pub clicks: Option<Vec<Click>>,
    pub wheel: Option<Wheel>,
}

/// Every fact extracted from one input.
#[derive(Debug)]
pub struct IngestFacts {
    pub device: ParsedDevice,
    pub identity: ParsedIdentity,
    pub session: ParsedSession,
    pub network: ParsedNetwork,
    pub event: ParsedEvent,
    pub geo: ParsedGeo,
}

/// The facts of an input are those its extractors give.
pub open spec fn facts_of(data: EventoInput, f: IngestFacts) -> bool {
    let secs = data.timestamp.millis as int / 1000;
    let device_id = fingerprint_id(data.fingerprint);
    let session_id = session_id_of(data.header, opt_text(data.session_id), device_id, secs);
    &&& f.device.id@ == device_id
    &&& opt_text(f.device.os) == component_value(data.fingerprint, "platform"@)
    &&& opt_text(f.device.browser) == component_value(data.fingerprint, "userAgent"@)
    &&& opt_text(f.device.device_type) == Some(device_class(component_value(data.fingerprint, "userAgent"@)))
    &&& f.identity.id@ == data.shaayud_id@
    &&& f.identity.user_id is None
    &&& f.session.id@ == session_id
    &&& f.session.started_at_iso@ == crate::facts::rfc3339_text(data.timestamp.millis as int)
    &&& opt_text(f.network.ip) == nonempty_text(data.ip@)
    &&& opt_text(f.network.ua_raw) == nonempty_text(data.user_agent@)
    &&& f.event.id@ == event_id_of(opt_text(data.event_id), data.shaayud_id@, session_id, secs)
    &&& f.event.event_type@ == event_type_of(opt_text(data.event_type), data.method@, data.path@)
    &&& f.event.ts_ms == data.timestamp.millis
    &&& match data.geo {
        Some(g) => opt_text(f.geo.country) == opt_text(g.country) && opt_text(f.geo.region)
            == opt_text(g.region) && opt_text(f.geo.city) == opt_text(g.city) && opt_text(
            f.geo.timezone,
        ) == opt_text(g.timezone) && f.geo.latitude == g.latitude && f.geo.longitude
            == g.longitude,
        None => opt_text(f.geo.country) == header_text(data.header, "x-geo-country"@) && opt_text(
            f.geo.region,
        ) == header_text(data.header, "x-geo-region"@) && opt_text(f.geo.city) == header_text(
            data.header,
            "x-geo-city"@,
        ) && opt_text(f.geo.timezone) == header_text(data.header, "x-geo-timezone"@)
            && f.geo.latitude is None && f.geo.longitude is None,
    }
    &&& f.geo.key@ == geo_key_of(
        opt_text(f.geo.country),
        opt_text(f.geo.region),
        opt_text(f.geo.city),
        opt_text(f.geo.timezone),
    )
}

/// Runs every extractor on the input.
pub fn extract_facts(data: &EventoInput) -> (r: IngestFacts)
    requires
        data.timestamp.wf(),
    ensures
        facts_of(*data, r),
{
    let device = extract_device_info(&data.fingerprint);
    let identity = extract_identity_info(data.shaayud_id.as_str());
    let session = extract_session_info(
        &data.header,
        &data.session_id,
        device.id.as_str(),
        &data.timestamp,
    );
    let network = extract_network_info(data.ip.as_str(), data.user_agent.as_str());
    let event = extract_event_info(
        &data.event_id,
        &data.event_type,
        data.method.as_str(),
        data.path.as_str(),
        identity.id.as_str(),
        session.id.as_str(),
        &data.timestamp,
    );
    let geo = extract_geo_info(&data.geo, &data.header);
    IngestFacts { device, identity, session, network, event, geo }
}

/// The value under `outer.inner` of the bag.
pub open spec fn bag_at(bag: JsonValue, outer: Seq<char>, inner: Seq<char>) -> Option<JsonValue> {
    get_opt(json_get(bag, outer), inner)
}

/// The length in characters of the pointer sample (base64 text, so also its
/// byte count), capped at `i64::MAX`; zero when there is none.
pub open spec fn points_len(points: Option<String>) -> int {
    match points {
        Some(p) => if p@.len() <= i64::MAX {
            p@.len() as int
        } else {
            i64::MAX as int
        },
        None => 0,
    }
}

pub open spec fn int_number(n: int) -> JsonValue {
    JsonValue::Number(Decimal { mantissa: n as i64, scale: 0 })
}

/// The members of an object, when the value is one.
pub open spec fn members(v: JsonValue) -> Seq<Member> {
    match v {
        JsonValue::Object(ms) => ms@,
        _ => Seq::empty(),
    }
}

/// The fact bag the rules read, exactly: an object with `event` then `feat`;
/// `event` holds `type`, `front_path`, `user_agent`, `ua_empty`; `feat` holds
/// `identity_known_devices_recent`, `is_new_device_for_identity`,
/// `session_ip_country_changed`, `mouse_points_len`, in that order.
pub open spec fn fact_bag_spec(bag: JsonValue, data: EventoInput, facts: IngestFacts) -> bool {
    let top = members(bag);
    let ev = members(top[0].value);
    let feat = members(top[1].value);
    &&& bag is Object
    &&& top.len() == 2
    &&& top[0].key@ == "event"@ && top[0].value is Object
    &&& top[1].key@ == "feat"@ && top[1].value is Object
    &&& ev.len() == 4
    &&& ev[0].key@ == "type"@
    &&& ev[0].value matches JsonValue::Str(t) && t@ == facts.event.event_type@
    &&& ev[1].key@ == "front_path"@
    &&& ev[1].value matches JsonValue::Str(p) && p@ == or_empty(opt_text(data.front_path))
    &&& ev[2].key@ == "user_agent"@
    &&& ev[3].key@ == "ua_empty"@
    &&& match facts.network.ua_raw {
        Some(ua) => {
            &&& ev[2].value matches JsonValue::Str(u) && u@ == ua@
            &&& ev[3].value == JsonValue::Bool(blank_text(ua@))
        },
        None => {
            &&& ev[2].value == JsonValue::Null
            &&& ev[3].value == JsonValue::Bool(true)
        },
    }
    &&& feat.len() == 4
    &&& feat[0].key@ == "identity_known_devices_recent"@ && feat[0].value == int_number(1)
    &&& feat[1].key@ == "is_new_device_for_identity"@ && feat[1].value == JsonValue::Bool(true)
    &&& feat[2].key@ == "session_ip_country_changed"@ && feat[2].value == JsonValue::Bool(false)
    &&& feat[3].key@ == "mouse_points_len"@ && feat[3].value == int_number(
        points_len(data.points_deflate_b64),
    )
}

/// The bag answers lookups as its layout says: `event.type` and the rest
/// resolve to the listed values, the first member of each name being the
/// only one.
pub proof fn lemma_fact_bag_lookup(bag: JsonValue, data: EventoInput, facts: IngestFacts)
    requires
        fact_bag_spec(bag, data, facts),
    ensures
        bag_at(bag, "event"@, "type"@) == Some(members(members(bag)[0].value)[0].value),
        bag_at(bag, "event"@, "ua_empty"@) == Some(members(members(bag)[0].value)[3].value),
        bag_at(bag, "feat"@, "mouse_points_len"@) == Some(members(members(bag)[1].value)[3].value),
{
    reveal_strlit("event");
    reveal_strlit("feat");
    reveal_strlit("type");
    reveal_strlit("front_path");
    reveal_strlit("user_agent");
    reveal_strlit("ua_empty");
    reveal_strlit("identity_known_devices_recent");
    reveal_strlit("is_new_device_for_identity");
    reveal_strlit("session_ip_country_changed");
    reveal_strlit("mouse_points_len");
    let t = members(bag);
    let evs = members(t[0].value);
    let feats = members(t[1].value);
    lemma_lookup_at(t, 0, "event"@);
    lemma_text_differs(t[0].key@, "feat"@, 0);
    lemma_lookup_at(t, 1, "feat"@);
    lemma_lookup_at(evs, 0, "type"@);
    lemma_text_differs(evs[0].key@, "ua_empty"@, 0);
    lemma_text_differs(evs[1].key@, "ua_empty"@, 0);
    lemma_text_differs(evs[2].key@, "ua_empty"@, 1);
    lemma_lookup_at(evs, 3, "ua_empty"@);
    lemma_text_differs(feats[0].key@, "mouse_points_len"@, 0);
    lemma_text_differs(feats[1].key@, "mouse_points_len"@, 0);
    lemma_text_differs(feats[2].key@, "mouse_points_len"@, 0);
    lemma_lookup_at(feats, 3, "mouse_points_len"@);
}

proof fn lemma_text_differs(a: Seq<char>, b: Seq<char>, i: int)
    requires
        0 <= i < a.len(),
        0 <= i < b.len(),
        a[i] != b[i],
    ensures
        a != b,
{
}

fn member(key: &str, value: JsonValue) -> (r: Member)
    ensures
        r.key@ == key@,
        r.value == value,
{
    Member { key: String::from_str(key), value }
}

/// Builds the fact bag from the input and its facts. The `feat` entries that
/// would need the stored graph hold fixed values.
pub fn build_fact_bag(data: &EventoInput, facts: &IngestFacts) -> (r: JsonValue)
    ensures
        fact_bag_spec(r, *data, *facts),
{
    let front_path = match &data.front_path {
        Some(p) => p.clone(),
        None => String::new(),
    };
    let (ua_value, ua_empty) = match &facts.network.ua_raw {
        Some(ua) => (JsonValue::Str(ua.clone()), is_blank(ua.as_str())),
        None => (JsonValue::Null, true),
    };
    let points: i64 = match &data.points_deflate_b64 {
        Some(p) => {
            let n = p.as_str().unicode_len();
            if n as u64 <= i64::MAX as u64 {
                n as i64
            } else {
                i64::MAX
            }
        },
        None => 0,
    };
    let mut ev: Vec<Member> = Vec::new();
    ev.push(member("type", JsonValue::Str(facts.event.event_type.clone())));
    ev.push(member("front_path", JsonValue::Str(front_path)));
    ev.push(member("user_agent", ua_value));
    ev.push(member("ua_empty", JsonValue::Bool(ua_empty)));
    let mut feat: Vec<Member> = Vec::new();
    feat.push(member("identity_known_devices_recent", JsonValue::Number(Decimal { mantissa: 1, scale: 0 })));
    feat.push(member("is_new_device_for_identity", JsonValue::Bool(true)));
    feat.push(member("session_ip_country_changed", JsonValue::Bool(false)));
    feat.push(member("mouse_points_len", JsonValue::Number(Decimal { mantissa: points, scale: 0 })));
    let mut top: Vec<Member> = Vec::new();
    top.push(member("event", JsonValue::Object(ev)));
    top.push(member("feat", JsonValue::Object(feat)));
    JsonValue::Object(top)
}

/// The outcome of the pure part of an ingest: the facts, the bag built from
/// them, and the score of the rule set on that bag.
#[derive(Debug)]
pub struct IngestPlan {
    pub facts: IngestFacts,
    pub bag: JsonValue,
    pub score: ScoreBreakdown,
}

/// Extracts the facts of the input, builds the fact bag and scores it.
pub fn handle_ingest(data: &EventoInput, rules: &RuleSet) -> (r: IngestPlan)
    requires
        data.timestamp.wf(),
        scores_fit(*rules),
    ensures
        facts_of(*data, r.facts),
        fact_bag_spec(r.bag, *data, r.facts),
        r.score.total == rules.default + score_sum(matched_rules(r.bag, rules.rules@)),
        r.score.matched@.map_values(|e: (String, i64, Option<String>)| entry_view(e))
            == matched_rules(r.bag, rules.rules@).map_values(|x: Rule| rule_entry(x)),
{
    let facts = extract_facts(data);
    let bag = build_fact_bag(data, &facts);
    proof {
        lemma_fit_rules_fit_every_bag(bag, *rules);
    }
    let score = eval_score(&bag, rules);
    IngestPlan { facts, bag, score }
}

/// The ingest of an input as it comes: an input whose timestamp text is not
/// the RFC 3339 text of its instant (or whose instant is out of range) is
/// malformed, and a rule set whose running total could overflow is a
/// configuration error; otherwise the plan of `handle_ingest`.
pub fn ingest_checked(data: &EventoInput, rules: &RuleSet) -> (r: Result<IngestPlan, IngestError>)
    ensures
        r is Ok <==> millis_in_range(data.timestamp.millis as int) && data.timestamp.wf()
            && scores_fit(*rules),
        r matches Err(e) ==> e == if millis_in_range(data.timestamp.millis as int)
            && data.timestamp.wf() {
            IngestError::ConfigurationError
        } else {
            IngestError::MalformedInput
        },
        r matches Ok(p) ==> {
            &&& facts_of(*data, p.facts)
            &&& fact_bag_spec(p.bag, *data, p.facts)
            &&& p.score.total == rules.default + score_sum(matched_rules(p.bag, rules.rules@))
            &&& p.score.matched@.map_values(|e: (String, i64, Option<String>)| entry_view(e))
                == matched_rules(p.bag, rules.rules@).map_values(|x: Rule| rule_entry(x))
        },
{
    match rfc3339_of_millis(data.timestamp.millis) {
        Some(text) => {
            if !text_equal(text.as_str(), data.timestamp.rfc3339.as_str()) {
                return Err(IngestError::MalformedInput);
            }
        },
        None => {
            return Err(IngestError::MalformedInput);
        },
    }
    if !rules.scores_fit() {
        return Err(IngestError::ConfigurationError);
    }
    Ok(handle_ingest(data, rules))
}

/// The device class bound into the graph: the inferred one, or `unknown` when
/// there was no user agent.
pub open spec fn device_type_or_unknown(t: Option<Seq<char>>) -> Seq<char> {
    match t {
        Some(x) => x,
        None => "unknown"@,
    }
}

/// The geo key parameter: absent when the key is empty.
pub open spec fn geo_key_param(key: Seq<char>) -> ParamView {
    if key.len() == 0 {
        ParamView::Null
    } else {
        ParamView::Text(key)
    }
}

pub open spec fn viewport_dim(v: Option<Viewport>, width: bool) -> Option<int> {
    match v {
        Some(x) => Some(if width { x.w as int } else { x.h as int }),
        None => None,
    }
}

/// Every parameter of the merge statement, in binding order.
pub open spec fn upsert_params_of(
    data: EventoInput,
    facts: IngestFacts,
    total: int,
    clicks_json: Option<Seq<char>>,
    matched_json: Seq<char>,
) -> Seq<(Seq<char>, ParamView)> {
    seq![
        ("identityId"@, ParamView::Text(facts.identity.id@)),
        ("deviceId"@, ParamView::Text(facts.device.id@)),
        ("os"@, ParamView::Text(or_empty(opt_text(facts.device.os)))),
        ("browser"@, ParamView::Text(or_empty(opt_text(facts.device.browser)))),
        ("deviceType"@, ParamView::Text(device_type_or_unknown(opt_text(facts.device.device_type)))),
        ("ts_ms"@, ParamView::Int(facts.event.ts_ms as int)),
        ("sessionId"@, ParamView::Text(facts.session.id@)),
        ("ip"@, text_or_null(opt_text(facts.network.ip))),
        ("uaRaw"@, text_or_null(opt_text(facts.network.ua_raw))),
        ("eventId"@, ParamView::Text(facts.event.id@)),
        ("eventType"@, ParamView::Text(facts.event.event_type@)),
        ("geoKey"@, geo_key_param(facts.geo.key@)),
        ("geoCountry"@, text_or_null(opt_text(facts.geo.country))),
        ("geoRegion"@, text_or_null(opt_text(facts.geo.region))),
        ("geoCity"@, text_or_null(opt_text(facts.geo.city))),
        ("geoTimezone"@, text_or_null(opt_text(facts.geo.timezone))),
        ("geoLat"@, num_or_null(facts.geo.latitude)),
        ("geoLng"@, num_or_null(facts.geo.longitude)),
        ("front_url"@, text_or_null(opt_text(data.front_url))),
        ("front_path"@, text_or_null(opt_text(data.front_path))),
        ("front_referrer"@, text_or_null(opt_text(data.front_referrer))),
        ("backend_path"@, text_or_null(opt_text(data.backend_path))),
        ("backend_method"@, text_or_null(opt_text(data.backend_method))),
        ("backend_host"@, text_or_null(opt_text(data.backend_host))),
        ("mb_ts_start"@, int_or_null(match data.ts_start { Some(t) => Some(t as int), None => None })),
        ("mb_ts_end"@, int_or_null(match data.ts_end { Some(t) => Some(t as int), None => None })),
        ("mb_vw_w"@, int_or_null(viewport_dim(data.viewport, true))),
        ("mb_vw_h"@, int_or_null(viewport_dim(data.viewport, false))),
        ("mb_points_b64"@, text_or_null(opt_text(data.points_deflate_b64))),
        ("mb_clicks_json"@, text_or_null(clicks_json)),
        ("mb_wheel_ticks"@, int_or_null(match data.wheel { Some(w) => Some(w.ticks as int), None => None })),
        ("mb_wheel_dy_sum"@, num_or_null(match data.wheel { Some(w) => Some(w.dy_sum), None => None })),
        ("score_total"@, ParamView::Int(total)),
        ("score_matched"@, ParamView::Text(matched_json)),
    ]
}

fn push_param(ps: &mut Vec<(String, ParamValue)>, key: &str, v: ParamValue)
    ensures
        params_view(final(ps)@) == params_view(old(ps)@).push((key@, param_view(v))),
{
    let ghost before = ps@;
    ps.push((String::from_str(key), v));
    proof {
        assert(ps@ == before.push((ps@.last().0, v)));
        assert(params_view(ps@) =~= params_view(before).push((key@, param_view(v))));
    }
}

fn text_value(s: &String) -> (r: ParamValue)
    ensures
        param_view(r) == ParamView::Text(s@),
{
    ParamValue::Text(s.clone())
}

fn text_or_empty(o: &Option<String>) -> (r: ParamValue)
    ensures
        param_view(r) == ParamView::Text(or_empty(opt_text(*o))),
{
    match o {
        Some(s) => ParamValue::Text(s.clone()),
        None => ParamValue::Text(String::new()),
    }
}

/// The flat parameter set of the merge statement. The serialised click list
/// and matched-rule list come from the caller, which owns the serialisation
/// format.
pub fn upsert_params(
    data: &EventoInput,
    facts: &IngestFacts,
    score_total: i64,
    clicks_json: &Option<String>,
    matched_json: &str,
) -> (r: Vec<(String, ParamValue)>)
    ensures
        params_view(r@) == upsert_params_of(
            *data,
            *facts,
            score_total as int,
            opt_text(*clicks_json),
            matched_json@,
        ),
{
    let mut ps: Vec<(String, ParamValue)> = Vec::new();
    let device_type = match &facts.device.device_type {
        Some(t) => ParamValue::Text(t.clone()),
        None => ParamValue::Text(String::from_str("unknown")),
    };
    let geo_key = if facts.geo.key.as_str().is_empty() {
        ParamValue::Null
    } else {
        ParamValue::Text(facts.geo.key.clone())
    };
    let (vw_w, vw_h) = match data.viewport {
        Some(v) => (Some(v.w as i64), Some(v.h as i64)),
        None => (None, None),
    };
    let (ticks, dy_sum) = match data.wheel {
        Some(w) => (Some(w.ticks as i64), Some(w.dy_sum)),
        None => (None, None),
    };
    push_param(&mut ps, "identityId", text_value(&facts.identity.id));
    push_param(&mut ps, "deviceId", text_value(&facts.device.id));
    push_param(&mut ps, "os", text_or_empty(&facts.device.os));
    push_param(&mut ps, "browser", text_or_empty(&facts.device.browser));
    push_param(&mut ps, "deviceType", device_type);
    push_param(&mut ps, "ts_ms", ParamValue::Int(facts.event.ts_ms));
    push_param(&mut ps, "sessionId", text_value(&facts.session.id));
    push_param(&mut ps, "ip", text_param(&facts.network.ip));
    push_param(&mut ps, "uaRaw", text_param(&facts.network.ua_raw));
    push_param(&mut ps, "eventId", text_value(&facts.event.id));
    push_param(&mut ps, "eventType", text_value(&facts.event.event_type));
    push_param(&mut ps, "geoKey", geo_key);
    push_param(&mut ps, "geoCountry", text_param(&facts.geo.country));
    push_param(&mut ps, "geoRegion", text_param(&facts.geo.region));
    push_param(&mut ps, "geoCity", text_param(&facts.geo.city));
    push_param(&mut ps, "geoTimezone", text_param(&facts.geo.timezone));
    push_param(&mut ps, "geoLat", num_param(facts.geo.latitude));
    push_param(&mut ps, "geoLng", num_param(facts.geo.longitude));
    push_param(&mut ps, "front_url", text_param(&data.front_url));
    push_param(&mut ps, "front_path", text_param(&data.front_path));
    push_param(&mut ps, "front_referrer", text_param(&data.front_referrer));
    push_param(&mut ps, "backend_path", text_param(&data.backend_path));
    push_param(&mut ps, "backend_method", text_param(&data.backend_method));
    push_param(&mut ps, "backend_host", text_param(&data.backend_host));
    push_param(&mut ps, "mb_ts_start", int_param(data.ts_start));
    push_param(&mut ps, "mb_ts_end", int_param(data.ts_end));
    push_param(&mut ps, "mb_vw_w", int_param(vw_w));
    push_param(&mut ps, "mb_vw_h", int_param(vw_h));
    push_param(&mut ps, "mb_points_b64", text_param(&data.points_deflate_b64));
    push_param(&mut ps, "mb_clicks_json", text_param(clicks_json));
    push_param(&mut ps, "mb_wheel_ticks", int_param(ticks));
    push_param(&mut ps, "mb_wheel_dy_sum", num_param(dy_sum));
    push_param(&mut ps, "score_total", ParamValue::Int(score_total));
    push_param(&mut ps, "score_matched", ParamValue::Text(String::from_str(matched_json)));
    proof {
        assert(params_view(Seq::<(String, ParamValue)>::empty()) =~= Seq::<(Seq<char>, ParamView)>::empty());
        assert(params_view(ps@) =~= upsert_params_of(
            *data,
            *facts,
            score_total as int,
            opt_text(*clicks_json),
            matched_json@,
        ));
    }
    ps
}

/// Geo fan-out: when the four geo attributes are all missing the key is empty
/// and the upsert adds no Geo node and no geo relationship; when any one is
/// there the key is not empty and exactly that one Geo node is merged and
/// linked from the session.
pub proof fn lemma_geo_fanout(
    g: GraphState,
    data: EventoInput,
    facts: IngestFacts,
    total: int,
    clicks_json: Option<Seq<char>>,
    matched_json: Seq<char>,
)
    requires
        facts_of(data, facts),
    ensures
        ({
            let ps = upsert_params_of(data, facts, total, clicks_json, matched_json);
            let g1 = apply_upsert(g, ps);
            let absent = facts.geo.country is None && facts.geo.region is None && facts.geo.city is None
                && facts.geo.timezone is None;
            &&& absent ==> facts.geo.key@.len() == 0 && g1.geos == g.geos && (forall|e: (Rel, Seq<char>, Seq<char>)|
                #[trigger] g1.edges.contains(e) && (e.0 is FromGeo || e.0 is LocatedIn) ==> g.edges.contains(e))
            &&& !absent ==> facts.geo.key@.len() > 0 && g1.geos == g.geos.insert(facts.geo.key@)
                && g1.edges.contains((Rel::FromGeo, facts.session.id@, facts.geo.key@))
        }),
{
    let ps = upsert_params_of(data, facts, total, clicks_json, matched_json);
    lemma_geo_key_empty(
        opt_text(facts.geo.country),
        opt_text(facts.geo.region),
        opt_text(facts.geo.city),
        opt_text(facts.geo.timezone),
    );
    reveal_strlit("identityId");
    reveal_strlit("deviceId");
    reveal_strlit("os");
    reveal_strlit("browser");
    reveal_strlit("deviceType");
    reveal_strlit("ts_ms");
    reveal_strlit("sessionId");
    reveal_strlit("ip");
    reveal_strlit("uaRaw");
    reveal_strlit("eventId");
    reveal_strlit("eventType");
    reveal_strlit("geoKey");
    assert forall|j: int| 0 <= j < 11 implies (#[trigger] ps[j]).0 != "geoKey"@ by {
        lemma_text_differs(ps[j].0, "geoKey"@, 0);
    }
    lemma_param_at(ps, 11, "geoKey"@);
    assert forall|j: int| 0 <= j < 6 implies (#[trigger] ps[j]).0 != "sessionId"@ by {
        lemma_text_differs(ps[j].0, "sessionId"@, 0);
    }
    lemma_param_at(ps, 6, "sessionId"@);
    reveal(edges_after);
}

/// Extraction is a function of the input: two fact records of one input bind
/// the same parameters, so a repeated ingest names the same nodes and the
/// repeat-ingest law of the store applies to it.
pub proof fn lemma_same_input_same_params(
    data: EventoInput,
    f1: IngestFacts,
    f2: IngestFacts,
    total: int,
    clicks_json: Option<Seq<char>>,
    matched_json: Seq<char>,
)
    requires
        facts_of(data, f1),
        facts_of(data, f2),
    ensures
        upsert_params_of(data, f1, total, clicks_json, matched_json) == upsert_params_of(
            data,
            f2,
            total,
            clicks_json,
            matched_json,
        ),
        same_node_keys(
            upsert_params_of(data, f1, total, clicks_json, matched_json),
            upsert_params_of(data, f2, total, clicks_json, matched_json),
        ),
{
}

/// The parameters the store model reads, found by name in the parameter list.
proof fn lemma_param_lookups(
    data: EventoInput,
    facts: IngestFacts,
    total: int,
    clicks_json: Option<Seq<char>>,
    matched_json: Seq<char>,
)
    ensures
        param_of(upsert_params_of(data, facts, total, clicks_json, matched_json), "identityId"@) == upsert_params_of(data, facts, total, clicks_json, matched_json)[0].1,
        param_of(upsert_params_of(data, facts, total, clicks_json, matched_json), "deviceId"@) == upsert_params_of(data, facts, total, clicks_json, matched_json)[1].1,
        param_of(upsert_params_of(data, facts, total, clicks_json, matched_json), "os"@) == upsert_params_of(data, facts, total, clicks_json, matched_json)[2].1,
        param_of(upsert_params_of(data, facts, total, clicks_json, matched_json), "browser"@) == upsert_params_of(data, facts, total, clicks_json, matched_json)[3].1,
        param_of(upsert_params_of(data, facts, total, clicks_json, matched_json), "deviceType"@) == upsert_params_of(data, facts, total, clicks_json, matched_json)[4].1,
        param_of(upsert_params_of(data, facts, total, clicks_json, matched_json), "ts_ms"@) == upsert_params_of(data, facts, total, clicks_json, matched_json)[5].1,
        param_of(upsert_params_of(data, facts, total, clicks_json, matched_json), "sessionId"@) == upsert_params_of(data, facts, total, clicks_json, matched_json)[6].1,
        param_of(upsert_params_of(data, facts, total, clicks_json, matched_json), "ip"@) == upsert_params_of(data, facts, total, clicks_json, matched_json)[7].1,
        param_of(upsert_params_of(data, facts, total, clicks_json, matched_json), "uaRaw"@) == upsert_params_of(data, facts, total, clicks_json, matched_json)[8].1,
        param_of(upsert_params_of(data, facts, total, clicks_json, matched_json), "eventId"@) == upsert_params_of(data, facts, total, clicks_json, matched_json)[9].1,
        param_of(upsert_params_of(data, facts, total, clicks_json, matched_json), "eventType"@) == upsert_params_of(data, facts, total, clicks_json, matched_json)[10].1,
        param_of(upsert_params_of(data, facts, total, clicks_json, matched_json), "front_url"@) == upsert_params_of(data, facts, total, clicks_json, matched_json)[18].1,
        param_of(upsert_params_of(data, facts, total, clicks_json, matched_json), "front_path"@) == upsert_params_of(data, facts, total, clicks_json, matched_json)[19].1,
        param_of(upsert_params_of(data, facts, total, clicks_json, matched_json), "front_referrer"@) == upsert_params_of(data, facts, total, clicks_json, matched_json)[20].1,
        param_of(upsert_params_of(data, facts, total, clicks_json, matched_json), "backend_path"@) == upsert_params_of(data, facts, total, clicks_json, matched_json)[21].1,
        param_of(upsert_params_of(data, facts, total, clicks_json, matched_json), "backend_method"@) == upsert_params_of(data, facts, total, clicks_json, matched_json)[22].1,
        param_of(upsert_params_of(data, facts, total, clicks_json, matched_json), "backend_host"@) == upsert_params_of(data, facts, total, clicks_json, matched_json)[23].1,
        param_of(upsert_params_of(data, facts, total, clicks_json, matched_json), "score_total"@) == upsert_params_of(data, facts, total, clicks_json, matched_json)[32].1,
{
    let ps = upsert_params_of(data, facts, total, clicks_json, matched_json);
    reveal_strlit("identityId");
    reveal_strlit("deviceId");
    reveal_strlit("os");
    reveal_strlit("browser");
    reveal_strlit("deviceType");
    reveal_strlit("ts_ms");
    reveal_strlit("sessionId");
    reveal_strlit("ip");
    reveal_strlit("uaRaw");
    reveal_strlit("eventId");
    reveal_strlit("eventType");
    reveal_strlit("geoKey");
    reveal_strlit("geoCountry");
    reveal_strlit("geoRegion");
    reveal_strlit("geoCity");
    reveal_strlit("geoTimezone");
    reveal_strlit("geoLat");
    reveal_strlit("geoLng");
    reveal_strlit("front_url");
    reveal_strlit("front_path");
    reveal_strlit("front_referrer");
    reveal_strlit("backend_path");
    reveal_strlit("backend_method");
    reveal_strlit("backend_host");
    reveal_strlit("mb_ts_start");
    reveal_strlit("mb_ts_end");
    reveal_strlit("mb_vw_w");
    reveal_strlit("mb_vw_h");
    reveal_strlit("mb_points_b64");
    reveal_strlit("mb_clicks_json");
    reveal_strlit("mb_wheel_ticks");
    reveal_strlit("mb_wheel_dy_sum");
    reveal_strlit("score_total");
    lemma_param_at(ps, 0, "identityId"@);
    lemma_text_differs(ps[0].0, "deviceId"@, 0);
    lemma_param_at(ps, 1, "deviceId"@);
    lemma_text_differs(ps[0].0, "os"@, 0);
    lemma_text_differs(ps[1].0, "os"@, 0);
    lemma_param_at(ps, 2, "os"@);
    lemma_text_differs(ps[0].0, "browser"@, 0);
    lemma_text_differs(ps[1].0, "browser"@, 0);
    lemma_text_differs(ps[2].0, "browser"@, 0);
    lemma_param_at(ps, 3, "browser"@);
    lemma_text_differs(ps[0].0, "deviceType"@, 0);
    lemma_text_differs(ps[1].0, "deviceType"@, 6);
    lemma_text_differs(ps[2].0, "deviceType"@, 0);
    lemma_text_differs(ps[3].0, "deviceType"@, 0);
    lemma_param_at(ps, 4, "deviceType"@);
    lemma_text_differs(ps[0].0, "ts_ms"@, 0);
    lemma_text_differs(ps[1].0, "ts_ms"@, 0);
    lemma_text_differs(ps[2].0, "ts_ms"@, 0);
    lemma_text_differs(ps[3].0, "ts_ms"@, 0);
    lemma_text_differs(ps[4].0, "ts_ms"@, 0);
    lemma_param_at(ps, 5, "ts_ms"@);
    lemma_text_differs(ps[0].0, "sessionId"@, 0);
    lemma_text_differs(ps[1].0, "sessionId"@, 0);
    lemma_text_differs(ps[2].0, "sessionId"@, 0);
    lemma_text_differs(ps[3].0, "sessionId"@, 0);
    lemma_text_differs(ps[4].0, "sessionId"@, 0);
    lemma_text_differs(ps[5].0, "sessionId"@, 0);
    lemma_param_at(ps, 6, "sessionId"@);
    lemma_text_differs(ps[0].0, "ip"@, 1);
    lemma_text_differs(ps[1].0, "ip"@, 0);
    lemma_text_differs(ps[2].0, "ip"@, 0);
    lemma_text_differs(ps[3].0, "ip"@, 0);
    lemma_text_differs(ps[4].0, "ip"@, 0);
    lemma_text_differs(ps[5].0, "ip"@, 0);
    lemma_text_differs(ps[6].0, "ip"@, 0);
    lemma_param_at(ps, 7, "ip"@);
    lemma_text_differs(ps[0].0, "uaRaw"@, 0);
    lemma_text_differs(ps[1].0, "uaRaw"@, 0);
    lemma_text_differs(ps[2].0, "uaRaw"@, 0);
    lemma_text_differs(ps[3].0, "uaRaw"@, 0);
    lemma_text_differs(ps[4].0, "uaRaw"@, 0);
    lemma_text_differs(ps[5].0, "uaRaw"@, 0);
    lemma_text_differs(ps[6].0, "uaRaw"@, 0);
    lemma_text_differs(ps[7].0, "uaRaw"@, 0);
    lemma_param_at(ps, 8, "uaRaw"@);
    lemma_text_differs(ps[0].0, "eventId"@, 0);
    lemma_text_differs(ps[1].0, "eventId"@, 0);
    lemma_text_differs(ps[2].0, "eventId"@, 0);
    lemma_text_differs(ps[3].0, "eventId"@, 0);
    lemma_text_differs(ps[4].0, "eventId"@, 0);
    lemma_text_differs(ps[5].0, "eventId"@, 0);
    lemma_text_differs(ps[6].0, "eventId"@, 0);
    lemma_text_differs(ps[7].0, "eventId"@, 0);
    lemma_text_differs(ps[8].0, "eventId"@, 0);
    lemma_param_at(ps, 9, "eventId"@);
    lemma_text_differs(ps[0].0, "eventType"@, 0);
    lemma_text_differs(ps[1].0, "eventType"@, 0);
    lemma_text_differs(ps[2].0, "eventType"@, 0);
    lemma_text_differs(ps[3].0, "eventType"@, 0);
    lemma_text_differs(ps[4].0, "eventType"@, 0);
    lemma_text_differs(ps[5].0, "eventType"@, 0);
    lemma_text_differs(ps[6].0, "eventType"@, 0);
    lemma_text_differs(ps[7].0, "eventType"@, 0);
    lemma_text_differs(ps[8].0, "eventType"@, 0);
    lemma_text_differs(ps[9].0, "eventType"@, 5);
    lemma_param_at(ps, 10, "eventType"@);
    lemma_text_differs(ps[0].0, "front_url"@, 0);
    lemma_text_differs(ps[1].0, "front_url"@, 0);
    lemma_text_differs(ps[2].0, "front_url"@, 0);
    lemma_text_differs(ps[3].0, "front_url"@, 0);
    lemma_text_differs(ps[4].0, "front_url"@, 0);
    lemma_text_differs(ps[5].0, "front_url"@, 0);
    lemma_text_differs(ps[6].0, "front_url"@, 0);
    lemma_text_differs(ps[7].0, "front_url"@, 0);
    lemma_text_differs(ps[8].0, "front_url"@, 0);
    lemma_text_differs(ps[9].0, "front_url"@, 0);
    lemma_text_differs(ps[10].0, "front_url"@, 0);
    lemma_text_differs(ps[11].0, "front_url"@, 0);
    lemma_text_differs(ps[12].0, "front_url"@, 0);
    lemma_text_differs(ps[13].0, "front_url"@, 0);
    lemma_text_differs(ps[14].0, "front_url"@, 0);
    lemma_text_differs(ps[15].0, "front_url"@, 0);
    lemma_text_differs(ps[16].0, "front_url"@, 0);
    lemma_text_differs(ps[17].0, "front_url"@, 0);
    lemma_param_at(ps, 18, "front_url"@);
    lemma_text_differs(ps[0].0, "front_path"@, 0);
    lemma_text_differs(ps[1].0, "front_path"@, 0);
    lemma_text_differs(ps[2].0, "front_path"@, 0);
    lemma_text_differs(ps[3].0, "front_path"@, 0);
    lemma_text_differs(ps[4].0, "front_path"@, 0);
    lemma_text_differs(ps[5].0, "front_path"@, 0);
    lemma_text_differs(ps[6].0, "front_path"@, 0);
    lemma_text_differs(ps[7].0, "front_path"@, 0);
    lemma_text_differs(ps[8].0, "front_path"@, 0);
    lemma_text_differs(ps[9].0, "front_path"@, 0);
    lemma_text_differs(ps[10].0, "front_path"@, 0);
    lemma_text_differs(ps[11].0, "front_path"@, 0);
    lemma_text_differs(ps[12].0, "front_path"@, 0);
    lemma_text_differs(ps[13].0, "front_path"@, 0);
    lemma_text_differs(ps[14].0, "front_path"@, 0);
    lemma_text_differs(ps[15].0, "front_path"@, 0);
    lemma_text_differs(ps[16].0, "front_path"@, 0);
    lemma_text_differs(ps[17].0, "front_path"@, 0);
    lemma_text_differs(ps[18].0, "front_path"@, 6);
    lemma_param_at(ps, 19, "front_path"@);
    lemma_text_differs(ps[0].0, "front_referrer"@, 0);
    lemma_text_differs(ps[1].0, "front_referrer"@, 0);
    lemma_text_differs(ps[2].0, "front_referrer"@, 0);
    lemma_text_differs(ps[3].0, "front_referrer"@, 0);
    lemma_text_differs(ps[4].0, "front_referrer"@, 0);
    lemma_text_differs(ps[5].0, "front_referrer"@, 0);
    lemma_text_differs(ps[6].0, "front_referrer"@, 0);
    lemma_text_differs(ps[7].0, "front_referrer"@, 0);
    lemma_text_differs(ps[8].0, "front_referrer"@, 0);
    lemma_text_differs(ps[9].0, "front_referrer"@, 0);
    lemma_text_differs(ps[10].0, "front_referrer"@, 0);
    lemma_text_differs(ps[11].0, "front_referrer"@, 0);
    lemma_text_differs(ps[12].0, "front_referrer"@, 0);
    lemma_text_differs(ps[13].0, "front_referrer"@, 0);
    lemma_text_differs(ps[14].0, "front_referrer"@, 0);
    lemma_text_differs(ps[15].0, "front_referrer"@, 0);
    lemma_text_differs(ps[16].0, "front_referrer"@, 0);
    lemma_text_differs(ps[17].0, "front_referrer"@, 0);
    lemma_text_differs(ps[18].0, "front_referrer"@, 6);
    lemma_text_differs(ps[19].0, "front_referrer"@, 6);
    lemma_param_at(ps, 20, "front_referrer"@);
    lemma_text_differs(ps[0].0, "backend_path"@, 0);
    lemma_text_differs(ps[1].0, "backend_path"@, 0);
    lemma_text_differs(ps[2].0, "backend_path"@, 0);
    lemma_text_differs(ps[3].0, "backend_path"@, 1);
    lemma_text_differs(ps[4].0, "backend_path"@, 0);
    lemma_text_differs(ps[5].0, "backend_path"@, 0);
    lemma_text_differs(ps[6].0, "backend_path"@, 0);
    lemma_text_differs(ps[7].0, "backend_path"@, 0);
    lemma_text_differs(ps[8].0, "backend_path"@, 0);
    lemma_text_differs(ps[9].0, "backend_path"@, 0);
    lemma_text_differs(ps[10].0, "backend_path"@, 0);
    lemma_text_differs(ps[11].0, "backend_path"@, 0);
    lemma_text_differs(ps[12].0, "backend_path"@, 0);
    lemma_text_differs(ps[13].0, "backend_path"@, 0);
    lemma_text_differs(ps[14].0, "backend_path"@, 0);
    lemma_text_differs(ps[15].0, "backend_path"@, 0);
    lemma_text_differs(ps[16].0, "backend_path"@, 0);
    lemma_text_differs(ps[17].0, "backend_path"@, 0);
    lemma_text_differs(ps[18].0, "backend_path"@, 0);
    lemma_text_differs(ps[19].0, "backend_path"@, 0);
    lemma_text_differs(ps[20].0, "backend_path"@, 0);
    lemma_param_at(ps, 21, "backend_path"@);
    lemma_text_differs(ps[0].0, "backend_method"@, 0);
    lemma_text_differs(ps[1].0, "backend_method"@, 0);
    lemma_text_differs(ps[2].0, "backend_method"@, 0);
    lemma_text_differs(ps[3].0, "backend_method"@, 1);
    lemma_text_differs(ps[4].0, "backend_method"@, 0);
    lemma_text_differs(ps[5].0, "backend_method"@, 0);
    lemma_text_differs(ps[6].0, "backend_method"@, 0);
    lemma_text_differs(ps[7].0, "backend_method"@, 0);
    lemma_text_differs(ps[8].0, "backend_method"@, 0);
    lemma_text_differs(ps[9].0, "backend_method"@, 0);
    lemma_text_differs(ps[10].0, "backend_method"@, 0);
    lemma_text_differs(ps[11].0, "backend_method"@, 0);
    lemma_text_differs(ps[12].0, "backend_method"@, 0);
    lemma_text_differs(ps[13].0, "backend_method"@, 0);
    lemma_text_differs(ps[14].0, "backend_method"@, 0);
    lemma_text_differs(ps[15].0, "backend_method"@, 0);
    lemma_text_differs(ps[16].0, "backend_method"@, 0);
    lemma_text_differs(ps[17].0, "backend_method"@, 0);
    lemma_text_differs(ps[18].0, "backend_method"@, 0);
    lemma_text_differs(ps[19].0, "backend_method"@, 0);
    lemma_text_differs(ps[20].0, "backend_method"@, 0);
    lemma_text_differs(ps[21].0, "backend_method"@, 8);
    lemma_param_at(ps, 22, "backend_method"@);
    lemma_text_differs(ps[0].0, "backend_host"@, 0);
    lemma_text_differs(ps[1].0, "backend_host"@, 0);
    lemma_text_differs(ps[2].0, "backend_host"@, 0);
    lemma_text_differs(ps[3].0, "backend_host"@, 1);
    lemma_text_differs(ps[4].0, "backend_host"@, 0);
    lemma_text_differs(ps[5].0, "backend_host"@, 0);
    lemma_text_differs(ps[6].0, "backend_host"@, 0);
    lemma_text_differs(ps[7].0, "backend_host"@, 0);
    lemma_text_differs(ps[8].0, "backend_host"@, 0);
    lemma_text_differs(ps[9].0, "backend_host"@, 0);
    lemma_text_differs(ps[10].0, "backend_host"@, 0);
    lemma_text_differs(ps[11].0, "backend_host"@, 0);
    lemma_text_differs(ps[12].0, "backend_host"@, 0);
    lemma_text_differs(ps[13].0, "backend_host"@, 0);
    lemma_text_differs(ps[14].0, "backend_host"@, 0);
    lemma_text_differs(ps[15].0, "backend_host"@, 0);
    lemma_text_differs(ps[16].0, "backend_host"@, 0);
    lemma_text_differs(ps[17].0, "backend_host"@, 0);
    lemma_text_differs(ps[18].0, "backend_host"@, 0);
    lemma_text_differs(ps[19].0, "backend_host"@, 0);
    lemma_text_differs(ps[20].0, "backend_host"@, 0);
    lemma_text_differs(ps[21].0, "backend_host"@, 8);
    lemma_text_differs(ps[22].0, "backend_host"@, 8);
    lemma_param_at(ps, 23, "backend_host"@);
    lemma_text_differs(ps[0].0, "score_total"@, 0);
    lemma_text_differs(ps[1].0, "score_total"@, 0);
    lemma_text_differs(ps[2].0, "score_total"@, 0);
    lemma_text_differs(ps[3].0, "score_total"@, 0);
    lemma_text_differs(ps[4].0, "score_total"@, 0);
    lemma_text_differs(ps[5].0, "score_total"@, 0);
    lemma_text_differs(ps[6].0, "score_total"@, 1);
    lemma_text_differs(ps[7].0, "score_total"@, 0);
    lemma_text_differs(ps[8].0, "score_total"@, 0);
    lemma_text_differs(ps[9].0, "score_total"@, 0);
    lemma_text_differs(ps[10].0, "score_total"@, 0);
    lemma_text_differs(ps[11].0, "score_total"@, 0);
    lemma_text_differs(ps[12].0, "score_total"@, 0);
    lemma_text_differs(ps[13].0, "score_total"@, 0);
    lemma_text_differs(ps[14].0, "score_total"@, 0);
    lemma_text_differs(ps[15].0, "score_total"@, 0);
    lemma_text_differs(ps[16].0, "score_total"@, 0);
    lemma_text_differs(ps[17].0, "score_total"@, 0);
    lemma_text_differs(ps[18].0, "score_total"@, 0);
    lemma_text_differs(ps[19].0, "score_total"@, 0);
    lemma_text_differs(ps[20].0, "score_total"@, 0);
    lemma_text_differs(ps[21].0, "score_total"@, 0);
    lemma_text_differs(ps[22].0, "score_total"@, 0);
    lemma_text_differs(ps[23].0, "score_total"@, 0);
    lemma_text_differs(ps[24].0, "score_total"@, 0);
    lemma_text_differs(ps[25].0, "score_total"@, 0);
    lemma_text_differs(ps[26].0, "score_total"@, 0);
    lemma_text_differs(ps[27].0, "score_total"@, 0);
    lemma_text_differs(ps[28].0, "score_total"@, 0);
    lemma_text_differs(ps[29].0, "score_total"@, 0);
    lemma_text_differs(ps[30].0, "score_total"@, 0);
    lemma_text_differs(ps[31].0, "score_total"@, 0);
    lemma_param_at(ps, 32, "score_total"@);
}

/// Two ingests of inputs that name the same identity, device, session and
/// event, whatever else differs (ip, user agent, page and back-end details):
/// the second creates no Identity, Device, Session or Event node; device
/// attributes and event type and time are the second input's; the session's
/// ip and user agent and the event's front-end and back-end fields keep the
/// first value that was not null (the stored one, else the first input's);
/// creation times keep their first value; each ingest appends a Score node.
pub proof fn lemma_repeat_ingest_inputs(
    g: GraphState,
    d1: EventoInput,
    f1: IngestFacts,
    t1: int,
    c1: Option<Seq<char>>,
    m1: Seq<char>,
    d2: EventoInput,
    f2: IngestFacts,
    t2: int,
    c2: Option<Seq<char>>,
    m2: Seq<char>,
)
    requires
        facts_of(d1, f1),
        facts_of(d2, f2),
        f1.identity.id@ == f2.identity.id@,
        f1.device.id@ == f2.device.id@,
        f1.session.id@ == f2.session.id@,
        f1.event.id@ == f2.event.id@,
    ensures
        ({
            let g1 = apply_upsert(g, upsert_params_of(d1, f1, t1, c1, m1));
            let g2 = apply_upsert(g1, upsert_params_of(d2, f2, t2, c2, m2));
            let did = f1.device.id@;
            let sid = f1.session.id@;
            let eid = f1.event.id@;
            let s0 = node_props(g.sessions, sid);
            let e0 = node_props(g.events, eid);
            &&& g2.identities.dom() == g1.identities.dom()
            &&& g2.devices.dom() == g1.devices.dom()
            &&& g2.sessions.dom() == g1.sessions.dom()
            &&& g2.events.dom() == g1.events.dom()
            &&& g2.scores.len() == g.scores.len() + 2
            &&& stored(g2.devices[did], Prop::Os) == ParamView::Text(or_empty(opt_text(f2.device.os)))
            &&& stored(g2.devices[did], Prop::Browser) == ParamView::Text(or_empty(opt_text(f2.device.browser)))
            &&& stored(g2.devices[did], Prop::DeviceType) == ParamView::Text(device_type_or_unknown(opt_text(f2.device.device_type)))
            &&& stored(g2.devices[did], Prop::LastSeen) == ParamView::Int(f2.event.ts_ms as int)
            &&& stored(g2.devices[did], Prop::FirstSeen) == stored(g1.devices[did], Prop::FirstSeen)
            &&& stored(g2.sessions[sid], Prop::StartedAt) == stored(g1.sessions[sid], Prop::StartedAt)
            &&& stored(g2.events[eid], Prop::Type) == ParamView::Text(f2.event.event_type@)
            &&& stored(g2.events[eid], Prop::Ts) == ParamView::Int(f2.event.ts_ms as int)
            &&& stored(g2.sessions[sid], Prop::Ip) == first_non_null(stored(s0, Prop::Ip), text_or_null(opt_text(f1.network.ip)), text_or_null(opt_text(f2.network.ip)))
            &&& stored(g2.sessions[sid], Prop::Ua) == first_non_null(stored(s0, Prop::Ua), text_or_null(opt_text(f1.network.ua_raw)), text_or_null(opt_text(f2.network.ua_raw)))
            &&& stored(g2.events[eid], Prop::FrontUrl) == first_non_null(stored(e0, Prop::FrontUrl), text_or_null(opt_text(d1.front_url)), text_or_null(opt_text(d2.front_url)))
            &&& stored(g2.events[eid], Prop::FrontPath) == first_non_null(stored(e0, Prop::FrontPath), text_or_null(opt_text(d1.front_path)), text_or_null(opt_text(d2.front_path)))
            &&& stored(g2.events[eid], Prop::FrontReferrer) == first_non_null(stored(e0, Prop::FrontReferrer), text_or_null(opt_text(d1.front_referrer)), text_or_null(opt_text(d2.front_referrer)))
            &&& stored(g2.events[eid], Prop::BackendPath) == first_non_null(stored(e0, Prop::BackendPath), text_or_null(opt_text(d1.backend_path)), text_or_null(opt_text(d2.backend_path)))
            &&& stored(g2.events[eid], Prop::BackendMethod) == first_non_null(stored(e0, Prop::BackendMethod), text_or_null(opt_text(d1.backend_method)), text_or_null(opt_text(d2.backend_method)))
            &&& stored(g2.events[eid], Prop::BackendHost) == first_non_null(stored(e0, Prop::BackendHost), text_or_null(opt_text(d1.backend_host)), text_or_null(opt_text(d2.backend_host)))
        }),
{
    let ps1 = upsert_params_of(d1, f1, t1, c1, m1);
    let ps2 = upsert_params_of(d2, f2, t2, c2, m2);
    lemma_param_lookups(d1, f1, t1, c1, m1);
    lemma_param_lookups(d2, f2, t2, c2, m2);
    assert(same_ids(ps1, ps2));
    lemma_repeat_ingest(g, ps1, ps2);
}

/// The store with nothing in it.
pub open spec fn empty_store() -> GraphState {
    GraphState {
        identities: Map::empty(),
        devices: Map::empty(),
        sessions: Map::empty(),
        events: Map::empty(),
        ips: Set::empty(),
        geos: Set::empty(),
        edges: Set::empty(),
        scores: Seq::empty(),
    }
}

/// The first ingest into an empty store creates exactly one Identity, Device,
/// Session and Event node, keyed by the extracted ids and linked
/// Identity-USES->Device-OPENED->Session-EMITTED->Event; the device carries
/// its class; an IP node linked from the session exists exactly when the ip is
/// not empty; no Geo node exists when the four geo attributes are missing; and
/// one Score node records the total.
pub proof fn lemma_first_ingest(
    data: EventoInput,
    facts: IngestFacts,
    total: int,
    clicks_json: Option<Seq<char>>,
    matched_json: Seq<char>,
)
    requires
        facts_of(data, facts),
    ensures
        ({
            let g1 = apply_upsert(empty_store(), upsert_params_of(data, facts, total, clicks_json, matched_json));
            let iid = facts.identity.id@;
            let did = facts.device.id@;
            let sid = facts.session.id@;
            let eid = facts.event.id@;
            &&& g1.identities.dom() == set![iid]
            &&& g1.devices.dom() == set![did]
            &&& g1.sessions.dom() == set![sid]
            &&& g1.events.dom() == set![eid]
            &&& g1.edges.contains((Rel::Uses, iid, did))
            &&& g1.edges.contains((Rel::Opened, did, sid))
            &&& g1.edges.contains((Rel::Emitted, sid, eid))
            &&& stored(g1.devices[did], Prop::DeviceType) == ParamView::Text(
                device_type_or_unknown(opt_text(facts.device.device_type)),
            )
            &&& stored(g1.events[eid], Prop::Type) == ParamView::Text(facts.event.event_type@)
            &&& match facts.network.ip {
                Some(ip) => g1.ips == set![ip@] && g1.edges.contains((Rel::FromIp, sid, ip@)),
                None => g1.ips == Set::<Seq<char>>::empty(),
            }
            &&& (facts.geo.country is None && facts.geo.region is None && facts.geo.city is None
                && facts.geo.timezone is None) ==> g1.geos == Set::<Seq<char>>::empty()
            &&& g1.scores.len() == 1 && g1.scores[0].1 == ParamView::Int(total)
        }),
{
    lemma_first_ingest_nodes(data, facts, total, clicks_json, matched_json);
    lemma_first_ingest_links(data, facts, total, clicks_json, matched_json);
    lemma_first_ingest_props(data, facts, total, clicks_json, matched_json);
    lemma_geo_fanout(empty_store(), data, facts, total, clicks_json, matched_json);
}

proof fn lemma_first_ingest_nodes(
    data: EventoInput,
    facts: IngestFacts,
    total: int,
    clicks_json: Option<Seq<char>>,
    matched_json: Seq<char>,
)
    requires
        facts_of(data, facts),
    ensures
        ({
            let g1 = apply_upsert(empty_store(), upsert_params_of(data, facts, total, clicks_json, matched_json));
            &&& g1.identities.dom() == set![facts.identity.id@]
            &&& g1.devices.dom() == set![facts.device.id@]
            &&& g1.sessions.dom() == set![facts.session.id@]
            &&& g1.events.dom() == set![facts.event.id@]
            &&& match facts.network.ip {
                Some(ip) => g1.ips == set![ip@],
                None => g1.ips == Set::<Seq<char>>::empty(),
            }
            &&& g1.scores.len() == 1 && g1.scores[0].1 == ParamView::Int(total)
        }),
{
    let g1 = apply_upsert(empty_store(), upsert_params_of(data, facts, total, clicks_json, matched_json));
    lemma_param_lookups(data, facts, total, clicks_json, matched_json);
    assert(g1.identities.dom() =~= set![facts.identity.id@]);
    assert(g1.devices.dom() =~= set![facts.device.id@]);
    assert(g1.sessions.dom() =~= set![facts.session.id@]);
    assert(g1.events.dom() =~= set![facts.event.id@]);
    match facts.network.ip {
        Some(ip) => {
            assert(g1.ips =~= set![ip@]);
        },
        None => {
            assert(g1.ips =~= Set::<Seq<char>>::empty());
        },
    }
}

proof fn lemma_first_ingest_links(
    data: EventoInput,
    facts: IngestFacts,
    total: int,
    clicks_json: Option<Seq<char>>,
    matched_json: Seq<char>,
)
    requires
        facts_of(data, facts),
    ensures
        ({
            let g1 = apply_upsert(empty_store(), upsert_params_of(data, facts, total, clicks_json, matched_json));
            &&& g1.edges.contains((Rel::Uses, facts.identity.id@, facts.device.id@))
            &&& g1.edges.contains((Rel::Opened, facts.device.id@, facts.session.id@))
            &&& g1.edges.contains((Rel::Emitted, facts.session.id@, facts.event.id@))
            &&& facts.network.ip matches Some(ip) ==> g1.edges.contains((Rel::FromIp, facts.session.id@, ip@))
        }),
{
    lemma_param_lookups(data, facts, total, clicks_json, matched_json);
    reveal(edges_after);
}

proof fn lemma_first_ingest_props(
    data: EventoInput,
    facts: IngestFacts,
    total: int,
    clicks_json: Option<Seq<char>>,
    matched_json: Seq<char>,
)
    requires
        facts_of(data, facts),
    ensures
        ({
            let g1 = apply_upsert(empty_store(), upsert_params_of(data, facts, total, clicks_json, matched_json));
            &&& stored(g1.devices[facts.device.id@], Prop::DeviceType) == ParamView::Text(
                device_type_or_unknown(opt_text(facts.device.device_type)),
            )
            &&& stored(g1.events[facts.event.id@], Prop::Type) == ParamView::Text(facts.event.event_type@)
        }),
{
    let ps = upsert_params_of(data, facts, total, clicks_json, matched_json);
    lemma_param_lookups(data, facts, total, clicks_json, matched_json);
    lemma_upsert_writes(empty_store(), ps);
}

} // verus!
