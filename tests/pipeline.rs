use shaayud_core::decimal::Decimal;
use shaayud_core::facts::{
    extract_device_info, extract_event_info, extract_geo_info, extract_identity_info,
    extract_network_info, extract_session_info, GeoPayload, Timestamp,
};
use shaayud_core::graph::{IngestError, ParamValue, TxnAction, TxnPhase, TxnStage, UPSERT_STATEMENT};
use shaayud_core::ingest::{build_fact_bag, extract_facts, handle_ingest, upsert_params, EventoInput, Viewport, Wheel};
use shaayud_core::json::{JsonValue, Member};
use shaayud_core::score::{Cond, Rule, RuleSet};
use shaayud_core::text::{int_to_string, split_path};

const T_MS: i64 = 1_700_000_000_000;

fn text(s: &str) -> JsonValue {
    JsonValue::Str(s.to_string())
}

fn object(members: Vec<(&str, JsonValue)>) -> JsonValue {
    JsonValue::Object(
        members
            .into_iter()
            .map(|(k, v)| Member { key: k.to_string(), value: v })
            .collect(),
    )
}

fn fingerprint(visitor: Option<&str>, ua: Option<&str>, platform: Option<&str>) -> JsonValue {
    let mut components = vec![];
    if let Some(p) = platform {
        components.push(("platform", object(vec![("value", text(p))])));
    }
    if let Some(u) = ua {
        components.push(("userAgent", object(vec![("value", text(u))])));
    }
    let mut top = vec![("components", object(components))];
    if let Some(v) = visitor {
        top.push(("visitorId", text(v)));
    }
    object(top)
}

fn ts(ms: i64) -> Timestamp {
    Timestamp::from_millis(ms).expect("representable instant")
}

fn input(fp: JsonValue, ip: &str, header: JsonValue) -> EventoInput {
    EventoInput {
        shaayud_id: "u1".to_string(),
        fingerprint: fp,
        ip: ip.to_string(),
        user_agent: String::new(),
        header,
        timestamp: ts(T_MS),
        method: "POST".to_string(),
        path: "/x".to_string(),
        session_id: None,
        event_id: None,
        event_type: None,
        geo: None,
        front_url: None,
        front_path: None,
        front_referrer: None,
        backend_path: None,
        backend_method: None,
        backend_host: None,
        ts_start: None,
        ts_end: None,
        viewport: None,
        points_deflate_b64: None,
        clicks: None,
        wheel: None,
    }
}

fn param<'a>(ps: &'a [(String, ParamValue)], name: &str) -> &'a ParamValue {
    &ps.iter().find(|(k, _)| k == name).expect("parameter present").1
}

fn text_param(ps: &[(String, ParamValue)], name: &str) -> Option<String> {
    match param(ps, name) {
        ParamValue::Text(s) => Some(s.clone()),
        ParamValue::Null => None,
        other => panic!("unexpected parameter {:?}", other),
    }
}

fn empty_rules(default: i64) -> RuleSet {
    RuleSet { version: 1, default, rules: vec![] }
}

#[test]
fn device_type_follows_user_agent() {
    let mobile = extract_device_info(&fingerprint(Some("d"), Some("Mozilla Mobile Safari"), None));
    assert_eq!(mobile.device_type.as_deref(), Some("mobile"));
    let tablet = extract_device_info(&fingerprint(Some("d"), Some("Android Tablet"), None));
    assert_eq!(tablet.device_type.as_deref(), Some("tablet"));
    let both = extract_device_info(&fingerprint(Some("d"), Some("Tablet Mobile"), None));
    assert_eq!(both.device_type.as_deref(), Some("mobile"));
    let desktop = extract_device_info(&fingerprint(Some("d"), Some("Mozilla/5.0 (X11; Linux)"), None));
    assert_eq!(desktop.device_type.as_deref(), Some("desktop"));
    let none = extract_device_info(&fingerprint(Some("d"), None, Some("Linux")));
    assert_eq!(none.device_type.as_deref(), Some("unknown"));
    assert_eq!(none.os.as_deref(), Some("Linux"));
    assert_eq!(none.browser, None);
}

#[test]
fn absent_user_agent_is_bound_as_unknown() {
    let data = input(fingerprint(Some("d"), None, None), "", JsonValue::Null);
    let plan = handle_ingest(&data, &empty_rules(0));
    let ps = upsert_params(&data, &plan.facts, plan.score.total, &None, "[]");
    assert_eq!(text_param(&ps, "deviceType").as_deref(), Some("unknown"));
    assert_eq!(text_param(&ps, "os").as_deref(), Some(""));
    assert_eq!(text_param(&ps, "browser").as_deref(), Some(""));
}

#[test]
fn visitor_id_defaults_to_unknown() {
    let d = extract_device_info(&fingerprint(None, Some("x"), None));
    assert_eq!(d.id, "unknown");
    let d = extract_device_info(&JsonValue::Null);
    assert_eq!(d.id, "unknown");
    assert_eq!(d.os, None);
    let d = extract_device_info(&object(vec![("visitorId", JsonValue::Bool(true))]));
    assert_eq!(d.id, "unknown");
}

#[test]
fn identity_wraps_subject() {
    let i = extract_identity_info("subject-42");
    assert_eq!(i.id, "subject-42");
    assert_eq!(i.user_id, None);
}

#[test]
fn session_id_from_payload_first() {
    let header = object(vec![("sessionId", text("from-header"))]);
    let s = extract_session_info(&header, &Some("from-payload".to_string()), "dev1", &ts(T_MS));
    assert_eq!(s.id, "from-payload");
}

#[test]
fn session_id_from_header_second() {
    let header = object(vec![("sessionId", text("from-header"))]);
    let s = extract_session_info(&header, &None, "dev1", &ts(T_MS));
    assert_eq!(s.id, "from-header");
}

#[test]
fn session_id_synthesized_last() {
    let s = extract_session_info(&JsonValue::Null, &None, "dev1", &ts(T_MS));
    assert_eq!(s.id, "sess:dev1:1700000000");
    assert_eq!(s.started_at_iso, "2023-11-14T22:13:20+00:00");
}

#[test]
fn epoch_seconds_round_down() {
    assert_eq!(ts(1_999).epoch_seconds(), 1);
    assert_eq!(ts(-1).epoch_seconds(), -1);
    assert_eq!(ts(-1_000).epoch_seconds(), -1);
    let s = extract_session_info(&JsonValue::Null, &None, "d", &ts(-1));
    assert_eq!(s.id, "sess:d:-1");
}

#[test]
fn network_empty_strings_become_absent() {
    let n = extract_network_info("", "");
    assert_eq!(n.ip, None);
    assert_eq!(n.ua_raw, None);
    let n = extract_network_info("10.0.0.1", "curl/8");
    assert_eq!(n.ip.as_deref(), Some("10.0.0.1"));
    assert_eq!(n.ua_raw.as_deref(), Some("curl/8"));
}

#[test]
fn event_id_and_type_fallbacks() {
    let e = extract_event_info(&None, &None, "GET", "/a", "u1", "s1", &ts(T_MS));
    assert_eq!(e.id, "evt:u1:s1:1700000000");
    assert_eq!(e.event_type, "GET /a");
    assert_eq!(e.ts_ms, T_MS);
    let e = extract_event_info(&Some("e9".to_string()), &Some("click".to_string()), "GET", "/a", "u1", "s1", &ts(T_MS));
    assert_eq!(e.id, "e9");
    assert_eq!(e.event_type, "click");
}

#[test]
fn geo_key_empty_when_all_absent() {
    let g = extract_geo_info(&None, &JsonValue::Null);
    assert_eq!(g.key, "");
    assert_eq!(g.country, None);
    let data = input(fingerprint(Some("d"), None, None), "", JsonValue::Null);
    let plan = handle_ingest(&data, &empty_rules(0));
    let ps = upsert_params(&data, &plan.facts, 0, &None, "[]");
    assert_eq!(text_param(&ps, "geoKey"), None);
}

#[test]
fn geo_key_from_headers_with_one_attribute() {
    let headers = object(vec![("x-geo-city", text("Lisbon"))]);
    let g = extract_geo_info(&None, &headers);
    assert_eq!(g.key, "||Lisbon|");
    assert_eq!(g.city.as_deref(), Some("Lisbon"));
    assert_eq!(g.latitude, None);
}

#[test]
fn geo_payload_wins_over_headers() {
    let headers = object(vec![("x-geo-country", text("FR"))]);
    let payload = GeoPayload {
        country: Some("BR".to_string()),
        region: Some("SP".to_string()),
        city: None,
        latitude: Some(Decimal { mantissa: -2355, scale: 2 }),
        longitude: None,
        timezone: Some("America/Sao_Paulo".to_string()),
    };
    let g = extract_geo_info(&Some(payload), &headers);
    assert_eq!(g.key, "BR|SP||America/Sao_Paulo");
    assert_eq!(g.latitude, Some(Decimal { mantissa: -2355, scale: 2 }));
}

#[test]
fn fact_bag_holds_event_and_features() {
    let mut data = input(fingerprint(Some("d"), None, None), "", JsonValue::Null);
    data.user_agent = "   ".to_string();
    data.front_path = Some("/home".to_string());
    data.points_deflate_b64 = Some("QUJD".to_string());
    let facts = extract_facts(&data);
    let bag = build_fact_bag(&data, &facts);
    let at = |p: &str| bag.get_path(p).map(|v| format!("{:?}", v));
    assert_eq!(at("event.type"), Some(format!("{:?}", text("POST /x"))));
    assert_eq!(at("event.front_path"), Some(format!("{:?}", text("/home"))));
    assert_eq!(at("event.user_agent"), Some(format!("{:?}", text("   "))));
    assert_eq!(at("event.ua_empty"), Some(format!("{:?}", JsonValue::Bool(true))));
    assert_eq!(at("feat.mouse_points_len"), Some(format!("{:?}", JsonValue::Number(Decimal { mantissa: 4, scale: 0 }))));
    assert_eq!(at("feat.is_new_device_for_identity"), Some(format!("{:?}", JsonValue::Bool(true))));
}

#[test]
fn fact_bag_without_user_agent() {
    let data = input(fingerprint(Some("d"), None, None), "", JsonValue::Null);
    let facts = extract_facts(&data);
    let bag = build_fact_bag(&data, &facts);
    assert!(matches!(bag.get_path("event.user_agent"), Some(JsonValue::Null)));
    assert!(matches!(bag.get_path("event.ua_empty"), Some(JsonValue::Bool(true))));
    assert!(matches!(bag.get_path("event.front_path"), Some(JsonValue::Str(s)) if s.is_empty()));
}

#[test]
fn end_to_end_mobile_post() {
    let data = input(fingerprint(Some("dev1"), Some("Mobile Safari"), None), "1.2.3.4", JsonValue::Null);
    let rules = RuleSet {
        version: 1,
        default: 5,
        rules: vec![Rule {
            id: "never".to_string(),
            when: Cond::Eq { eq: ("event.type".to_string(), text("GET /y")) },
            score: 50,
            desc: None,
        }],
    };
    let plan = handle_ingest(&data, &rules);
    assert_eq!(plan.facts.device.id, "dev1");
    assert_eq!(plan.facts.device.device_type.as_deref(), Some("mobile"));
    assert_eq!(plan.facts.session.id, "sess:dev1:1700000000");
    assert_eq!(plan.facts.event.id, "evt:u1:sess:dev1:1700000000:1700000000");
    assert_eq!(plan.facts.event.event_type, "POST /x");
    assert_eq!(plan.score.total, 5);
    assert!(plan.score.matched.is_empty());
    let ps = upsert_params(&data, &plan.facts, plan.score.total, &None, "[]");
    assert_eq!(ps.len(), 34);
    assert_eq!(text_param(&ps, "ip").as_deref(), Some("1.2.3.4"));
    assert_eq!(text_param(&ps, "deviceType").as_deref(), Some("mobile"));
    assert_eq!(text_param(&ps, "geoKey"), None);
    assert!(matches!(param(&ps, "score_total"), ParamValue::Int(5)));
    assert!(matches!(param(&ps, "ts_ms"), ParamValue::Int(T_MS)));
    for (k, _) in &ps {
        assert!(UPSERT_STATEMENT.contains(&format!("${}", k)), "statement uses ${}", k);
    }
    let mut stage = TxnStage::NotStarted;
    let mut actions = vec![];
    loop {
        let a = stage.next_action();
        actions.push(a);
        if a == TxnAction::Finish {
            break;
        }
        stage = stage.advance(true);
    }
    assert_eq!(
        actions,
        vec![TxnAction::BeginTransaction, TxnAction::RunStatement, TxnAction::CommitTransaction, TxnAction::Finish]
    );
    assert_eq!(stage.outcome(), Some(Ok(())));
}

#[test]
fn transaction_failures_name_their_phase() {
    let s = TxnStage::NotStarted.advance(false);
    assert_eq!(s.next_action(), TxnAction::Finish);
    assert_eq!(s.outcome(), Some(Err(IngestError::GraphTransactionFailed { phase: TxnPhase::Start })));
    let s = TxnStage::NotStarted.advance(true).advance(false);
    assert_eq!(s.outcome(), Some(Err(IngestError::GraphTransactionFailed { phase: TxnPhase::Execute })));
    let s = TxnStage::NotStarted.advance(true).advance(true).advance(false);
    assert_eq!(s.outcome(), Some(Err(IngestError::GraphTransactionFailed { phase: TxnPhase::Commit })));
    assert_eq!(s.advance(true), s);
    assert_eq!(TxnStage::Begun.outcome(), None);
}

#[test]
fn repeated_ingest_names_the_same_nodes() {
    let data = input(fingerprint(Some("dev1"), Some("Mobile"), None), "1.2.3.4", JsonValue::Null);
    let a = handle_ingest(&data, &empty_rules(0));
    let b = handle_ingest(&data, &empty_rules(0));
    assert_eq!(a.facts.device.id, b.facts.device.id);
    assert_eq!(a.facts.session.id, b.facts.session.id);
    assert_eq!(a.facts.event.id, b.facts.event.id);
    assert_eq!(a.facts.identity.id, b.facts.identity.id);
}

#[test]
fn interaction_fields_are_bound() {
    let mut data = input(fingerprint(Some("d"), None, None), "", JsonValue::Null);
    data.event_type = Some("mouse_batch".to_string());
    data.viewport = Some(Viewport { w: 1280, h: 720 });
    data.wheel = Some(Wheel { ticks: 3, dy_sum: Decimal { mantissa: 125, scale: 1 } });
    data.ts_start = Some(10);
    let plan = handle_ingest(&data, &empty_rules(0));
    let ps = upsert_params(&data, &plan.facts, 0, &Some("[{\"x\":1}]".to_string()), "[]");
    assert!(matches!(param(&ps, "mb_vw_w"), ParamValue::Int(1280)));
    assert!(matches!(param(&ps, "mb_vw_h"), ParamValue::Int(720)));
    assert!(matches!(param(&ps, "mb_wheel_ticks"), ParamValue::Int(3)));
    assert!(matches!(param(&ps, "mb_wheel_dy_sum"), ParamValue::Num(Decimal { mantissa: 125, scale: 1 })));
    assert!(matches!(param(&ps, "mb_ts_start"), ParamValue::Int(10)));
    assert!(matches!(param(&ps, "mb_ts_end"), ParamValue::Null));
    assert_eq!(text_param(&ps, "mb_clicks_json").as_deref(), Some("[{\"x\":1}]"));
    assert_eq!(text_param(&ps, "eventType").as_deref(), Some("mouse_batch"));
}

#[test]
fn integers_render_in_decimal() {
    assert_eq!(int_to_string(0), "0");
    assert_eq!(int_to_string(1700000000), "1700000000");
    assert_eq!(int_to_string(-42), "-42");
    assert_eq!(int_to_string(i64::MIN), "-9223372036854775808");
}

#[test]
fn paths_split_on_dots() {
    assert_eq!(split_path("event.type"), vec!["event", "type"]);
    assert_eq!(split_path(""), vec![""]);
    assert_eq!(split_path("a..b."), vec!["a", "", "b", ""]);
}

#[test]
fn statement_keeps_stored_values_and_merges_geo_by_key() {
    for field in ["s.ip", "s.ua", "e.front_url", "e.front_path", "e.front_referrer", "e.backend_path", "e.backend_method", "e.backend_host"] {
        let prop = field.split('.').nth(1).unwrap();
        assert!(UPSERT_STATEMENT.contains(&format!("{} = coalesce({},", field, field)), "{} keeps its stored value", field);
        assert!(!UPSERT_STATEMENT.contains(&format!("coalesce(${}", prop)));
    }
    assert!(UPSERT_STATEMENT.contains("MERGE (g:Geo {key: $geoKey})"));
    assert!(UPSERT_STATEMENT.contains("MERGE (ip:IP {addr: $ip})"));
    assert!(UPSERT_STATEMENT.contains("CREATE (sc:Score"));
    assert!(UPSERT_STATEMENT.contains("ON CREATE SET s.startedAt = ts"));
    assert!(UPSERT_STATEMENT.contains("ON CREATE SET d.first_seen = ts"));
    assert!(UPSERT_STATEMENT.contains("ON CREATE SET i.createdAt = ts"));
    assert!(UPSERT_STATEMENT.contains("SET d.os = $os, d.browser = $browser, d.device_type = $deviceType, d.last_seen = ts"));
    assert!(UPSERT_STATEMENT.contains("SET e.type = $eventType,"));
}
