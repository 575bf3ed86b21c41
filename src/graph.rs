//! The graph side of an ingest: the typed parameter values bound into the
//! merge statement, the statement itself, and the transaction protocol as a
//! state machine that the driver of the store follows.

use vstd::prelude::*;
use crate::decimal::Decimal;
use crate::text::opt_text;

verus! {

/// A value bound to a statement parameter.
#[derive(Debug)]
pub enum ParamValue {
    Text(String),
    Int(i64),
    Num(Decimal),
    Bool(bool),
    Null,
}

/// The mathematical content of a parameter value.
pub enum ParamView {
    Text(Seq<char>),
    Int(int),
    Num(Decimal),
    Bool(bool),
    Null,
}

pub open spec fn param_view(v: ParamValue) -> ParamView {
    match v {
        ParamValue::Text(s) => ParamView::Text(s@),
        ParamValue::Int(i) => ParamView::Int(i as int),
        ParamValue::Num(d) => ParamView::Num(d),
        ParamValue::Bool(b) => ParamView::Bool(b),
        ParamValue::Null => ParamView::Null,
    }
}

pub open spec fn params_view(ps: Seq<(String, ParamValue)>) -> Seq<(Seq<char>, ParamView)> {
    ps.map_values(|p: (String, ParamValue)| (p.0@, param_view(p.1)))
}

pub open spec fn text_or_null(o: Option<Seq<char>>) -> ParamView {
    match o {
        Some(s) => ParamView::Text(s),
        None => ParamView::Null,
    }
}

pub open spec fn int_or_null(o: Option<int>) -> ParamView {
    match o {
        Some(i) => ParamView::Int(i),
        None => ParamView::Null,
    }
}

pub open spec fn num_or_null(o: Option<Decimal>) -> ParamView {
    match o {
        Some(d) => ParamView::Num(d),
        None => ParamView::Null,
    }
}

pub fn text_param(o: &Option<String>) -> (r: ParamValue)
    ensures
        param_view(r) == text_or_null(opt_text(*o)),
{
    match o {
        Some(s) => ParamValue::Text(s.clone()),
        None => ParamValue::Null,
    }
}

pub fn int_param(o: Option<i64>) -> (r: ParamValue)
    ensures
        param_view(r) == int_or_null(
            match o {
                Some(i) => Some(i as int),
                None => None,
            },
        ),
{
    match o {
        Some(i) => ParamValue::Int(i),
        None => ParamValue::Null,
    }
}

pub fn num_param(o: Option<Decimal>) -> (r: ParamValue)
    ensures
        param_view(r) == num_or_null(o),
{
    match o {
        Some(d) => ParamValue::Num(d),
        None => ParamValue::Null,
    }
}

/// The value of the first parameter named `name`; null when there is none.
pub open spec fn param_of(ps: Seq<(Seq<char>, ParamView)>, name: Seq<char>) -> ParamView
    decreases ps.len(),
{
    if ps.len() == 0 {
        ParamView::Null
    } else if ps[0].0 == name {
        ps[0].1
    } else {
        param_of(ps.drop_first(), name)
    }
}

pub proof fn lemma_param_at(ps: Seq<(Seq<char>, ParamView)>, i: int, name: Seq<char>)
    requires
        0 <= i < ps.len(),
        ps[i].0 == name,
        forall|j: int| 0 <= j < i ==> (#[trigger] ps[j]).0 != name,
    ensures
        param_of(ps, name) == ps[i].1,
    decreases i,
{
    if i > 0 {
        let t = ps.drop_first();
        assert forall|j: int| 0 <= j < i - 1 implies (#[trigger] t[j]).0 != name by {
            assert(t[j] == ps[j + 1]);
        }
        lemma_param_at(t, i - 1, name);
    }
}

/// The text of a parameter; empty when it is not text.
pub open spec fn text_of(v: ParamView) -> Seq<char> {
    match v {
        ParamView::Text(s) => s,
        _ => Seq::empty(),
    }
}

/// A non-empty text parameter.
pub open spec fn present_text(v: ParamView) -> bool {
    v matches ParamView::Text(s) && s.len() > 0
}

/// The stored properties the merge statement writes.
pub enum Prop {
    CreatedAt,
    FirstSeen,
    LastSeen,
    Os,
    Browser,
    DeviceType,
    StartedAt,
    Ip,
    Ua,
    Country,
    Region,
    City,
    Tz,
    Type,
    Ts,
    FrontUrl,
    FrontPath,
    FrontReferrer,
    BackendPath,
    BackendMethod,
    BackendHost,
    GeoCountry,
    GeoRegion,
    GeoCity,
    GeoTz,
    Mouse,
    MouseTsStart,
    MouseTsEnd,
    MouseVwW,
    MouseVwH,
    MouseClicks,
    MouseWheelTicks,
    MouseWheelDySum,
    MousePointsB64,
    Score,
}

/// Relationship types.
pub enum Rel {
    Uses,
    Opened,
    Emitted,
    FromIp,
    FromGeo,
    LocatedIn,
}

/// The part of the graph store that the merge statement reads and writes:
/// Identity, Device, Session and Event nodes by key with their properties,
/// IP and Geo nodes by key, the relationships between them, and the Score
/// nodes in creation order as (event id, total, matched rules), each linked
/// from its event. Properties of Geo and Score nodes are not tracked.
pub struct GraphState {
    pub identities: Map<Seq<char>, Map<Prop, ParamView>>,
    pub devices: Map<Seq<char>, Map<Prop, ParamView>>,
    pub sessions: Map<Seq<char>, Map<Prop, ParamView>>,
    pub events: Map<Seq<char>, Map<Prop, ParamView>>,
    pub ips: Set<Seq<char>>,
    pub geos: Set<Seq<char>>,
    pub edges: Set<(Rel, Seq<char>, Seq<char>)>,
    pub scores: Seq<(Seq<char>, ParamView, ParamView)>,
}

/// A stored property; null when the node does not hold it.
pub open spec fn stored(props: Map<Prop, ParamView>, k: Prop) -> ParamView {
    if props.contains_key(k) {
        props[k]
    } else {
        ParamView::Null
    }
}

/// The properties of a node; none when it does not exist yet.
pub open spec fn node_props(nodes: Map<Seq<char>, Map<Prop, ParamView>>, key: Seq<char>) -> Map<
    Prop,
    ParamView,
> {
    if nodes.contains_key(key) {
        nodes[key]
    } else {
        Map::empty()
    }
}

/// `SET n.k = v`: the new value wins; a null removes the property.
pub open spec fn assign(props: Map<Prop, ParamView>, k: Prop, v: ParamView) -> Map<Prop, ParamView> {
    if v is Null {
        props.remove(k)
    } else {
        props.insert(k, v)
    }
}

/// `SET n.k = coalesce(n.k, v)`: written only when the node holds no value.
pub open spec fn coalesce(props: Map<Prop, ParamView>, k: Prop, v: ParamView) -> Map<Prop, ParamView> {
    if stored(props, k) is Null {
        assign(props, k, v)
    } else {
        props
    }
}

/// `ON CREATE SET n.k = v`: written only when the merge created the node.
pub open spec fn on_create(
    nodes: Map<Seq<char>, Map<Prop, ParamView>>,
    key: Seq<char>,
    k: Prop,
    v: ParamView,
) -> Map<Prop, ParamView> {
    if nodes.contains_key(key) {
        nodes[key]
    } else {
        assign(Map::empty(), k, v)
    }
}

/// A mouse-batch field: written when the event is a mouse batch and the new
/// value is not null.
pub open spec fn batch_set(props: Map<Prop, ParamView>, k: Prop, batch: bool, v: ParamView) -> Map<
    Prop,
    ParamView,
> {
    if batch && !(v is Null) {
        props.insert(k, v)
    } else {
        props
    }
}

#[verifier::opaque]
pub open spec fn device_after(g: GraphState, ps: Seq<(Seq<char>, ParamView)>) -> Map<Prop, ParamView> {
    let ts = param_of(ps, "ts_ms"@);
    let d = on_create(g.devices, text_of(param_of(ps, "deviceId"@)), Prop::FirstSeen, ts);
    assign(
        assign(
            assign(assign(d, Prop::Os, param_of(ps, "os"@)), Prop::Browser, param_of(ps, "browser"@)),
            Prop::DeviceType,
            param_of(ps, "deviceType"@),
        ),
        Prop::LastSeen,
        ts,
    )
}

#[verifier::opaque]
pub open spec fn session_after(g: GraphState, ps: Seq<(Seq<char>, ParamView)>) -> Map<Prop, ParamView> {
    let s0 = on_create(g.sessions, text_of(param_of(ps, "sessionId"@)), Prop::StartedAt, param_of(ps, "ts_ms"@));
    let s1 = coalesce(coalesce(s0, Prop::Ip, param_of(ps, "ip"@)), Prop::Ua, param_of(ps, "uaRaw"@));
    if present_text(param_of(ps, "geoKey"@)) {
        coalesce(
            coalesce(
                coalesce(coalesce(s1, Prop::Country, param_of(ps, "geoCountry"@)), Prop::Region, param_of(ps, "geoRegion"@)),
                Prop::City,
                param_of(ps, "geoCity"@),
            ),
            Prop::Tz,
            param_of(ps, "geoTimezone"@),
        )
    } else {
        s1
    }
}

/// The event's own properties: type and time win, front-end and back-end
/// fields coalesce.
#[verifier::opaque]
pub open spec fn event_core(e0: Map<Prop, ParamView>, ps: Seq<(Seq<char>, ParamView)>) -> Map<Prop, ParamView> {
    let e1 = assign(assign(e0, Prop::Type, param_of(ps, "eventType"@)), Prop::Ts, param_of(ps, "ts_ms"@));
    let e2 = coalesce(
        coalesce(
            coalesce(
                coalesce(
                    coalesce(coalesce(e1, Prop::FrontUrl, param_of(ps, "front_url"@)), Prop::FrontPath, param_of(ps, "front_path"@)),
                    Prop::FrontReferrer,
                    param_of(ps, "front_referrer"@),
                ),
                Prop::BackendPath,
                param_of(ps, "backend_path"@),
            ),
            Prop::BackendMethod,
            param_of(ps, "backend_method"@),
        ),
        Prop::BackendHost,
        param_of(ps, "backend_host"@),
    );
    e2
}

/// The event's geo, mouse-batch and score properties, written over `e2`.
#[verifier::opaque]
pub open spec fn event_extras(e2: Map<Prop, ParamView>, ps: Seq<(Seq<char>, ParamView)>) -> Map<Prop, ParamView> {
    let e3 = if present_text(param_of(ps, "geoKey"@)) {
        coalesce(
            coalesce(
                coalesce(coalesce(e2, Prop::GeoCountry, param_of(ps, "geoCountry"@)), Prop::GeoRegion, param_of(ps, "geoRegion"@)),
                Prop::GeoCity,
                param_of(ps, "geoCity"@),
            ),
            Prop::GeoTz,
            param_of(ps, "geoTimezone"@),
        )
    } else {
        e2
    };
    let batch = param_of(ps, "eventType"@) == ParamView::Text("mouse_batch"@);
    let e4 = e3.insert(Prop::Mouse, ParamView::Bool(stored(e3, Prop::Mouse) == ParamView::Bool(true) || batch));
    let e5 = batch_set(
        batch_set(
            batch_set(
                batch_set(
                    batch_set(
                        batch_set(
                            batch_set(
                                batch_set(e4, Prop::MouseTsStart, batch, param_of(ps, "mb_ts_start"@)),
                                Prop::MouseTsEnd,
                                batch,
                                param_of(ps, "mb_ts_end"@),
                            ),
                            Prop::MouseVwW,
                            batch,
                            param_of(ps, "mb_vw_w"@),
                        ),
                        Prop::MouseVwH,
                        batch,
                        param_of(ps, "mb_vw_h"@),
                    ),
                    Prop::MouseClicks,
                    batch,
                    param_of(ps, "mb_clicks_json"@),
                ),
                Prop::MouseWheelTicks,
                batch,
                param_of(ps, "mb_wheel_ticks"@),
            ),
            Prop::MouseWheelDySum,
            batch,
            param_of(ps, "mb_wheel_dy_sum"@),
        ),
        Prop::MousePointsB64,
        batch,
        param_of(ps, "mb_points_b64"@),
    );
    assign(e5, Prop::Score, param_of(ps, "score_total"@))
}

pub open spec fn event_after(g: GraphState, ps: Seq<(Seq<char>, ParamView)>) -> Map<Prop, ParamView> {
    event_extras(event_core(node_props(g.events, text_of(param_of(ps, "eventId"@))), ps), ps)
}

/// The value a coalescing write leaves: the stored one unless it is null.
pub open spec fn first_of(a: ParamView, b: ParamView) -> ParamView {
    if !(a is Null) {
        a
    } else {
        b
    }
}

proof fn lemma_core_stored(e0: Map<Prop, ParamView>, ps: Seq<(Seq<char>, ParamView)>)
    ensures
        ({
            let c = event_core(e0, ps);
            &&& stored(c, Prop::Type) == param_of(ps, "eventType"@)
            &&& stored(c, Prop::Ts) == param_of(ps, "ts_ms"@)
            &&& stored(c, Prop::FrontUrl) == first_of(stored(e0, Prop::FrontUrl), param_of(ps, "front_url"@))
            &&& stored(c, Prop::FrontPath) == first_of(stored(e0, Prop::FrontPath), param_of(ps, "front_path"@))
            &&& stored(c, Prop::FrontReferrer) == first_of(stored(e0, Prop::FrontReferrer), param_of(ps, "front_referrer"@))
            &&& stored(c, Prop::BackendPath) == first_of(stored(e0, Prop::BackendPath), param_of(ps, "backend_path"@))
            &&& stored(c, Prop::BackendMethod) == first_of(stored(e0, Prop::BackendMethod), param_of(ps, "backend_method"@))
            &&& stored(c, Prop::BackendHost) == first_of(stored(e0, Prop::BackendHost), param_of(ps, "backend_host"@))
        }),
{
    reveal(event_core);
}

pub open spec fn core_prop(k: Prop) -> bool {
    k is Type || k is Ts || k is FrontUrl || k is FrontPath || k is FrontReferrer || k is BackendPath
        || k is BackendMethod || k is BackendHost
}

proof fn lemma_extras_keep_core(e: Map<Prop, ParamView>, ps: Seq<(Seq<char>, ParamView)>, k: Prop)
    requires
        core_prop(k),
    ensures
        stored(event_extras(e, ps), k) == stored(e, k),
{
    reveal(event_extras);
}

#[verifier::opaque]
pub open spec fn edges_after(g: GraphState, ps: Seq<(Seq<char>, ParamView)>) -> Set<(Rel, Seq<char>, Seq<char>)> {
    let iid = text_of(param_of(ps, "identityId"@));
    let did = text_of(param_of(ps, "deviceId"@));
    let sid = text_of(param_of(ps, "sessionId"@));
    let eid = text_of(param_of(ps, "eventId"@));
    let ip = param_of(ps, "ip"@);
    let gk = param_of(ps, "geoKey"@);
    let base = g.edges.insert((Rel::Uses, iid, did)).insert((Rel::Opened, did, sid)).insert(
        (Rel::Emitted, sid, eid),
    );
    let with_ip = if present_text(ip) {
        base.insert((Rel::FromIp, sid, text_of(ip)))
    } else {
        base
    };
    let with_geo = if present_text(gk) {
        with_ip.insert((Rel::FromGeo, sid, text_of(gk)))
    } else {
        with_ip
    };
    if present_text(gk) && present_text(ip) {
        with_geo.insert((Rel::LocatedIn, text_of(ip), text_of(gk)))
    } else {
        with_geo
    }
}

/// What the merge statement does to the store when run with the parameters
/// `ps`, as one transaction. Instants are recorded as the `ts_ms` value the
/// statement turns into a datetime.
pub open spec fn apply_upsert(g: GraphState, ps: Seq<(Seq<char>, ParamView)>) -> GraphState {
    let iid = text_of(param_of(ps, "identityId"@));
    let did = text_of(param_of(ps, "deviceId"@));
    let sid = text_of(param_of(ps, "sessionId"@));
    let eid = text_of(param_of(ps, "eventId"@));
    let ip = param_of(ps, "ip"@);
    let gk = param_of(ps, "geoKey"@);
    GraphState {
        identities: g.identities.insert(
            iid,
            on_create(g.identities, iid, Prop::CreatedAt, param_of(ps, "ts_ms"@)),
        ),
        devices: g.devices.insert(did, device_after(g, ps)),
        sessions: g.sessions.insert(sid, session_after(g, ps)),
        events: g.events.insert(eid, event_after(g, ps)),
        ips: if present_text(ip) {
            g.ips.insert(text_of(ip))
        } else {
            g.ips
        },
        geos: if present_text(gk) {
            g.geos.insert(text_of(gk))
        } else {
            g.geos
        },
        edges: edges_after(g, ps),
        scores: g.scores.push((eid, param_of(ps, "score_total"@), param_of(ps, "score_matched"@))),
    }
}

/// The first of three values that is not null.
pub open spec fn first_non_null(a: ParamView, b: ParamView, c: ParamView) -> ParamView {
    if !(a is Null) {
        a
    } else if !(b is Null) {
        b
    } else {
        c
    }
}

/// Two parameter sets that name the same identity, device, session and event.
pub open spec fn same_ids(first: Seq<(Seq<char>, ParamView)>, second: Seq<(Seq<char>, ParamView)>) -> bool {
    &&& text_of(param_of(first, "identityId"@)) == text_of(param_of(second, "identityId"@))
    &&& text_of(param_of(first, "deviceId"@)) == text_of(param_of(second, "deviceId"@))
    &&& text_of(param_of(first, "sessionId"@)) == text_of(param_of(second, "sessionId"@))
    &&& text_of(param_of(first, "eventId"@)) == text_of(param_of(second, "eventId"@))
}

/// Two parameter sets that name the same nodes, IP and Geo included.
pub open spec fn same_node_keys(first: Seq<(Seq<char>, ParamView)>, second: Seq<(Seq<char>, ParamView)>) -> bool {
    &&& same_ids(first, second)
    &&& param_of(first, "ip"@) == param_of(second, "ip"@)
    &&& param_of(first, "geoKey"@) == param_of(second, "geoKey"@)
}

/// Ingesting the same logical event twice: the second run creates no
/// Identity, Device, Session or Event node; device attributes and event type
/// and time are those of the second run; session ip and user agent and the
/// event's front-end and back-end fields keep the first value that was not
/// null, whatever the second run sends; creation-time properties keep their
/// first value; each run appends one Score node; and when both runs carry the
/// same ip and geo key, the second creates no node and no relationship at all.
pub proof fn lemma_repeat_ingest(g: GraphState, first: Seq<(Seq<char>, ParamView)>, second: Seq<(Seq<char>, ParamView)>)
    requires
        same_ids(first, second),
    ensures
        ({
            let g1 = apply_upsert(g, first);
            let g2 = apply_upsert(g1, second);
            let did = text_of(param_of(first, "deviceId"@));
            let sid = text_of(param_of(first, "sessionId"@));
            let eid = text_of(param_of(first, "eventId"@));
            let s0 = node_props(g.sessions, sid);
            let e0 = node_props(g.events, eid);
            &&& g2.identities.dom() == g1.identities.dom()
            &&& g2.devices.dom() == g1.devices.dom()
            &&& g2.sessions.dom() == g1.sessions.dom()
            &&& g2.events.dom() == g1.events.dom()
            &&& same_node_keys(first, second) ==> g2.ips == g1.ips && g2.geos == g1.geos && g2.edges
                == g1.edges
            &&& g2.scores.len() == g.scores.len() + 2
            &&& stored(g2.devices[did], Prop::Os) == param_of(second, "os"@)
            &&& stored(g2.devices[did], Prop::Browser) == param_of(second, "browser"@)
            &&& stored(g2.devices[did], Prop::DeviceType) == param_of(second, "deviceType"@)
            &&& stored(g2.devices[did], Prop::LastSeen) == param_of(second, "ts_ms"@)
            &&& stored(g2.devices[did], Prop::FirstSeen) == stored(g1.devices[did], Prop::FirstSeen)
            &&& stored(g2.sessions[sid], Prop::StartedAt) == stored(g1.sessions[sid], Prop::StartedAt)
            &&& stored(g2.events[eid], Prop::Type) == param_of(second, "eventType"@)
            &&& stored(g2.events[eid], Prop::Ts) == param_of(second, "ts_ms"@)
            &&& stored(g2.sessions[sid], Prop::Ip) == first_non_null(stored(s0, Prop::Ip), param_of(first, "ip"@), param_of(second, "ip"@))
            &&& stored(g2.sessions[sid], Prop::Ua) == first_non_null(stored(s0, Prop::Ua), param_of(first, "uaRaw"@), param_of(second, "uaRaw"@))
            &&& stored(g2.events[eid], Prop::FrontUrl) == first_non_null(stored(e0, Prop::FrontUrl), param_of(first, "front_url"@), param_of(second, "front_url"@))
            &&& stored(g2.events[eid], Prop::FrontPath) == first_non_null(stored(e0, Prop::FrontPath), param_of(first, "front_path"@), param_of(second, "front_path"@))
            &&& stored(g2.events[eid], Prop::FrontReferrer) == first_non_null(stored(e0, Prop::FrontReferrer), param_of(first, "front_referrer"@), param_of(second, "front_referrer"@))
            &&& stored(g2.events[eid], Prop::BackendPath) == first_non_null(stored(e0, Prop::BackendPath), param_of(first, "backend_path"@), param_of(second, "backend_path"@))
            &&& stored(g2.events[eid], Prop::BackendMethod) == first_non_null(stored(e0, Prop::BackendMethod), param_of(first, "backend_method"@), param_of(second, "backend_method"@))
            &&& stored(g2.events[eid], Prop::BackendHost) == first_non_null(stored(e0, Prop::BackendHost), param_of(first, "backend_host"@), param_of(second, "backend_host"@))
        }),
{
    let g1 = apply_upsert(g, first);
    let g2 = apply_upsert(g1, second);
    lemma_repeat_device(g, first, second);
    lemma_repeat_session(g, first, second);
    lemma_repeat_event(g, first, second);
    if same_node_keys(first, second) {
        lemma_repeat_edges(g, first, second);
        assert(g2.ips =~= g1.ips);
        assert(g2.geos =~= g1.geos);
    }
    assert(g2.identities.dom() =~= g1.identities.dom());
    assert(g2.devices.dom() =~= g1.devices.dom());
    assert(g2.sessions.dom() =~= g1.sessions.dom());
    assert(g2.events.dom() =~= g1.events.dom());
}

proof fn lemma_repeat_device(g: GraphState, first: Seq<(Seq<char>, ParamView)>, second: Seq<(Seq<char>, ParamView)>)
    requires
        same_ids(first, second),
    ensures
        ({
            let g1 = apply_upsert(g, first);
            let d2 = device_after(g1, second);
            let did = text_of(param_of(first, "deviceId"@));
            &&& stored(d2, Prop::Os) == param_of(second, "os"@)
            &&& stored(d2, Prop::Browser) == param_of(second, "browser"@)
            &&& stored(d2, Prop::DeviceType) == param_of(second, "deviceType"@)
            &&& stored(d2, Prop::LastSeen) == param_of(second, "ts_ms"@)
            &&& stored(d2, Prop::FirstSeen) == stored(g1.devices[did], Prop::FirstSeen)
        }),
{
    reveal(device_after);
}

proof fn lemma_repeat_session(g: GraphState, first: Seq<(Seq<char>, ParamView)>, second: Seq<(Seq<char>, ParamView)>)
    requires
        same_ids(first, second),
    ensures
        ({
            let g1 = apply_upsert(g, first);
            let s2 = session_after(g1, second);
            let sid = text_of(param_of(first, "sessionId"@));
            let s0 = node_props(g.sessions, sid);
            &&& stored(s2, Prop::StartedAt) == stored(g1.sessions[sid], Prop::StartedAt)
            &&& stored(s2, Prop::Ip) == first_non_null(stored(s0, Prop::Ip), param_of(first, "ip"@), param_of(second, "ip"@))
            &&& stored(s2, Prop::Ua) == first_non_null(stored(s0, Prop::Ua), param_of(first, "uaRaw"@), param_of(second, "uaRaw"@))
        }),
{
    reveal(session_after);
}

proof fn lemma_repeat_event(g: GraphState, first: Seq<(Seq<char>, ParamView)>, second: Seq<(Seq<char>, ParamView)>)
    requires
        same_ids(first, second),
    ensures
        ({
            let g1 = apply_upsert(g, first);
            let e2 = event_after(g1, second);
            let eid = text_of(param_of(first, "eventId"@));
            let e0 = node_props(g.events, eid);
            &&& stored(e2, Prop::Type) == param_of(second, "eventType"@)
            &&& stored(e2, Prop::Ts) == param_of(second, "ts_ms"@)
            &&& stored(e2, Prop::FrontUrl) == first_non_null(stored(e0, Prop::FrontUrl), param_of(first, "front_url"@), param_of(second, "front_url"@))
            &&& stored(e2, Prop::FrontPath) == first_non_null(stored(e0, Prop::FrontPath), param_of(first, "front_path"@), param_of(second, "front_path"@))
            &&& stored(e2, Prop::FrontReferrer) == first_non_null(stored(e0, Prop::FrontReferrer), param_of(first, "front_referrer"@), param_of(second, "front_referrer"@))
            &&& stored(e2, Prop::BackendPath) == first_non_null(stored(e0, Prop::BackendPath), param_of(first, "backend_path"@), param_of(second, "backend_path"@))
            &&& stored(e2, Prop::BackendMethod) == first_non_null(stored(e0, Prop::BackendMethod), param_of(first, "backend_method"@), param_of(second, "backend_method"@))
            &&& stored(e2, Prop::BackendHost) == first_non_null(stored(e0, Prop::BackendHost), param_of(first, "backend_host"@), param_of(second, "backend_host"@))
        }),
{
    let g1 = apply_upsert(g, first);
    let eid = text_of(param_of(first, "eventId"@));
    let e0 = node_props(g.events, eid);
    let c1 = event_core(e0, first);
    let e1 = node_props(g1.events, eid);
    let c2 = event_core(e1, second);
    assert(e1 == event_extras(c1, first));
    assert forall|k: Prop| core_prop(k) implies stored(e1, k) == stored(c1, k)
        && stored(event_after(g1, second), k) == stored(c2, k) by {
        lemma_extras_keep_core(c1, first, k);
        lemma_extras_keep_core(c2, second, k);
    }
    lemma_core_stored(e0, first);
    lemma_core_stored(e1, second);
    assert(core_prop(Prop::Type) && core_prop(Prop::Ts) && core_prop(Prop::FrontUrl) && core_prop(Prop::FrontPath)
        && core_prop(Prop::FrontReferrer) && core_prop(Prop::BackendPath) && core_prop(Prop::BackendMethod)
        && core_prop(Prop::BackendHost));
}

proof fn lemma_repeat_edges(g: GraphState, first: Seq<(Seq<char>, ParamView)>, second: Seq<(Seq<char>, ParamView)>)
    requires
        same_node_keys(first, second),
    ensures
        edges_after(apply_upsert(g, first), second) == apply_upsert(g, first).edges,
{
    reveal(edges_after);
    let g1 = apply_upsert(g, first);
    assert(edges_after(g1, second) =~= g1.edges);
}

/// The merge statement run once per ingest. Identity keys are merged;
/// device attributes and event type and time are overwritten; session and
/// event detail fields coalesce (the stored value wins); creation times are
/// set on create only; IP and Geo nodes are merged only for a non-empty
/// address or key, the session and the IP both linking to the one Geo node;
/// each run creates a new Score node.
pub const UPSERT_STATEMENT: &'static str = r#"
WITH datetime({epochMillis: $ts_ms}) AS ts
MERGE (i:Identity {id: $identityId})
  ON CREATE SET i.createdAt = ts
WITH i, ts
MERGE (d:Device {id: $deviceId})
  ON CREATE SET d.first_seen = ts
SET d.os = $os, d.browser = $browser, d.device_type = $deviceType, d.last_seen = ts
MERGE (i)-[:USES]->(d)
WITH d, ts
MERGE (s:Session {id: $sessionId})
  ON CREATE SET s.startedAt = ts
SET s.ip = coalesce(s.ip, $ip),
    s.ua = coalesce(s.ua, $uaRaw)
MERGE (d)-[:OPENED]->(s)
WITH s, ts
MERGE (e:Event {id: $eventId})
SET e.type = $eventType,
    e.ts = ts,
    e.front_url = coalesce(e.front_url, $front_url),
    e.front_path = coalesce(e.front_path, $front_path),
    e.front_referrer = coalesce(e.front_referrer, $front_referrer),
    e.backend_path = coalesce(e.backend_path, $backend_path),
    e.backend_method = coalesce(e.backend_method, $backend_method),
    e.backend_host = coalesce(e.backend_host, $backend_host)
MERGE (s)-[:EMITTED]->(e)
WITH s, e
FOREACH (_ IN CASE WHEN $ip IS NULL OR $ip = '' THEN [] ELSE [1] END |
  MERGE (ip:IP {addr: $ip})
  MERGE (s)-[:FROM_IP]->(ip)
)
FOREACH (_ IN CASE WHEN $geoKey IS NULL OR $geoKey = '' THEN [] ELSE [1] END |
  MERGE (g:Geo {key: $geoKey})
    ON CREATE SET g.country = $geoCountry, g.region = $geoRegion, g.city = $geoCity,
                  g.tz = $geoTimezone, g.lat = $geoLat, g.lng = $geoLng
  MERGE (s)-[:FROM_GEO]->(g)
  SET s.country = coalesce(s.country, $geoCountry),
      s.region = coalesce(s.region, $geoRegion),
      s.city = coalesce(s.city, $geoCity),
      s.tz = coalesce(s.tz, $geoTimezone),
      e.geo_country = coalesce(e.geo_country, $geoCountry),
      e.geo_region = coalesce(e.geo_region, $geoRegion),
      e.geo_city = coalesce(e.geo_city, $geoCity),
      e.geo_tz = coalesce(e.geo_tz, $geoTimezone)
)
FOREACH (_ IN CASE WHEN $geoKey IS NULL OR $geoKey = '' OR $ip IS NULL OR $ip = '' THEN [] ELSE [1] END |
  MERGE (ip:IP {addr: $ip})
  MERGE (g:Geo {key: $geoKey})
  MERGE (ip)-[:LOCATED_IN]->(g)
)
SET e.mouse = coalesce(e.mouse, false) OR ($eventType = 'mouse_batch')
SET e.mouse_ts_start = CASE WHEN $eventType = 'mouse_batch' AND $mb_ts_start IS NOT NULL THEN $mb_ts_start ELSE e.mouse_ts_start END
SET e.mouse_ts_end = CASE WHEN $eventType = 'mouse_batch' AND $mb_ts_end IS NOT NULL THEN $mb_ts_end ELSE e.mouse_ts_end END
SET e.mouse_vw_w = CASE WHEN $eventType = 'mouse_batch' AND $mb_vw_w IS NOT NULL THEN $mb_vw_w ELSE e.mouse_vw_w END
SET e.mouse_vw_h = CASE WHEN $eventType = 'mouse_batch' AND $mb_vw_h IS NOT NULL THEN $mb_vw_h ELSE e.mouse_vw_h END
SET e.mouse_clicks = CASE WHEN $eventType = 'mouse_batch' AND $mb_clicks_json IS NOT NULL THEN $mb_clicks_json ELSE e.mouse_clicks END
SET e.mouse_wheel_ticks = CASE WHEN $eventType = 'mouse_batch' AND $mb_wheel_ticks IS NOT NULL THEN $mb_wheel_ticks ELSE e.mouse_wheel_ticks END
SET e.mouse_wheel_dy_sum = CASE WHEN $eventType = 'mouse_batch' AND $mb_wheel_dy_sum IS NOT NULL THEN $mb_wheel_dy_sum ELSE e.mouse_wheel_dy_sum END
SET e.mouse_points_b64 = CASE WHEN $eventType = 'mouse_batch' AND $mb_points_b64 IS NOT NULL THEN $mb_points_b64 ELSE e.mouse_points_b64 END
SET e.score = $score_total
WITH e
CREATE (sc:Score {id: randomUUID(), total: $score_total, matched: $score_matched, at: datetime()})
MERGE (e)-[:SCORED]->(sc)
"#;

/// How many graph transactions may be in flight at once; further ingests wait.
pub const MAX_IN_FLIGHT_TRANSACTIONS: usize = 8;

/// The step of the transaction that failed.
#[derive(Debug, Clone, Copy, PartialEq, Eq, Structural)]
pub enum TxnPhase {
    Start,
    Execute,
    Commit,
}

/// The outcome of an ingest that did not succeed.
#[derive(Debug, Clone, Copy, PartialEq, Eq, Structural)]
pub enum IngestError {
    /// The raw record does not have the expected shape.
    MalformedInput,
    /// The rule set could not be loaded.
    ConfigurationError,
    /// The graph transaction failed in the given phase; nothing was committed.
    GraphTransactionFailed { phase: TxnPhase },
}

/// Where one upsert transaction stands.
#[derive(Debug, Clone, Copy, PartialEq, Eq, Structural)]
pub enum TxnStage {
    NotStarted,
    Begun,
    Executed,
    Committed,
    Failed { phase: TxnPhase },
}

/// What the driver of the store is to do next.
#[derive(Debug, Clone, Copy, PartialEq, Eq, Structural)]
pub enum TxnAction {
    BeginTransaction,
    RunStatement,
    CommitTransaction,
    Finish,
}

pub open spec fn action_for(stage: TxnStage) -> TxnAction {
    match stage {
        TxnStage::NotStarted => TxnAction::BeginTransaction,
        TxnStage::Begun => TxnAction::RunStatement,
        TxnStage::Executed => TxnAction::CommitTransaction,
        _ => TxnAction::Finish,
    }
}

/// The stage after the current action succeeded or failed. Nothing is
/// retried: a failure ends the transaction in the phase that failed.
pub open spec fn stage_after(stage: TxnStage, succeeded: bool) -> TxnStage {
    match stage {
        TxnStage::NotStarted => if succeeded {
            TxnStage::Begun
        } else {
            TxnStage::Failed { phase: TxnPhase::Start }
        },
        TxnStage::Begun => if succeeded {
            TxnStage::Executed
        } else {
            TxnStage::Failed { phase: TxnPhase::Execute }
        },
        TxnStage::Executed => if succeeded {
            TxnStage::Committed
        } else {
            TxnStage::Failed { phase: TxnPhase::Commit }
        },
        _ => stage,
    }
}

pub open spec fn stage_outcome(stage: TxnStage) -> Option<Result<(), IngestError>> {
    match stage {
        TxnStage::Committed => Some(Ok(())),
        TxnStage::Failed { phase } => Some(Err(IngestError::GraphTransactionFailed { phase })),
        _ => None,
    }
}

impl TxnStage {
    pub fn next_action(&self) -> (r: TxnAction)
        ensures
            r == action_for(*self),
    {
        match self {
            TxnStage::NotStarted => TxnAction::BeginTransaction,
            TxnStage::Begun => TxnAction::RunStatement,
            TxnStage::Executed => TxnAction::CommitTransaction,
            _ => TxnAction::Finish,
        }
    }

    pub fn advance(self, succeeded: bool) -> (r: TxnStage)
        ensures
            r == stage_after(self, succeeded),
    {
        match self {
            TxnStage::NotStarted => if succeeded {
                TxnStage::Begun
            } else {
                TxnStage::Failed { phase: TxnPhase::Start }
            },
            TxnStage::Begun => if succeeded {
                TxnStage::Executed
            } else {
                TxnStage::Failed { phase: TxnPhase::Execute }
            },
            TxnStage::Executed => if succeeded {
                TxnStage::Committed
            } else {
                TxnStage::Failed { phase: TxnPhase::Commit }
            },
            _ => self,
        }
    }

    /// The result of the upsert once the transaction has ended.
    pub fn outcome(&self) -> (r: Option<Result<(), IngestError>>)
        ensures
            r == stage_outcome(*self),
    {
        match self {
            TxnStage::Committed => Some(Ok(())),
            TxnStage::Failed { phase } => Some(Err(IngestError::GraphTransactionFailed { phase: *phase })),
            _ => None,
        }
    }
}

/// A transaction whose three steps all succeed issues begin, run and commit,
/// each once, and then ends committed; one that fails ends at once with the
/// phase that failed, and its commit is never issued.
pub proof fn lemma_txn_protocol(s1: bool, s2: bool, s3: bool)
    ensures
        ({
            let t0 = TxnStage::NotStarted;
            let t1 = stage_after(t0, s1);
            let t2 = stage_after(t1, s2);
            let t3 = stage_after(t2, s3);
            &&& action_for(t0) == TxnAction::BeginTransaction
            &&& s1 ==> action_for(t1) == TxnAction::RunStatement
            &&& s1 && s2 ==> action_for(t2) == TxnAction::CommitTransaction
            &&& action_for(t3) == TxnAction::Finish
            &&& stage_outcome(t3) == if s1 && s2 && s3 {
                Some(Ok(()))
            } else if !s1 {
                Some(Err(IngestError::GraphTransactionFailed { phase: TxnPhase::Start }))
            } else if !s2 {
                Some(Err(IngestError::GraphTransactionFailed { phase: TxnPhase::Execute }))
            } else {
                Some(Err(IngestError::GraphTransactionFailed { phase: TxnPhase::Commit }))
            }
            &&& !s1 ==> action_for(t1) == TxnAction::Finish
            &&& s1 && !s2 ==> action_for(t2) == TxnAction::Finish
        }),
{
}

/// One run writes the device class and the event type it is given.
pub proof fn lemma_upsert_writes(g: GraphState, ps: Seq<(Seq<char>, ParamView)>)
    ensures
        stored(apply_upsert(g, ps).devices[text_of(param_of(ps, "deviceId"@))], Prop::DeviceType)
            == param_of(ps, "deviceType"@),
        stored(apply_upsert(g, ps).events[text_of(param_of(ps, "eventId"@))], Prop::Type) == param_of(
            ps,
            "eventType"@,
        ),
{
    reveal(device_after);
    let e0 = node_props(g.events, text_of(param_of(ps, "eventId"@)));
    lemma_core_stored(e0, ps);
    lemma_extras_keep_core(event_core(e0, ps), ps, Prop::Type);
}

} // verus!
