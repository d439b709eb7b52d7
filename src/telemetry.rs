//! The telemetry record model: one event with its device context, a batch of
//! events, and the batching configuration. Also the JSON text of events and
//! batches, whose byte length is a batch's size.

use vstd::prelude::*;
use vstd::utf8::encode_utf8;

use crate::ambient::{new_uuid, now_nanos};
use crate::encoding::{int_text, json_quote, json_quoted, push_int};

verus! {

/// Kinds of telemetry events.
#[derive(Debug, Clone, Copy, PartialEq, Eq, Structural)]
pub enum EventType {
    SessionStart,
    SessionEnd,
    ScenarioStart,
    ScenarioComplete,
    ScenarioAbandoned,
    StepComplete,
    PhraseReviewed,
    /// The phrase was used in real life.
    PhraseMarkedWild,
    RetentionWaveUpdated,
    VoicePractice,
    PronunciationScore,
    ScreenView,
    ButtonClick,
    StreakAchieved,
    RoleCompleted,
    Error,
    CrashReport,
}

/// The snake_case name of an event type.
pub open spec fn event_type_name(t: EventType) -> Seq<char> {
    match t {
        EventType::SessionStart => "session_start"@,
        EventType::SessionEnd => "session_end"@,
        EventType::ScenarioStart => "scenario_start"@,
        EventType::ScenarioComplete => "scenario_complete"@,
        EventType::ScenarioAbandoned => "scenario_abandoned"@,
        EventType::StepComplete => "step_complete"@,
        EventType::PhraseReviewed => "phrase_reviewed"@,
        EventType::PhraseMarkedWild => "phrase_marked_wild"@,
        EventType::RetentionWaveUpdated => "retention_wave_updated"@,
        EventType::VoicePractice => "voice_practice"@,
        EventType::PronunciationScore => "pronunciation_score"@,
        EventType::ScreenView => "screen_view"@,
        EventType::ButtonClick => "button_click"@,
        EventType::StreakAchieved => "streak_achieved"@,
        EventType::RoleCompleted => "role_completed"@,
        EventType::Error => "error"@,
        EventType::CrashReport => "crash_report"@,
    }
}

impl EventType {
    /// The event type whose snake_case name is `name`, if any.
    pub fn from_name(name: &str) -> (r: Option<EventType>)
        ensures
            r matches Some(t) ==> event_type_name(t) == name@,
            r is None ==> forall|t: EventType| event_type_name(t) != name@,
    {
        let n = name.to_owned();
        if n == "session_start".to_owned() {
            return Some(EventType::SessionStart);
        }
        if n == "session_end".to_owned() {
            return Some(EventType::SessionEnd);
        }
        if n == "scenario_start".to_owned() {
            return Some(EventType::ScenarioStart);
        }
        if n == "scenario_complete".to_owned() {
            return Some(EventType::ScenarioComplete);
        }
        if n == "scenario_abandoned".to_owned() {
            return Some(EventType::ScenarioAbandoned);
        }
        if n == "step_complete".to_owned() {
            return Some(EventType::StepComplete);
        }
        if n == "phrase_reviewed".to_owned() {
            return Some(EventType::PhraseReviewed);
        }
        if n == "phrase_marked_wild".to_owned() {
            return Some(EventType::PhraseMarkedWild);
        }
        if n == "retention_wave_updated".to_owned() {
            return Some(EventType::RetentionWaveUpdated);
        }
        if n == "voice_practice".to_owned() {
            return Some(EventType::VoicePractice);
        }
        if n == "pronunciation_score".to_owned() {
            return Some(EventType::PronunciationScore);
        }
        if n == "screen_view".to_owned() {
            return Some(EventType::ScreenView);
        }
        if n == "button_click".to_owned() {
            return Some(EventType::ButtonClick);
        }
        if n == "streak_achieved".to_owned() {
            return Some(EventType::StreakAchieved);
        }
        if n == "role_completed".to_owned() {
            return Some(EventType::RoleCompleted);
        }
        if n == "error".to_owned() {
            return Some(EventType::Error);
        }
        if n == "crash_report".to_owned() {
            return Some(EventType::CrashReport);
        }
        None
    }

    /// The snake_case name under which the event type is stored.
    pub fn name(&self) -> (r: &'static str)
        ensures
            r@ == event_type_name(*self),
    {
        match self {
            EventType::SessionStart => "session_start",
            EventType::SessionEnd => "session_end",
            EventType::ScenarioStart => "scenario_start",
            EventType::ScenarioComplete => "scenario_complete",
            EventType::ScenarioAbandoned => "scenario_abandoned",
            EventType::StepComplete => "step_complete",
            EventType::PhraseReviewed => "phrase_reviewed",
            EventType::PhraseMarkedWild => "phrase_marked_wild",
            EventType::RetentionWaveUpdated => "retention_wave_updated",
            EventType::VoicePractice => "voice_practice",
            EventType::PronunciationScore => "pronunciation_score",
            EventType::ScreenView => "screen_view",
            EventType::ButtonClick => "button_click",
            EventType::StreakAchieved => "streak_achieved",
            EventType::RoleCompleted => "role_completed",
            EventType::Error => "error",
            EventType::CrashReport => "crash_report",
        }
    }
}

/// Device and app metadata captured when an event is created.
#[derive(Debug, Clone)]
pub struct DeviceContext {
    pub app_version: String,
    pub platform: String,
    pub os_version: Option<String>,
    pub device_model: Option<String>,
    pub locale: String,
}

pub struct ContextView {
    pub app_version: Seq<char>,
    pub platform: Seq<char>,
    pub os_version: Option<Seq<char>>,
    pub device_model: Option<Seq<char>>,
    pub locale: Seq<char>,
}

pub open spec fn opt_view(o: Option<String>) -> Option<Seq<char>> {
    match o {
        Some(s) => Some(s@),
        None => None,
    }
}

pub fn copy_opt(o: &Option<String>) -> (r: Option<String>)
    ensures
        opt_view(r) == opt_view(*o),
{
    match o {
        Some(s) => Some(s.clone()),
        None => None,
    }
}

impl View for DeviceContext {
    type V = ContextView;

    open spec fn view(&self) -> ContextView {
        ContextView {
            app_version: self.app_version@,
            platform: self.platform@,
            os_version: opt_view(self.os_version),
            device_model: opt_view(self.device_model),
            locale: self.locale@,
        }
    }
}

/// The version of this library, reported as the app version by default.
pub const APP_VERSION: &'static str = "0.1.0";

impl DeviceContext {
    /// A copy with the same contents.
    pub fn duplicate(&self) -> (r: Self)
        ensures
            r@ == self@,
    {
        DeviceContext {
            app_version: self.app_version.clone(),
            platform: self.platform.clone(),
            os_version: copy_opt(&self.os_version),
            device_model: copy_opt(&self.device_model),
            locale: self.locale.clone(),
        }
    }
}

impl Default for DeviceContext {
    fn default() -> (r: Self)
        ensures
            r@.app_version == APP_VERSION@,
            r@.platform == "unknown"@,
            r@.os_version is None,
            r@.device_model is None,
            r@.locale == "en-US"@,
    {
        DeviceContext {
            app_version: APP_VERSION.to_owned(),
            platform: "unknown".to_owned(),
            os_version: None,
            device_model: None,
            locale: "en-US".to_owned(),
        }
    }
}

/// One telemetry event. `timestamp` is the creation time in nanoseconds
/// since the Unix epoch (UTC). `properties` maps each key, at most once, to
/// the JSON text of its value, in the order the keys were first set.
#[derive(Debug, Clone)]
pub struct TelemetryEvent {
    pub id: String,
    pub event_type: EventType,
    pub timestamp: i64,
    pub session_id: Option<String>,
    pub user_id: Option<String>,
    pub properties: Vec<(String, String)>,
    pub context: DeviceContext,
}

pub struct EventView {
    pub id: Seq<char>,
    pub event_type: EventType,
    pub timestamp: int,
    pub session_id: Option<Seq<char>>,
    pub user_id: Option<Seq<char>>,
    pub properties: Seq<(Seq<char>, Seq<char>)>,
    pub context: ContextView,
}

pub open spec fn props_view(ps: Seq<(String, String)>) -> Seq<(Seq<char>, Seq<char>)> {
    ps.map_values(|p: (String, String)| (p.0@, p.1@))
}

impl View for TelemetryEvent {
    type V = EventView;

    open spec fn view(&self) -> EventView {
        EventView {
            id: self.id@,
            event_type: self.event_type,
            timestamp: self.timestamp as int,
            session_id: opt_view(self.session_id),
            user_id: opt_view(self.user_id),
            properties: props_view(self.properties@),
            context: self.context@,
        }
    }
}

/// The properties `ps` with `key` set to `value`: an existing entry for the
/// key keeps its place and takes the new value, otherwise the entry is added
/// at the end.
pub open spec fn set_property(
    ps: Seq<(Seq<char>, Seq<char>)>,
    key: Seq<char>,
    value: Seq<char>,
) -> Seq<(Seq<char>, Seq<char>)> {
    if exists|i: int| 0 <= i < ps.len() && ps[i].0 == key {
        let i = choose|i: int| 0 <= i < ps.len() && ps[i].0 == key;
        ps.update(i, (key, value))
    } else {
        ps.push((key, value))
    }
}

/// No key occurs twice.
pub open spec fn keys_unique(ps: Seq<(Seq<char>, Seq<char>)>) -> bool {
    forall|i: int, j: int| 0 <= i < j < ps.len() ==> ps[i].0 != ps[j].0
}

/// Relies on `serde_json::to_string` on a `serde_json::Value`: the JSON text of
/// the value. Nothing is stated of it.
#[verifier::external_body]
fn value_json(value: &serde_json::Value) -> (r: String) {
    serde_json::to_string(value).unwrap_or_default()
}

#[verifier::external_type_specification]
#[verifier::external_body]
pub struct ExJsonValue(serde_json::Value);

impl TelemetryEvent {
    /// An event with the given identity and creation time, no session, no
    /// user and no properties.
    pub fn at(id: String, event_type: EventType, timestamp: i64, context: DeviceContext) -> (r:
        Self)
        ensures
            r@.id == id@,
            r@.event_type == event_type,
            r@.timestamp == timestamp,
            r@.session_id is None,
            r@.user_id is None,
            r@.properties.len() == 0,
            r@.context == context@,
    {
        TelemetryEvent {
            id,
            event_type,
            timestamp,
            session_id: None,
            user_id: None,
            properties: Vec::new(),
            context,
        }
    }

    /// A new event with a fresh random identifier, stamped with the current time.
    pub fn new(event_type: EventType, context: DeviceContext) -> (r: Self)
        ensures
            r@.id.len() == 36,
            r@.event_type == event_type,
            r@.session_id is None,
            r@.user_id is None,
            r@.properties.len() == 0,
            r@.context == context@,
    {
        let id = new_uuid();
        let timestamp = now_nanos();
        Self::at(id, event_type, timestamp, context)
    }

    /// Sets the property `key` to a value given as JSON text.
    pub fn with_property_json(self, key: String, value_json: String) -> (r: Self)
        requires
            keys_unique(self@.properties),
        ensures
            r@.properties == set_property(self@.properties, key@, value_json@),
            keys_unique(r@.properties),
            r@.id == self@.id,
            r@.event_type == self@.event_type,
            r@.timestamp == self@.timestamp,
            r@.session_id == self@.session_id,
            r@.user_id == self@.user_id,
            r@.context == self@.context,
    {
        let mut ev = self;
        let ghost ps = ev@.properties;
        let mut i: usize = 0;
        while i < ev.properties.len()
            invariant
                0 <= i <= ev.properties.len(),
                ev@ == self@,
                ps == self@.properties,
                keys_unique(ps),
                forall|j: int| 0 <= j < i ==> ps[j].0 != key@,
            decreases ev.properties.len() - i,
        {
            assert(ps[i as int] == (ev.properties@[i as int].0@, ev.properties@[i as int].1@));
            if ev.properties[i].0 == key {
                proof {
                    assert(ps[i as int].0 == key@);
                    assert(keys_unique(ps));
                    let c = choose|k: int| 0 <= k < ps.len() && ps[k].0 == key@;
                    assert(c == i as int);
                    assert(set_property(ps, key@, value_json@) == ps.update(
                        i as int,
                        (key@, value_json@),
                    ));
                }
                let ghost kv = key@;
                let ghost vv = value_json@;
                ev.properties.set(i, (key, value_json));
                proof {
                    let pv = props_view(ev.properties@);
                    assert(pv =~= ps.update(i as int, (kv, vv)));
                    assert forall|a: int| 0 <= a < pv.len() implies pv[a].0 == ps[a].0 by {}
                    assert(keys_unique(pv));
                }
                return ev;
            }
            i += 1;
        }
        ev.properties.push((key, value_json));
        proof {
            let pv = props_view(ev.properties@);
            assert(pv =~= ps.push((key@, value_json@)));
            assert forall|a: int, b: int| 0 <= a < b < pv.len() implies pv[a].0 != pv[b].0 by {
                if b < ps.len() {
                    assert(pv[a] == ps[a] && pv[b] == ps[b]);
                } else {
                    assert(pv[a] == ps[a]);
                }
            }
            assert(keys_unique(pv));
        }
        ev
    }

    /// Sets the property `key` to `value`, stored as its JSON text.
    pub fn with_property(self, key: String, value: serde_json::Value) -> (r: Self)
        requires
            keys_unique(self@.properties),
        ensures
            keys_unique(r@.properties),
            exists|text: Seq<char>| r@.properties == set_property(self@.properties, key@, text),
            r@.id == self@.id,
            r@.event_type == self@.event_type,
            r@.timestamp == self@.timestamp,
            r@.session_id == self@.session_id,
            r@.user_id == self@.user_id,
            r@.context == self@.context,
    {
        let text = value_json(&value);
        self.with_property_json(key, text)
    }

    /// Sets the session identifier.
    pub fn with_session(self, session_id: String) -> (r: Self)
        ensures
            r@ == (EventView { session_id: Some(session_id@), ..self@ }),
    {
        let mut ev = self;
        ev.session_id = Some(session_id);
        ev
    }

    /// Sets the user identifier.
    pub fn with_user(self, user_id: String) -> (r: Self)
        ensures
            r@ == (EventView { user_id: Some(user_id@), ..self@ }),
    {
        let mut ev = self;
        ev.user_id = Some(user_id);
        ev
    }

    /// The JSON text of the property `key`, if it is set.
    pub fn property(&self, key: &str) -> (r: Option<String>)
        ensures
            r is Some <==> exists|i: int|
                0 <= i < self@.properties.len() && self@.properties[i].0 == key@,
            r is Some ==> exists|i: int|
                0 <= i < self@.properties.len() && self@.properties[i].0 == key@
                    && self@.properties[i].1 == r->Some_0@,
    {
        let wanted = key.to_owned();
        let mut i: usize = 0;
        while i < self.properties.len()
            invariant
                0 <= i <= self.properties.len(),
                wanted@ == key@,
                forall|j: int| 0 <= j < i ==> self@.properties[j].0 != key@,
            decreases self.properties.len() - i,
        {
            assert(self@.properties[i as int] == (self.properties@[i as int].0@, self.properties@[i as int].1@));
            if self.properties[i].0 == wanted {
                return Some(self.properties[i].1.clone());
            }
            i += 1;
        }
        None
    }

    /// A copy with the same contents.
    pub fn duplicate(&self) -> (r: Self)
        ensures
            r@ == self@,
    {
        let mut props: Vec<(String, String)> = Vec::new();
        let mut i: usize = 0;
        while i < self.properties.len()
            invariant
                0 <= i <= self.properties.len(),
                props@.len() == i,
                forall|k: int|
                    0 <= k < i ==> props@[k].0@ == self.properties@[k].0@ && props@[k].1@
                        == self.properties@[k].1@,
            decreases self.properties.len() - i,
        {
            let p = (self.properties[i].0.clone(), self.properties[i].1.clone());
            props.push(p);
            i += 1;
        }
        assert(props_view(props@) =~= props_view(self.properties@));
        TelemetryEvent {
            id: self.id.clone(),
            event_type: self.event_type,
            timestamp: self.timestamp,
            session_id: copy_opt(&self.session_id),
            user_id: copy_opt(&self.user_id),
            properties: props,
            context: self.context.duplicate(),
        }
    }
}

// JSON text of events and batches
pub open spec fn opt_json(o: Option<Seq<char>>) -> Seq<char> {
    match o {
        Some(s) => json_quoted(s),
        None => "null"@,
    }
}

pub open spec fn entry_json(p: (Seq<char>, Seq<char>)) -> Seq<char> {
    json_quoted(p.0) + ":"@ + p.1
}

/// The property entries, separated by commas.
pub open spec fn entries_json(ps: Seq<(Seq<char>, Seq<char>)>) -> Seq<char>
    decreases ps.len(),
{
    if ps.len() == 0 {
        Seq::empty()
    } else if ps.len() == 1 {
        entry_json(ps[0])
    } else {
        entries_json(ps.drop_last()) + ","@ + entry_json(ps.last())
    }
}

pub open spec fn context_json(c: ContextView) -> Seq<char> {
    "{\"app_version\":"@ + json_quoted(c.app_version) + ",\"platform\":"@ + json_quoted(c.platform)
        + ",\"os_version\":"@ + opt_json(c.os_version) + ",\"device_model\":"@ + opt_json(
        c.device_model,
    ) + ",\"locale\":"@ + json_quoted(c.locale) + "}"@
}

/// The JSON object that stands for one event.
pub open spec fn event_json(e: EventView) -> Seq<char> {
    "{\"id\":"@ + json_quoted(e.id) + ",\"event_type\":\""@ + event_type_name(e.event_type)
        + "\",\"timestamp\":"@ + int_text(e.timestamp) + ",\"session_id\":"@ + opt_json(
        e.session_id,
    ) + ",\"user_id\":"@ + opt_json(e.user_id) + ",\"properties\":{"@ + entries_json(
        e.properties,
    ) + "},\"context\":"@ + context_json(e.context) + "}"@
}

/// The event objects, separated by commas.
pub open spec fn events_json(es: Seq<EventView>) -> Seq<char>
    decreases es.len(),
{
    if es.len() == 0 {
        Seq::empty()
    } else if es.len() == 1 {
        event_json(es[0])
    } else {
        events_json(es.drop_last()) + ","@ + event_json(es.last())
    }
}

/// The JSON array of the events.
pub open spec fn batch_json(es: Seq<EventView>) -> Seq<char> {
    "["@ + events_json(es) + "]"@
}

/// The size of a batch of events: the number of bytes of the UTF-8 encoding
/// of its JSON text.
pub open spec fn batch_size(es: Seq<EventView>) -> usize {
    encode_utf8(batch_json(es)).len() as usize
}

pub open spec fn events_view(v: Seq<TelemetryEvent>) -> Seq<EventView> {
    v.map_values(|e: TelemetryEvent| e@)
}

fn push_opt(out: &mut String, o: &Option<String>)
    ensures
        final(out)@ == old(out)@ + opt_json(opt_view(*o)),
{
    match o {
        Some(s) => {
            let q = json_quote(s.as_str());
            out.append(q.as_str());
        },
        None => {
            out.append("null");
        },
    }
}

fn push_entries(out: &mut String, ps: &Vec<(String, String)>)
    ensures
        final(out)@ == old(out)@ + entries_json(props_view(ps@)),
{
    let ghost start = out@;
    let mut i: usize = 0;
    while i < ps.len()
        invariant
            0 <= i <= ps.len(),
            out@ == start + entries_json(props_view(ps@.subrange(0, i as int))),
        decreases ps.len() - i,
    {
        if i > 0 {
            out.append(",");
        }
        let k = json_quote(ps[i].0.as_str());
        out.append(k.as_str());
        out.append(":");
        out.append(ps[i].1.as_str());
        proof {
            let pre = props_view(ps@.subrange(0, i as int));
            let cur = props_view(ps@.subrange(0, i + 1));
            assert(cur.drop_last() =~= pre);
            assert(cur.last() == (ps@[i as int].0@, ps@[i as int].1@));
            assert(out@ =~= start + entries_json(cur));
        }
        i += 1;
    }
    assert(ps@.subrange(0, i as int) =~= ps@);
}

fn push_context(out: &mut String, c: &DeviceContext)
    ensures
        final(out)@ == old(out)@ + context_json(c@),
{
    let ghost start = out@;
    out.append("{\"app_version\":");
    out.append(json_quote(c.app_version.as_str()).as_str());
    out.append(",\"platform\":");
    out.append(json_quote(c.platform.as_str()).as_str());
    out.append(",\"os_version\":");
    push_opt(out, &c.os_version);
    out.append(",\"device_model\":");
    push_opt(out, &c.device_model);
    out.append(",\"locale\":");
    out.append(json_quote(c.locale.as_str()).as_str());
    out.append("}");
    assert(out@ =~= start + context_json(c@));
}

fn push_event(out: &mut String, e: &TelemetryEvent)
    ensures
        final(out)@ == old(out)@ + event_json(e@),
{
    let ghost start = out@;
    out.append("{\"id\":");
    out.append(json_quote(e.id.as_str()).as_str());
    out.append(",\"event_type\":\"");
    out.append(e.event_type.name());
    out.append("\",\"timestamp\":");
    push_int(out, e.timestamp);
    out.append(",\"session_id\":");
    push_opt(out, &e.session_id);
    out.append(",\"user_id\":");
    push_opt(out, &e.user_id);
    out.append(",\"properties\":{");
    push_entries(out, &e.properties);
    out.append("},\"context\":");
    push_context(out, &e.context);
    out.append("}");
    assert(out@ =~= start + event_json(e@));
}

/// The JSON text of a batch of events.
pub fn batch_text(events: &Vec<TelemetryEvent>) -> (r: String)
    ensures
        r@ == batch_json(events_view(events@)),
{
    let mut out = String::new();
    out.append("[");
    let mut i: usize = 0;
    while i < events.len()
        invariant
            0 <= i <= events.len(),
            out@ == "["@ + events_json(events_view(events@.subrange(0, i as int))),
        decreases events.len() - i,
    {
        if i > 0 {
            out.append(",");
        }
        push_event(&mut out, &events[i]);
        proof {
            let pre = events_view(events@.subrange(0, i as int));
            let cur = events_view(events@.subrange(0, i + 1));
            assert(cur.drop_last() =~= pre);
            assert(cur.last() == events@[i as int]@);
            assert(out@ =~= "["@ + events_json(cur));
        }
        i += 1;
    }
    assert(events@.subrange(0, i as int) =~= events@);
    out.append("]");
    assert(out@ =~= batch_json(events_view(events@)));
    out
}

/// Events assembled for one delivery. `created_at` is in nanoseconds since
/// the Unix epoch (UTC); `size_bytes` is the byte length of the events' JSON
/// text, computed once at assembly.
#[derive(Debug, Clone)]
pub struct EventBatch {
    pub batch_id: String,
    pub events: Vec<TelemetryEvent>,
    pub created_at: i64,
    pub size_bytes: usize,
}

/// Whole seconds in `ns` nanoseconds, rounded toward zero.
pub open spec fn whole_seconds(ns: int) -> int {
    if ns >= 0 {
        ns / 1_000_000_000
    } else {
        -((-ns) / 1_000_000_000)
    }
}

/// A batch is due once it is at least `max_age_seconds` old or at least
/// `max_size_bytes` large.
pub open spec fn ready_at(
    created_at: int,
    size_bytes: int,
    now: int,
    max_age_seconds: int,
    max_size_bytes: int,
) -> bool {
    whole_seconds(now - created_at) >= max_age_seconds || size_bytes >= max_size_bytes
}

impl EventBatch {
    /// A batch of `events` under the given identifier and creation time; its
    /// size is that of the events' JSON text.
    pub fn assemble(batch_id: String, events: Vec<TelemetryEvent>, created_at: i64) -> (r: Self)
        ensures
            r.batch_id@ == batch_id@,
            events_view(r.events@) == events_view(events@),
            r.created_at == created_at,
            r.size_bytes == batch_size(events_view(events@)),
            r.size_bytes as int == encode_utf8(batch_json(events_view(events@))).len(),
    {
        let text = batch_text(&events);
        let size_bytes = text.as_str().as_bytes().len();
        EventBatch { batch_id, events, created_at, size_bytes }
    }

    /// A batch of `events` with a fresh random identifier, created now.
    pub fn new(events: Vec<TelemetryEvent>) -> (r: Self)
        ensures
            r.batch_id@.len() == 36,
            events_view(r.events@) == events_view(events@),
            r.size_bytes == batch_size(events_view(events@)),
            r.size_bytes as int == encode_utf8(batch_json(events_view(events@))).len(),
    {
        let batch_id = new_uuid();
        let created_at = now_nanos();
        Self::assemble(batch_id, events, created_at)
    }

    /// Whether the batch is due at time `now` (nanoseconds since the epoch).
    pub fn is_ready_at(&self, now: i64, max_age_seconds: i64, max_size_bytes: usize) -> (r: bool)
        ensures
            r == ready_at(
                self.created_at as int,
                self.size_bytes as int,
                now as int,
                max_age_seconds as int,
                max_size_bytes as int,
            ),
    {
        let age_ns: i128 = now as i128 - self.created_at as i128;
        let age_s: i128 = if age_ns >= 0 {
            age_ns / 1_000_000_000
        } else {
            -((-age_ns) / 1_000_000_000)
        };
        age_s >= max_age_seconds as i128 || self.size_bytes >= max_size_bytes
    }

    /// Whether the batch is due now.
    pub fn is_ready_to_send(&self, max_age_seconds: i64, max_size_bytes: usize) -> (r: bool)
        ensures
            self.size_bytes >= max_size_bytes ==> r,
            exists|now: i64|
                r == ready_at(
                    self.created_at as int,
                    self.size_bytes as int,
                    now as int,
                    max_age_seconds as int,
                    max_size_bytes as int,
                ),
    {
        let now = now_nanos();
        self.is_ready_at(now, max_age_seconds, max_size_bytes)
    }
}

/// Settings of the batching policy.
#[derive(Debug, Clone)]
pub struct TelemetryConfig {
    pub enabled: bool,
    /// Number of events before a batch is sent.
    pub batch_size: usize,
    /// Age in seconds after which a batch is sent anyway.
    pub batch_max_age_seconds: i64,
    /// Largest size of a batch in bytes.
    pub batch_max_size_bytes: usize,
    pub wifi_only: bool,
    pub endpoint: Option<String>,
}

impl Default for TelemetryConfig {
    fn default() -> (r: Self)
        ensures
            r.enabled,
            r.batch_size == 50,
            r.batch_max_age_seconds == 3600,
            r.batch_max_size_bytes == 100_000,
            r.wifi_only,
            r.endpoint is None,
    {
        TelemetryConfig {
            enabled: true,
            batch_size: 50,
            batch_max_age_seconds: 3600,
            batch_max_size_bytes: 100_000,
            wifi_only: true,
            endpoint: None,
        }
    }
}

} // verus!
