//! Reading the JSON bodies of the journal viewer's requests: which fields a
//! route reads, the defaults it falls back on, and when it answers at all.
use vstd::prelude::*;
use crate::http::{
    key_accepted, key_env_var, key_env_var_spec, key_submission, request_body, request_body_spec,
    route_request, route_spec, KeySubmission, Route,
};
use crate::security::{login, password_hash, token_source, LoginOutcome, OWNER_PASSWORD};

verus! {

// ---------------------------------------------------------------------------
// What serde_json reads from a body
// ---------------------------------------------------------------------------

/// Whether `body` parses as a JSON document (`serde_json::from_str::<Value>`).
pub uninterp spec fn json_parses(body: Seq<char>) -> bool;

/// The string stored under `key` when `body` parses as a JSON object holding
/// a string there; `None` otherwise.
pub uninterp spec fn json_str_field(body: Seq<char>, key: Seq<char>) -> Option<Seq<char>>;

/// The unsigned integer stored under `key` when `body` parses as a JSON
/// object holding one there; `None` otherwise.
pub uninterp spec fn json_u64_field(body: Seq<char>, key: Seq<char>) -> Option<u64>;

/// The entries of `body` when it parses as a JSON object, in the order the
/// parsed map yields them, each value as a string where it is one; `None`
/// when `body` is not a JSON object.
pub uninterp spec fn json_string_entries(body: Seq<char>) -> Option<
    Seq<(Seq<char>, Option<Seq<char>>)>,
>;

/// An optional string, by its characters.
pub open spec fn opt_view(o: Option<String>) -> Option<Seq<char>> {
    match o {
        Some(s) => Some(s@),
        None => None,
    }
}

/// Entries of names and optional strings, by their characters.
pub open spec fn entries_view(v: Seq<(String, Option<String>)>) -> Seq<
    (Seq<char>, Option<Seq<char>>),
> {
    v.map_values(|e: (String, Option<String>)| (e.0@, opt_view(e.1)))
}

/// `serde_json::from_str::<serde_json::Value>(body).is_ok()`: the contract
/// names the answer `json_parses` and says nothing more of it.
#[verifier::external_body]
pub(crate) fn is_json(body: &str) -> (b: bool)
    ensures
        b == json_parses(body@),
{
    serde_json::from_str::<serde_json::Value>(body).is_ok()
}

/// Parses `body` with `serde_json::from_str::<serde_json::Value>` and reads
/// `key` with `Value::get` and `Value::as_str`; the contract names the result
/// `json_str_field` and says nothing more of it.
#[verifier::external_body]
pub(crate) fn str_field(body: &str, key: &str) -> (r: Option<String>)
    ensures
        opt_view(r) == json_str_field(body@, key@),
{
    match serde_json::from_str::<serde_json::Value>(body) {
        Ok(v) => v.get(key).and_then(|x| x.as_str()).map(|s| s.to_string()),
        Err(_) => None,
    }
}

/// Parses `body` with `serde_json::from_str::<serde_json::Value>` and reads
/// `key` with `Value::get` and `Value::as_u64`; the contract names the result
/// `json_u64_field` and says nothing more of it.
#[verifier::external_body]
pub(crate) fn u64_field(body: &str, key: &str) -> (r: Option<u64>)
    ensures
        r == json_u64_field(body@, key@),
{
    match serde_json::from_str::<serde_json::Value>(body) {
        Ok(v) => v.get(key).and_then(|x| x.as_u64()),
        Err(_) => None,
    }
}

/// Parses `body` with `serde_json::from_str::<serde_json::Value>`, takes
/// `Value::as_object` and walks the map with `Map::iter`, reading each value
/// with `Value::as_str`; the contract names the result `json_string_entries`
/// and says nothing more of it (not the order of the entries either).
#[verifier::external_body]
pub(crate) fn string_entries(body: &str) -> (r: Option<Vec<(String, Option<String>)>>)
    ensures
        match json_string_entries(body@) {
            Some(es) => r matches Some(v) && entries_view(v@) == es,
            None => r is None,
        },
{
    let v = match serde_json::from_str::<serde_json::Value>(body) {
        Ok(v) => v,
        Err(_) => return None,
    };
    let m = v.as_object()?;
    let mut out = Vec::new();
    for (k, x) in m.iter() {
        out.push((k.clone(), x.as_str().map(|s| s.to_string())));
    }
    Some(out)
}

/// The string under `key` in `body`, or `default` where there is none.
pub open spec fn str_or(body: Seq<char>, key: Seq<char>, default: Seq<char>) -> Seq<char> {
    match json_str_field(body, key) {
        Some(s) => s,
        None => default,
    }
}

fn field_or(body: &str, key: &str, default: &str) -> (s: String)
    ensures
        s@ == str_or(body@, key@, default@),
{
    match str_field(body, key) {
        Some(s) => s,
        None => default.to_owned(),
    }
}

// ---------------------------------------------------------------------------
// Routing
// ---------------------------------------------------------------------------

/// The route `request` takes, its body read as JSON where the route needs
/// to know.
pub fn request_route(request: &str) -> (route: Route)
    ensures
        route == route_spec(request@, json_parses(request_body_spec(request@))),
{
    let body = request_body(request);
    route_request(request, is_json(body.as_str()))
}

// ---------------------------------------------------------------------------
// Group chat and inbox messages
// ---------------------------------------------------------------------------

/// A chat or inbox message in `body`: its sender (the `from` field, or
/// `Craig`) and its text, when the `message` field is a non-empty string.
pub open spec fn chat_message_spec(body: Seq<char>) -> Option<(Seq<char>, Seq<char>)> {
    match json_str_field(body, "message"@) {
        Some(m) => if m.len() > 0 {
            Some((str_or(body, "from"@, "Craig"@), m))
        } else {
            None
        },
        None => None,
    }
}

/// The sender and text of a message posted to the group chat or the inbox
/// (see `chat_message_spec`); `None` where the request is not answered.
pub fn broadcast_request(body: &str) -> (r: Option<(String, String)>)
    ensures
        match chat_message_spec(body@) {
            Some((from, m)) => r matches Some((f, t)) && f@ == from && t@ == m,
            None => r is None,
        },
{
    match str_field(body, "message") {
        Some(m) => {
            if m.as_str().is_empty() {
                return None;
            }
            let from = field_or(body, "from", "Craig");
            Some((from, m))
        },
        None => None,
    }
}

// ---------------------------------------------------------------------------
// Sub-agent tasks
// ---------------------------------------------------------------------------

/// A task for a sub-agent in `body`: the agent (the `agent` field, or
/// `scribe`) and the task, when the `task` field is a non-empty string.
pub open spec fn agent_task_spec(body: Seq<char>) -> Option<(Seq<char>, Seq<char>)> {
    match json_str_field(body, "task"@) {
        Some(t) => if t.len() > 0 {
            Some((str_or(body, "agent"@, "scribe"@), t))
        } else {
            None
        },
        None => None,
    }
}

/// The agent and task an agent request asks for (see `agent_task_spec`);
/// `None` where no agent is called.
pub fn agent_request(body: &str) -> (r: Option<(String, String)>)
    ensures
        match agent_task_spec(body@) {
            Some((agent, task)) => r matches Some((a, t)) && a@ == agent && t@ == task,
            None => r is None,
        },
{
    match str_field(body, "task") {
        Some(t) => {
            if t.as_str().is_empty() {
                return None;
            }
            let agent = field_or(body, "agent", "scribe");
            Some((agent, t))
        },
        None => None,
    }
}

// ---------------------------------------------------------------------------
// Login
// ---------------------------------------------------------------------------

/// The password a login body offers: its `password` field, or nothing.
pub open spec fn offered_password(body: Seq<char>) -> Seq<char> {
    str_or(body, "password"@, ""@)
}

/// A login with the JSON `body` at time `now`: a body that does not parse is
/// refused; otherwise the offered password is tried (see `login`).
pub fn login_request(body: &str, now: u64) -> (r: LoginOutcome)
    ensures
        !json_parses(body@) ==> r is Refused,
        json_parses(body@) && offered_password(body@) == OWNER_PASSWORD@ ==> (
        r matches LoginOutcome::Granted { token } && token@ == password_hash(
            token_source(offered_password(body@), now as nat),
        )),
        json_parses(body@) && offered_password(body@) != OWNER_PASSWORD@ ==> r is Refused,
{
    if !is_json(body) {
        return LoginOutcome::Refused;
    }
    let password = field_or(body, "password", "");
    login(password.as_str(), now)
}

// ---------------------------------------------------------------------------
// Body-control intents
// ---------------------------------------------------------------------------

/// A body-control packet, as saved for the renderer.
#[derive(Debug, Clone)]
pub struct IntentPacket {
    pub text: String,
    pub emotion: String,
    pub pose: String,
    pub gesture: String,
    pub outfit: String,
    pub animation: String,
    pub gaze: String,
    pub timestamp: u64,
    pub source: String,
    pub channel: String,
    pub version: String,
    pub received_at: u64,
}

/// Why an intent was refused.
#[derive(Debug, Clone, Copy, PartialEq, Eq, Structural)]
pub enum IntentError {
    /// The body is empty.
    EmptyBody,
    /// The body is not JSON.
    InvalidJson,
}

/// The packet read from `body` at time `now`: each field from the body where
/// it is a string (the timestamp where it is an unsigned integer), else its
/// default.
pub open spec fn intent_packet_spec(p: IntentPacket, body: Seq<char>, now: u64) -> bool {
    &&& p.text@ == str_or(body, "text"@, ""@)
    &&& p.emotion@ == str_or(body, "emotion"@, "neutral"@)
    &&& p.pose@ == str_or(body, "pose"@, "idle"@)
    &&& p.gesture@ == str_or(body, "gesture"@, "none"@)
    &&& p.outfit@ == str_or(body, "outfit"@, "default"@)
    &&& p.animation@ == str_or(body, "animation"@, "none"@)
    &&& p.gaze@ == str_or(body, "gaze"@, "center"@)
    &&& p.timestamp == match json_u64_field(body, "timestamp"@) {
        Some(t) => t,
        None => now,
    }
    &&& p.source@ == str_or(body, "source"@, "dashboard"@)
    &&& p.channel@ == str_or(body, "channel"@, "body_panel"@)
    &&& p.version@ == str_or(body, "version"@, "2.0"@)
    &&& p.received_at == now
}

/// The intent packet a (trimmed) request body carries, received at `now`: an
/// empty body and a body that is not JSON are refused.
pub fn intent_packet(body: &str, now: u64) -> (r: Result<IntentPacket, IntentError>)
    ensures
        body@.len() == 0 ==> r == Err::<IntentPacket, IntentError>(IntentError::EmptyBody),
        body@.len() > 0 && !json_parses(body@) ==> r == Err::<IntentPacket, IntentError>(
            IntentError::InvalidJson,
        ),
        body@.len() > 0 && json_parses(body@) ==> (r matches Ok(p) && intent_packet_spec(
            p,
            body@,
            now,
        )),
{
    if body.is_empty() {
        return Err(IntentError::EmptyBody);
    }
    if !is_json(body) {
        return Err(IntentError::InvalidJson);
    }
    let timestamp = match u64_field(body, "timestamp") {
        Some(t) => t,
        None => now,
    };
    Ok(
        IntentPacket {
            text: field_or(body, "text", ""),
            emotion: field_or(body, "emotion", "neutral"),
            pose: field_or(body, "pose", "idle"),
            gesture: field_or(body, "gesture", "none"),
            outfit: field_or(body, "outfit", "default"),
            animation: field_or(body, "animation", "none"),
            gaze: field_or(body, "gaze", "center"),
            timestamp,
            source: field_or(body, "source", "dashboard"),
            channel: field_or(body, "channel", "body_panel"),
            version: field_or(body, "version", "2.0"),
            received_at: now,
        },
    )
}

// ---------------------------------------------------------------------------
// Submitted keys
// ---------------------------------------------------------------------------

/// The entries of a key submission: each name with its value where that is a
/// string; `None` when the body is not a JSON object (no key is read then).
pub fn submitted_keys(body: &str) -> (r: Option<Vec<(String, Option<String>)>>)
    ensures
        match json_string_entries(body@) {
            Some(es) => r matches Some(v) && entries_view(v@) == es,
            None => r is None,
        },
{
    string_entries(body)
}

/// What happens to one submitted key.
#[derive(Debug, Clone)]
pub struct KeyResult {
    /// The name it was submitted under.
    pub name: String,
    /// The submitted value.
    pub key: String,
    /// The environment variable it belongs in.
    pub env_var: String,
    pub outcome: KeySubmission,
}

/// A key result by its characters.
pub open spec fn key_result_view(r: KeyResult) -> (Seq<char>, Seq<char>, Seq<char>, KeySubmission) {
    (r.name@, r.key@, r.env_var@, r.outcome)
}

/// The fate of `key`, given whether its variable already holds a value.
pub open spec fn key_outcome(key: Seq<char>, already_set: bool) -> KeySubmission {
    if key_accepted(key) {
        KeySubmission::Stored
    } else if already_set {
        KeySubmission::Exists
    } else {
        KeySubmission::Missing
    }
}

/// Some earlier result stored a key in `var`.
pub open spec fn stored_before(
    prev: Seq<(Seq<char>, Seq<char>, Seq<char>, KeySubmission)>,
    var: Seq<char>,
) -> bool {
    exists|j: int| 0 <= j < prev.len() && prev[j].2 == var && prev[j].3 == KeySubmission::Stored
}

/// The results of a key submission, in the order of its entries: entries
/// whose value is not a string are skipped; a key counts as already set when
/// its variable held a value before the request (`set`, one flag per entry)
/// or an earlier entry of the same request stored a key in it.
pub open spec fn key_results_spec(
    entries: Seq<(Seq<char>, Option<Seq<char>>)>,
    set: Seq<bool>,
) -> Seq<(Seq<char>, Seq<char>, Seq<char>, KeySubmission)>
    decreases entries.len(),
{
    if entries.len() == 0 {
        Seq::empty()
    } else {
        let n = entries.len() - 1;
        let prev = key_results_spec(entries.take(n), set.take(n));
        match entries[n].1 {
            None => prev,
            Some(k) => {
                let var = key_env_var_spec(entries[n].0);
                prev.push((entries[n].0, k, var, key_outcome(k, set[n] || stored_before(prev, var))))
            },
        }
    }
}

fn stored_in(r: &Vec<KeyResult>, var: &String) -> (b: bool)
    ensures
        b == stored_before(r@.map_values(|x: KeyResult| key_result_view(x)), var@),
{
    let ghost views = r@.map_values(|x: KeyResult| key_result_view(x));
    let mut j: usize = 0;
    while j < r.len()
        invariant
            j <= r.len(),
            views == r@.map_values(|x: KeyResult| key_result_view(x)),
            forall|k: int| 0 <= k < j ==> !(views[k].2 == var@ && views[k].3 == KeySubmission::Stored),
        decreases r.len() - j,
    {
        let stored = match r[j].outcome {
            KeySubmission::Stored => true,
            _ => false,
        };
        if stored && r[j].env_var == *var {
            assert(views[j as int].2 == var@ && views[j as int].3 == KeySubmission::Stored);
            return true;
        }
        j = j + 1;
    }
    false
}

/// The results of submitting `entries` (see `key_results_spec`), given for
/// each entry whether its variable held a value before the request.
pub fn key_results(entries: &Vec<(String, Option<String>)>, already_set: &Vec<bool>) -> (r: Vec<
    KeyResult,
>)
    requires
        already_set.len() == entries.len(),
    ensures
        r@.map_values(|x: KeyResult| key_result_view(x)) == key_results_spec(
            entries_view(entries@),
            already_set@,
        ),
{
    let ghost es = entries_view(entries@);
    let mut r: Vec<KeyResult> = Vec::new();
    let mut i: usize = 0;
    proof {
        assert(es.take(0) =~= Seq::<(Seq<char>, Option<Seq<char>>)>::empty());
        assert(r@.map_values(|x: KeyResult| key_result_view(x)) =~= Seq::<
            (Seq<char>, Seq<char>, Seq<char>, KeySubmission),
        >::empty());
    }
    while i < entries.len()
        invariant
            i <= entries.len(),
            already_set.len() == entries.len(),
            es == entries_view(entries@),
            r@.map_values(|x: KeyResult| key_result_view(x)) == key_results_spec(
                es.take(i as int),
                already_set@.take(i as int),
            ),
        decreases entries.len() - i,
    {
        let ghost prev = r@.map_values(|x: KeyResult| key_result_view(x));
        proof {
            assert(es.take(i + 1).take(i as int) =~= es.take(i as int));
            assert(already_set@.take(i + 1).take(i as int) =~= already_set@.take(i as int));
            assert(es.take(i + 1)[i as int] == es[i as int]);
            assert(already_set@.take(i + 1)[i as int] == already_set@[i as int]);
            assert(es[i as int] == (entries@[i as int].0@, opt_view(entries@[i as int].1)));
        }
        let e = &entries[i];
        match &e.1 {
            Some(k) => {
                let var = key_env_var(e.0.as_str());
                let before = stored_in(&r, &var);
                let outcome = key_submission(k.as_str(), already_set[i] || before);
                r.push(
                    KeyResult { name: e.0.clone(), key: k.clone(), env_var: var, outcome },
                );
                proof {
                    assert(r@.map_values(|x: KeyResult| key_result_view(x)) =~= prev.push(
                        key_result_view(r@[i as int - i as int + prev.len() as int]),
                    ));
                }
            },
            None => {},
        }
        i = i + 1;
    }
    proof {
        assert(es.take(entries.len() as int) =~= es);
        assert(already_set@.take(entries.len() as int) =~= already_set@);
    }
    r
}

} // verus!
