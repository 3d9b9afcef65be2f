//! Session state of one gateway connection and the decisions taken on
//! connect, on each inbound payload, on close and on reconnect.

use crate::gateway::payload::{
    invalid_session_resumable, json_bool_spec, ReadyInfo, OP_DISPATCH, OP_HEARTBEAT,
    OP_HEARTBEAT_ACK, OP_HELLO, OP_IDENTIFY, OP_INVALID_SESSION, OP_RECONNECT, OP_RESUME,
};
use crate::gateway::properties::{
    identify_properties, identify_properties_spec, uuid_bytes, uuid_text, ClientProperties,
};
use crate::gateway::reconnect::{
    gateway_url, gateway_url_spec, resume_ws_url, resume_ws_url_spec, GATEWAY_HOST,
};
use crate::json::{clone_json, ev, jv, push_entry, Json, JV};
use crate::presence::activity::ActivityConfig;
use crate::presence::kinds::{AccountKind, Status};
use crate::presence::status::{build_presence_data, presence_spec};
use crate::text::{before_char, chars, find_char, own, str_eq, string_of, strip_trailing, strip_trailing_vec, sub_vec};
use vstd::prelude::*;

verus! {

/// Everything a session needs to log in; the presence is ready-made.
pub struct SessionParams {
    pub name: String,
    pub token: String,
    pub kind: AccountKind,
    pub presence: Json,
    pub properties: ClientProperties,
}

/// What a session remembers across connections.
pub struct SessionState {
    pub seq: Option<i64>,
    pub session_id: Option<String>,
    pub resume_url: Option<String>,
    /// Set after Ready or Resumed; a healthy drop resets reconnect attempts.
    pub session_healthy: bool,
}

impl SessionState {
    pub fn new() -> (r: SessionState)
        ensures
            r.seq is None,
            r.session_id is None,
            r.resume_url is None,
            !r.session_healthy,
    {
        SessionState { seq: None, session_id: None, resume_url: None, session_healthy: false }
    }

    /// A session id and a sequence number are known.
    pub open spec fn resumable(self) -> bool {
        self.session_id is Some && self.seq is Some
    }

    pub fn can_resume(&self) -> (r: bool)
        ensures
            r == self.resumable(),
    {
        self.session_id.is_some() && self.seq.is_some()
    }

    /// After an error, only a session that reached Ready or Resumed is resumed.
    pub fn can_resume_after_error(&self) -> (r: bool)
        ensures
            r == (self.session_healthy && self.resumable()),
    {
        self.session_healthy && self.can_resume()
    }

    /// Forgets the session; it is no longer healthy.
    pub fn clear_session(&mut self)
        ensures
            final(self).seq is None,
            final(self).session_id is None,
            final(self).resume_url is None,
            !final(self).session_healthy,
    {
        self.session_id = None;
        self.resume_url = None;
        self.seq = None;
        self.set_healthy(false);
    }

    pub fn set_healthy(&mut self, healthy: bool)
        ensures
            *final(self) == (SessionState { session_healthy: healthy, ..*old(self) }),
    {
        self.session_healthy = healthy;
    }
}

/// Close code sent when the client closes to reconnect; codes 1000 and 1001
/// would invalidate the session on the server.
pub const RECONNECT_CLOSE_CODE: u16 = 4000;

/// How a connection ended.
pub enum SessionEnd {
    Shutdown,
    Reconnect {
        resume: bool,
        /// Extra wait before the backoff, in milliseconds.
        extra_delay_ms: Option<u64>,
        cause: &'static str,
    },
    Fatal { code: u16, reason: String },
}

impl SessionEnd {
    pub fn reconnect(resume: bool, cause: &'static str) -> (r: SessionEnd)
        ensures
            r == (SessionEnd::Reconnect { resume, extra_delay_ms: None, cause }),
    {
        SessionEnd::Reconnect { resume, extra_delay_ms: None, cause }
    }

    pub fn reconnect_after(resume: bool, delay_ms: u64, cause: &'static str) -> (r: SessionEnd)
        ensures
            r == (SessionEnd::Reconnect { resume, extra_delay_ms: Some(delay_ms), cause }),
    {
        SessionEnd::Reconnect { resume, extra_delay_ms: Some(delay_ms), cause }
    }

    /// The close frame (code and reason) sent for this end: only a
    /// reconnect closes, with a code that keeps the session resumable.
    pub fn close_frame(&self) -> (r: Option<(u16, &'static str)>)
        ensures
            match *self {
                SessionEnd::Reconnect { .. } => r == Some((RECONNECT_CLOSE_CODE, "reconnecting")),
                _ => r is None,
            },
    {
        match self {
            SessionEnd::Reconnect { .. } => Some((RECONNECT_CLOSE_CODE, "reconnecting")),
            _ => None,
        }
    }
}

/// Close codes after which the client must not reconnect: authentication
/// failed (4004) and shard, intent or API errors (4010 to 4014).
pub open spec fn fatal_close_code(code: u16) -> bool {
    code == 4004 || (4010 <= code && code <= 4014)
}

pub fn is_fatal_close_code(code: u16) -> (r: bool)
    ensures
        r == fatal_close_code(code),
{
    code == 4004 || (4010 <= code && code <= 4014)
}

/// After close code 4007 (invalid sequence) the client identifies afresh.
pub fn resume_after_close(code: u16) -> (r: bool)
    ensures
        r == (code != 4007),
{
    code != 4007
}

/// `r` is how a connection ends when the server closes it with `code` and
/// `reason`; no close code counts as 1000.
pub open spec fn closes_as(code: Option<u16>, reason: String, r: SessionEnd) -> bool {
    let c = match code {
        Some(c) => c,
        None => 1000u16,
    };
    if fatal_close_code(c) {
        r == (SessionEnd::Fatal { code: c, reason })
    } else {
        r == (SessionEnd::Reconnect { resume: c != 4007, extra_delay_ms: None, cause: "close" })
    }
}

/// How a connection ends when the server closes it; no close code counts
/// as 1000.
pub fn close_outcome(code: Option<u16>, reason: String) -> (r: SessionEnd)
    ensures
        closes_as(code, reason, r),
{
    let c = match code {
        Some(c) => c,
        None => 1000,
    };
    if is_fatal_close_code(c) {
        SessionEnd::Fatal { code: c, reason }
    } else {
        SessionEnd::Reconnect { resume: resume_after_close(c), extra_delay_ms: None, cause: "close" }
    }
}

/// A URL for logs: without its query and trailing slashes.
pub open spec fn display_ws_url_spec(url: Seq<char>) -> Seq<char> {
    strip_trailing(before_char(url, '?'), '/')
}

pub fn display_ws_url(url: &str) -> (r: String)
    ensures
        r@ == display_ws_url_spec(url@),
{
    let v = chars(url);
    let base = match find_char(&v, '?') {
        Some(i) => sub_vec(&v, 0, i),
        None => v,
    };
    string_of(&strip_trailing_vec(&base, '/'))
}

/// The URL to connect to: the resume URL (or the gateway host) when the
/// session can be resumed, else a fresh gateway URL.
pub open spec fn connect_url_spec(state: SessionState) -> Seq<char> {
    if state.resumable() {
        resume_ws_url_spec(
            match state.resume_url {
                Some(u) => u@,
                None => GATEWAY_HOST@,
            },
        )
    } else {
        gateway_url_spec()
    }
}

pub fn connect_url(state: &SessionState) -> (r: String)
    ensures
        r@ == connect_url_spec(*state),
{
    if state.can_resume() {
        match &state.resume_url {
            Some(u) => resume_ws_url(u.as_str()),
            None => resume_ws_url(GATEWAY_HOST),
        }
    } else {
        gateway_url()
    }
}

/// The session state and attempt count after a connection ended: a resume
/// keeps the session but marks it unhealthy, otherwise the session is
/// forgotten; a healthy session restarts the count, which then grows by one.
pub fn plan_reconnect(state: &mut SessionState, attempt: u32, resume: bool) -> (next: u32)
    ensures
        resume ==> *final(state) == (SessionState { session_healthy: false, ..*old(state) }),
        !resume ==> final(state).seq is None && final(state).session_id is None
            && final(state).resume_url is None && !final(state).session_healthy,
        next == if old(state).session_healthy {
            1
        } else if attempt == u32::MAX {
            u32::MAX as int
        } else {
            attempt + 1
        },
{
    let was_healthy = state.session_healthy;
    if resume {
        state.set_healthy(false);
    } else {
        state.clear_session();
    }
    let base: u32 = if was_healthy {
        0
    } else {
        attempt
    };
    if base == u32::MAX {
        u32::MAX
    } else {
        base + 1
    }
}

/// What the connection does after an inbound payload.
pub enum DispatchAction {
    Continue,
    /// Record the heartbeat acknowledgement.
    AckHeartbeat,
    /// The server asked for a heartbeat now.
    SendHeartbeat(Option<i64>),
    /// Send the account's presence.
    ApplyPresence,
    /// End the connection.
    End(SessionEnd),
}

/// The decision on one inbound payload.
pub struct DispatchOutcome {
    pub action: DispatchAction,
    /// The sequence number to publish to the heartbeat task.
    pub store_seq: Option<i64>,
    /// The liveness to report, when it was set.
    pub live: Option<bool>,
}

/// Whether a payload is a Ready dispatch, whose data the session reads.
pub fn needs_ready_info(op: u8, t: Option<&str>) -> (r: bool)
    ensures
        r == (op == OP_DISPATCH && match t {
            Some(x) => x@ == "READY"@,
            None => false,
        }),
{
    op == OP_DISPATCH && match t {
        Some(x) => str_eq(x, "READY"),
        None => false,
    }
}

/// The event name of a dispatch payload (empty when absent).
pub open spec fn event_name(t: Option<&str>) -> Seq<char> {
    match t {
        Some(x) => x@,
        None => Seq::empty(),
    }
}

/// Handles one inbound payload: records its sequence number, then acts on
/// its opcode. An unresumable Invalid Session forgets the session; Ready
/// (with its info when it could be read) and Resumed make it healthy.
pub fn handle_payload(
    state: &mut SessionState,
    op: u8,
    s: Option<i64>,
    t: Option<&str>,
    d: Option<&str>,
    ready: Option<ReadyInfo>,
    presence_applied: bool,
) -> (r: DispatchOutcome)
    ensures
        r.store_seq == s,
        ({
            let st = match s {
                Some(x) => SessionState { seq: Some(x), ..*old(state) },
                None => *old(state),
            };
            let resumable = match d {
                Some(x) => json_bool_spec(x@) == Some(true),
                None => false,
            };
            if op == OP_HELLO {
                *final(state) == st && r.action is Continue && r.live is None
            } else if op == OP_HEARTBEAT_ACK {
                *final(state) == st && r.action is AckHeartbeat && r.live is None
            } else if op == OP_HEARTBEAT {
                *final(state) == st && r.action == DispatchAction::SendHeartbeat(st.seq)
                    && r.live is None
            } else if op == OP_RECONNECT {
                *final(state) == st && r.action == DispatchAction::End(
                    SessionEnd::Reconnect { resume: true, extra_delay_ms: None, cause: "reconnect" },
                ) && r.live is None
            } else if op == OP_INVALID_SESSION {
                &&& r.action == DispatchAction::End(
                    SessionEnd::Reconnect {
                        resume: resumable,
                        extra_delay_ms: Some(2000),
                        cause: "invalid_session",
                    },
                )
                &&& resumable ==> *final(state) == st && r.live is None
                &&& !resumable ==> *final(state) == (SessionState {
                    seq: None,
                    session_id: None,
                    resume_url: None,
                    session_healthy: false,
                }) && r.live == Some(false)
            } else if op == OP_DISPATCH && event_name(t) == "READY"@ {
                &&& r.action is ApplyPresence
                &&& r.live == Some(true)
                &&& match ready {
                    Some(info) => final(state).seq == st.seq && final(state).session_id == Some(
                        info.session_id,
                    ) && final(state).resume_url == Some(info.resume_gateway_url)
                        && final(state).session_healthy,
                    None => *final(state) == (SessionState { session_healthy: true, ..st }),
                }
            } else if op == OP_DISPATCH && event_name(t) == "RESUMED"@ {
                &&& *final(state) == (SessionState { session_healthy: true, ..st })
                &&& r.live == Some(true)
                &&& if presence_applied {
                    r.action is Continue
                } else {
                    r.action is ApplyPresence
                }
            } else {
                *final(state) == st && r.action is Continue && r.live is None
            }
        }),
{
    match s {
        Some(x) => {
            state.seq = Some(x);
        },
        None => {},
    }
    if op == OP_HELLO {
        DispatchOutcome { action: DispatchAction::Continue, store_seq: s, live: None }
    } else if op == OP_HEARTBEAT_ACK {
        DispatchOutcome { action: DispatchAction::AckHeartbeat, store_seq: s, live: None }
    } else if op == OP_HEARTBEAT {
        DispatchOutcome { action: DispatchAction::SendHeartbeat(state.seq), store_seq: s, live: None }
    } else if op == OP_RECONNECT {
        DispatchOutcome {
            action: DispatchAction::End(SessionEnd::reconnect(true, "reconnect")),
            store_seq: s,
            live: None,
        }
    } else if op == OP_INVALID_SESSION {
        let resumable = invalid_session_resumable(d);
        let live = if !resumable {
            state.clear_session();
            Some(false)
        } else {
            None
        };
        DispatchOutcome {
            action: DispatchAction::End(
                SessionEnd::reconnect_after(resumable, 2000, "invalid_session"),
            ),
            store_seq: s,
            live,
        }
    } else if op == OP_DISPATCH {
        let event: &str = match t {
            Some(x) => x,
            None => "",
        };
        proof {
            reveal_strlit("");
        }
        assert(event@ == event_name(t));
        let is_ready = str_eq(event, "READY");
        assert(is_ready == (event_name(t) == "READY"@));
        if is_ready {
            match ready {
                Some(info) => {
                    state.session_id = Some(info.session_id);
                    state.resume_url = Some(info.resume_gateway_url);
                },
                None => {},
            }
            state.set_healthy(true);
            DispatchOutcome { action: DispatchAction::ApplyPresence, store_seq: s, live: Some(true) }
        } else if str_eq(event, "RESUMED") {
            state.set_healthy(true);
            let action = if !presence_applied {
                DispatchAction::ApplyPresence
            } else {
                DispatchAction::Continue
            };
            DispatchOutcome { action, store_seq: s, live: Some(true) }
        } else {
            DispatchOutcome { action: DispatchAction::Continue, store_seq: s, live: None }
        }
    } else {
        DispatchOutcome { action: DispatchAction::Continue, store_seq: s, live: None }
    }
}

/// The data of a heartbeat: the sequence number, or null.
pub fn heartbeat_d(seq: Option<i64>) -> (r: Json)
    ensures
        jv(r) == match seq {
            Some(n) => JV::Num(n as int),
            None => JV::Null,
        },
{
    match seq {
        Some(n) => Json::Int(n),
        None => Json::Null,
    }
}

/// The data of a Resume payload.
pub open spec fn resume_d_spec(token: Seq<char>, session_id: Seq<char>, seq: int) -> JV {
    JV::Object(seq![("token"@, JV::Str(token)), ("session_id"@, JV::Str(session_id)), ("seq"@, JV::Num(seq))])
}

pub fn resume_d(token: &str, session_id: &str, seq: i64) -> (r: Json)
    ensures
        jv(r) == resume_d_spec(token@, session_id@, seq as int),
{
    let mut e: Vec<(String, Json)> = Vec::new();
    push_entry(&mut e, "token", Json::Str(own(token)));
    push_entry(&mut e, "session_id", Json::Str(own(session_id)));
    push_entry(&mut e, "seq", Json::Int(seq));
    assert(ev(e@) =~= seq![
        ("token"@, JV::Str(token@)),
        ("session_id"@, JV::Str(session_id@)),
        ("seq"@, JV::Num(seq as int)),
    ]);
    Json::Object(e)
}

/// The account-kind entries of an Identify payload.
pub open spec fn identify_kind_entries(kind: AccountKind) -> Seq<(Seq<char>, JV)> {
    if kind == AccountKind::Bot {
        seq![("large_threshold"@, JV::Num(50)), ("intents"@, JV::Num(0))]
    } else {
        seq![
            ("large_threshold"@, JV::Num(250)),
            ("capabilities"@, JV::Num(1_734_653)),
            (
                "client_state"@,
                JV::Object(
                    seq![
                        ("guild_versions"@, JV::Object(Seq::empty())),
                        ("api_code_version"@, JV::Num(0)),
                    ],
                ),
            ),
        ]
    }
}

/// The data of an Identify payload, given its `properties` object: the
/// presence rides along for the time before Ready.
pub open spec fn identify_d_spec(params: SessionParams, props: JV) -> JV {
    JV::Object(
        seq![
            ("token"@, JV::Str(params.token@)),
            ("properties"@, props),
            ("compress"@, JV::Bool(false)),
            ("presence"@, jv(params.presence)),
        ] + identify_kind_entries(params.kind),
    )
}

fn push_identify_kind(e: &mut Vec<(String, Json)>, kind: AccountKind)
    ensures
        ev(final(e)@) == ev(old(e)@) + identify_kind_entries(kind),
{
    if kind == AccountKind::Bot {
        push_entry(e, "large_threshold", Json::Int(50));
        push_entry(e, "intents", Json::Int(0));
    } else {
        push_entry(e, "large_threshold", Json::Int(250));
        push_entry(e, "capabilities", Json::Int(1_734_653));
        let mut cs: Vec<(String, Json)> = Vec::new();
        let gv: Vec<(String, Json)> = Vec::new();
        assert(ev(gv@) =~= Seq::<(Seq<char>, JV)>::empty());
        push_entry(&mut cs, "guild_versions", Json::Object(gv));
        push_entry(&mut cs, "api_code_version", Json::Int(0));
        assert(ev(cs@) =~= seq![
            ("guild_versions"@, JV::Object(Seq::empty())),
            ("api_code_version"@, JV::Num(0)),
        ]);
        push_entry(e, "client_state", Json::Object(cs));
    }
    assert(ev(e@) =~= ev(old(e)@) + identify_kind_entries(kind));
}

/// The data of an Identify payload around a given `properties` object.
pub fn identify_d_with(params: &SessionParams, props: Json) -> (r: Json)
    ensures
        jv(r) == identify_d_spec(*params, jv(props)),
{
    let ghost pv = jv(props);
    let mut e: Vec<(String, Json)> = Vec::new();
    push_entry(&mut e, "token", Json::Str(params.token.clone()));
    push_entry(&mut e, "properties", props);
    push_entry(&mut e, "compress", Json::Bool(false));
    push_entry(&mut e, "presence", clone_json(&params.presence));
    assert(ev(e@) =~= seq![
        ("token"@, JV::Str(params.token@)),
        ("properties"@, pv),
        ("compress"@, JV::Bool(false)),
        ("presence"@, jv(params.presence)),
    ]);
    push_identify_kind(&mut e, params.kind);
    assert(ev(e@) =~= match identify_d_spec(*params, pv) {
        JV::Object(x) => x,
        _ => Seq::empty(),
    });
    Json::Object(e)
}

/// The data of an Identify payload, with a fresh client launch id.
pub fn identify_d(params: &SessionParams) -> (r: Json)
    ensures
        exists|b: Seq<u8>|
            b.len() == 16 && jv(r) == identify_d_spec(
                *params,
                identify_properties_spec(params.properties, params.kind, uuid_text(uuid_bytes(b))),
            ),
{
    let props = identify_properties(&params.properties, params.kind);
    identify_d_with(params, props)
}

/// The first payload after Hello: a Resume when the session can be resumed,
/// else an Identify; its opcode and data.
pub fn handshake(state: &SessionState, params: &SessionParams) -> (r: (u8, Json))
    ensures
        state.resumable() ==> r.0 == OP_RESUME && jv(r.1) == resume_d_spec(
            params.token@,
            state.session_id->0@,
            state.seq->0 as int,
        ),
        !state.resumable() ==> r.0 == OP_IDENTIFY && exists|b: Seq<u8>|
            b.len() == 16 && jv(r.1) == identify_d_spec(
                *params,
                identify_properties_spec(params.properties, params.kind, uuid_text(uuid_bytes(b))),
            ),
{
    match (&state.session_id, state.seq) {
        (Some(session_id), Some(seq)) => (OP_RESUME, resume_d(params.token.as_str(), session_id.as_str(), seq)),
        _ => (OP_IDENTIFY, identify_d(params)),
    }
}

/// The presence sent before a graceful disconnect: invisible, no activity.
pub fn offline_presence(kind: AccountKind) -> (r: Json)
    ensures
        jv(r) == presence_spec(
            Some(Status::Invisible),
            None,
            Seq::<ActivityConfig>::empty(),
            false,
            None,
            kind,
        ),
{
    let none: Vec<ActivityConfig> = Vec::new();
    let r = build_presence_data(Some(Status::Invisible), None, none.as_slice(), false, None, kind);
    assert(none@ =~= Seq::<ActivityConfig>::empty());
    r
}

/// After clearing, a session cannot be resumed, and resuming after an error
/// needs a resumable session.
pub proof fn lemma_resume_after_error_needs_session(state: SessionState)
    ensures
        (state.session_healthy && state.resumable()) ==> state.resumable(),
        !(SessionState { seq: None, session_id: None, resume_url: None, session_healthy: false }).resumable(),
{
}

/// A close with code 4004 (authentication failed) or 4010 to 4014 (shard,
/// intent or API errors) stops the session with that code and reason; every
/// other code reconnects, resuming unless the code is 4007; a close without
/// a code reconnects and resumes.
pub proof fn lemma_close_codes(code: Option<u16>, reason: String, r: SessionEnd)
    requires
        closes_as(code, reason, r),
    ensures
        code matches Some(c) ==> ((r is Fatal) <==> (c == 4004 || (4010 <= c && c <= 4014))),
        code matches Some(c) ==> ((c == 4004 || (4010 <= c && c <= 4014)) ==> r == (SessionEnd::Fatal {
            code: c,
            reason,
        })),
        code matches Some(c) ==> (!(c == 4004 || (4010 <= c && c <= 4014)) ==> r == (SessionEnd::Reconnect {
            resume: c != 4007,
            extra_delay_ms: None,
            cause: "close",
        })),
        code is None ==> r == (SessionEnd::Reconnect { resume: true, extra_delay_ms: None, cause: "close" }),
{
}

} // verus!
