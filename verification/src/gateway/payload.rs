//! Gateway opcodes, outbound payloads, and what the session reads from
//! inbound Hello, Ready and Invalid Session payloads.

use crate::gateway::reconnect::GATEWAY_HOST;
use crate::json::Json;
use crate::text::{is_empty_str, own, str_eq};
use vstd::prelude::*;

verus! {

pub const OP_DISPATCH: u8 = 0;
pub const OP_HEARTBEAT: u8 = 1;
pub const OP_IDENTIFY: u8 = 2;
pub const OP_PRESENCE_UPDATE: u8 = 3;
pub const OP_RESUME: u8 = 6;
pub const OP_RECONNECT: u8 = 7;
pub const OP_INVALID_SESSION: u8 = 9;
pub const OP_HELLO: u8 = 10;
pub const OP_HEARTBEAT_ACK: u8 = 11;

/// An outbound payload: opcode and data.
pub struct GatewayPayload {
    pub op: u8,
    pub d: Json,
}

impl GatewayPayload {
    pub fn new(op: u8, d: Json) -> (r: GatewayPayload)
        ensures
            r.op == op,
            r.d == d,
    {
        GatewayPayload { op, d }
    }
}

/// The data of a Hello payload.
#[derive(Debug, Clone, Copy, PartialEq, Eq)]
pub struct HelloData {
    pub heartbeat_interval: u64,
}

/// What the session keeps from a Ready payload.
#[derive(Debug, Clone)]
pub struct ReadyInfo {
    pub username: String,
    pub discriminator: Option<String>,
    pub session_id: String,
    pub resume_gateway_url: String,
}

impl ReadyInfo {
    /// `username#discriminator`, or the username alone when the
    /// discriminator is missing, empty or `0`.
    pub open spec fn display_name_spec(self) -> Seq<char> {
        match self.discriminator {
            Some(d) => if d@ != "0"@ && d@.len() > 0 {
                self.username@ + "#"@ + d@
            } else {
                self.username@
            },
            None => self.username@,
        }
    }

    pub fn display_name(&self) -> (s: String)
        ensures
            s@ == self.display_name_spec(),
    {
        match &self.discriminator {
            Some(d) => {
                if !str_eq(d.as_str(), "0") && !is_empty_str(d.as_str()) {
                    let s = self.username.clone().concat("#");
                    s.concat(d.as_str())
                } else {
                    self.username.clone()
                }
            },
            None => self.username.clone(),
        }
    }

    /// The Ready fields the session keeps; a missing or empty resume URL
    /// falls back to the gateway host.
    pub fn from_ready_fields(
        session_id: String,
        resume_gateway_url: Option<String>,
        username: String,
        discriminator: Option<String>,
    ) -> (r: ReadyInfo)
        ensures
            r.session_id == session_id,
            r.username == username,
            r.discriminator == discriminator,
            r.resume_gateway_url@ == match resume_gateway_url {
                Some(u) => if u@.len() > 0 {
                    u@
                } else {
                    GATEWAY_HOST@
                },
                None => GATEWAY_HOST@,
            },
    {
        let url = match resume_gateway_url {
            Some(u) => {
                if is_empty_str(u.as_str()) {
                    own(GATEWAY_HOST)
                } else {
                    u
                }
            },
            None => own(GATEWAY_HOST),
        };
        ReadyInfo { username, discriminator, session_id, resume_gateway_url: url }
    }
}

/// JSON whitespace as serde_json skips it.
pub open spec fn is_json_ws(c: char) -> bool {
    c == ' ' || c == '\n' || c == '\t' || c == '\r'
}

/// The text with no JSON whitespace at either end removed, i.e. the core
/// between the first and last non-whitespace characters.
pub open spec fn json_core(s: Seq<char>, a: int, b: int) -> bool {
    &&& 0 <= a <= b <= s.len()
    &&& forall|i: int| 0 <= i < a ==> is_json_ws(#[trigger] s[i])
    &&& forall|i: int| b <= i < s.len() ==> is_json_ws(#[trigger] s[i])
}

/// What `serde_json::from_str::<bool>` returns: `true` or `false` with only
/// JSON whitespace around it.
pub open spec fn json_bool_spec(s: Seq<char>) -> Option<bool> {
    if exists|a: int, b: int| json_core(s, a, b) && s.subrange(a, b) == "true"@ {
        Some(true)
    } else if exists|a: int, b: int| json_core(s, a, b) && s.subrange(a, b) == "false"@ {
        Some(false)
    } else {
        None
    }
}

/// `serde_json::from_str::<bool>`: the boolean a JSON text holds. Its
/// parser skips ' ', '\n', '\t' and '\r' before the literal and requires
/// nothing but those after it.
#[verifier::external_body]
fn json_bool(text: &str) -> (r: Option<bool>)
    ensures
        r == json_bool_spec(text@),
{
    serde_json::from_str::<bool>(text).ok()
}

/// Whether an Invalid Session payload allows resuming: its data is `true`;
/// anything else, or no data, does not.
pub fn invalid_session_resumable(d: Option<&str>) -> (r: bool)
    ensures
        r == match d {
            Some(t) => json_bool_spec(t@) == Some(true),
            None => false,
        },
{
    match d {
        Some(t) => match json_bool(t) {
            Some(b) => b,
            None => false,
        },
        None => false,
    }
}

} // verus!
