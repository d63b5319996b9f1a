//! The agent's connections to the backend: the frames it sends on its own,
//! and how it reacts to what arrives.

use vstd::prelude::*;
use crate::json::{JsonValue, JsonView, field, fields_view, jstr, object};
use crate::keys::{KeyError, KeyErrorKind, sign_b64, sign_b64_spec};
use crate::text::{owned, str_eq, trim_spec, trim_str};

verus! {

/// Seconds between two connection attempts.
pub const RECONNECT_DELAY_SECS: u64 = 5;

/// Seconds between two telemetry frames.
pub const TELEMETRY_INTERVAL_SECS: u64 = 15;

/// The address of a reverse connection: the configured WebSocket URL, which
/// must not be empty.
pub open spec fn reverse_target_spec(websocket_url: Seq<char>) -> Result<Seq<char>, Seq<char>> {
    if websocket_url.len() == 0 {
        Err("backend.websocket_url is empty"@)
    } else {
        Ok(websocket_url)
    }
}

pub fn reverse_target(websocket_url: &str) -> (r: Result<String, String>)
    ensures
        match r {
            Ok(u) => reverse_target_spec(websocket_url@) == Ok::<Seq<char>, Seq<char>>(u@),
            Err(e) => reverse_target_spec(websocket_url@) == Err::<Seq<char>, Seq<char>>(e@),
        },
{
    if websocket_url.is_empty() {
        Err(owned("backend.websocket_url is empty"))
    } else {
        Ok(owned(websocket_url))
    }
}

/// Whether a node in this mode runs the agent as a daemon: only a reverse
/// node connects out; the others are reached over SSH.
pub fn runs_daemon(mode: &str) -> (r: bool)
    ensures
        r == (mode@ == "reverse"@),
{
    str_eq(mode, "reverse")
}

/// A frame the agent sends on its own: `{type, payload}`.
pub open spec fn frame_spec(kind: Seq<char>, payload: JsonView) -> JsonView {
    JsonView::Object(seq![("type"@, JsonView::Str(kind)), ("payload"@, payload)])
}

fn frame(kind: &str, payload: JsonValue) -> (r: JsonValue)
    ensures
        r@ == frame_spec(kind@, payload@),
{
    let ghost pv = payload@;
    let fs = vec![field("type", jstr(kind)), field("payload", payload)];
    let r = object(fs);
    assert(fields_view(fs@) =~= seq![("type"@, JsonView::Str(kind@)), ("payload"@, pv)]);
    r
}

/// The payload of the first frame: the node, this agent's version and the
/// node's signature of its own id.
pub open spec fn hello_payload_spec(node_id: Seq<char>, signature: Seq<char>) -> JsonView {
    JsonView::Object(
        seq![
            ("nodeId"@, JsonView::Str(node_id)),
            ("agentVersion"@, JsonView::Str(crate::system::AGENT_VERSION@)),
            ("signature"@, JsonView::Str(signature)),
        ],
    )
}

/// The first frame of a connection, signed with the key stored in
/// `key_text` (the contents of the node's key file); the key's error when
/// it cannot be used.
pub fn hello_frame(node_id: &str, key_text: &str) -> (r: Result<JsonValue, KeyError>)
    ensures
        match r {
            Ok(f) => match sign_b64_spec(key_text@, vstd::string::StringSliceAdditionalSpecFns::spec_bytes(node_id)) {
                Ok(sig) => f@ == frame_spec(crate::msg::HELLO@, hello_payload_spec(node_id@, sig)),
                Err(_) => false,
            },
            Err(e) => sign_b64_spec(key_text@, vstd::string::StringSliceAdditionalSpecFns::spec_bytes(node_id)) == Err::<Seq<char>, KeyErrorKind>(e.kind()),
        },
{
    let signature = match sign_b64(key_text, node_id.as_bytes()) {
        Ok(s) => s,
        Err(e) => {
            return Err(e);
        },
    };
    let ghost sig = signature@;
    let fs = vec![
        field("nodeId", jstr(node_id)),
        field("agentVersion", jstr(crate::system::AGENT_VERSION)),
        field("signature", crate::json::jstring(signature)),
    ];
    let payload = object(fs);
    assert(fields_view(fs@) =~= seq![
        ("nodeId"@, JsonView::Str(node_id@)),
        ("agentVersion"@, JsonView::Str(crate::system::AGENT_VERSION@)),
        ("signature"@, JsonView::Str(sig)),
    ]);
    Ok(frame(crate::msg::HELLO, payload))
}

/// The periodic frame that carries a telemetry snapshot.
pub fn telemetry_frame(snapshot: JsonValue) -> (r: JsonValue)
    ensures
        r@ == frame_spec(crate::msg::TELEMETRY_SNAPSHOT@, snapshot@),
{
    frame(crate::msg::TELEMETRY_SNAPSHOT, snapshot)
}

/// Whether the agent sends a telemetry frame at a tick.
pub fn sends_telemetry(traffic_enabled: bool) -> (r: bool)
    ensures
        r == traffic_enabled,
{
    traffic_enabled
}

/// What arrives on a connection.
#[derive(Debug, PartialEq)]
pub enum Incoming {
    /// A text message: a request.
    Text,
    /// A ping, with its data.
    Ping(Vec<u8>),
    /// The peer closed the connection, or the stream ended.
    Closed,
    /// Any other message.
    Other,
    /// The connection failed.
    Failed,
}

/// What the agent does about it.
#[derive(Debug, PartialEq)]
pub enum Reaction {
    /// Answer the request.
    Answer,
    /// Send a pong with this data.
    Pong(Vec<u8>),
    /// End the connection normally; the agent reconnects after a pause.
    Stop,
    /// Nothing.
    Ignore,
    /// End the connection with an error; the agent reconnects after a pause.
    Fail,
}

pub fn react(m: Incoming) -> (r: Reaction)
    ensures
        match m {
            Incoming::Text => r is Answer,
            Incoming::Ping(d) => r matches Reaction::Pong(e) && e@ == d@,
            Incoming::Closed => r is Stop,
            Incoming::Other => r is Ignore,
            Incoming::Failed => r is Fail,
        },
{
    match m {
        Incoming::Text => Reaction::Answer,
        Incoming::Ping(d) => Reaction::Pong(d),
        Incoming::Closed => Reaction::Stop,
        Incoming::Other => Reaction::Ignore,
        Incoming::Failed => Reaction::Fail,
    }
}

/// Whether a line read on standard input is skipped: it holds only
/// whitespace.
pub fn is_blank(line: &str) -> (r: bool)
    ensures
        r == (trim_spec(line@).len() == 0),
{
    let t = trim_str(line);
    t.as_str().is_empty()
}

} // verus!
