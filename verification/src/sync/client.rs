//! Connection parameters of the sync client and the WebSocket URL it
//! connects to : `{server_url}/ws/rooms/{room_id}`, optionally with a
//! `?token=...` query.

use vstd::prelude::*;
use url::Url;
use crate::ids::PeerId;
use crate::sync::error::SyncError;
use crate::sync::state::ConnectionState;
use crate::text::str_equals;

verus! {

#[verifier::external_type_specification]
#[verifier::external_body]
pub struct ExUrl(Url);

/// Parameters required to open a sync connection.
#[derive(Clone, Debug)]
pub struct ClientConfig {
    /// Base URL of the server, without the room path component.
    pub server_url: String,
    /// Identifier of the room to join.
    pub room_id: String,
    /// Stable identifier of the local peer.
    pub peer_id: PeerId,
    /// Display name used by other peers when rendering awareness.
    pub display_name: String,
    /// Optional JWT access token passed as `?token=...` on the WS URL.
    pub auth_token: Option<String>,
}

/// The text of a URL, as `Url::as_str` gives it (its serialization).
pub uninterp spec fn url_text(u: Url) -> Seq<char>;

/// Outcome of `Url::parse` on a text : the parsed URL's text and its
/// scheme, or the message of the parse error.
pub uninterp spec fn url_parse_result(s: Seq<char>) -> Result<(Seq<char>, Seq<char>), Seq<char>>;

/// Outcome of `Url::join` of `path` onto the URL whose text is `base` :
/// the joined URL's text, or the message of the parse error.
pub uninterp spec fn url_joined(base: Seq<char>, path: Seq<char>) -> Result<Seq<char>, Seq<char>>;

/// The text of the URL whose text is `url` once the query pair
/// `name=value` is appended (`form_urlencoded`-encoded).
pub uninterp spec fn url_with_pair(url: Seq<char>, name: Seq<char>, value: Seq<char>) -> Seq<char>;

/// Parse an absolute URL ; the scheme comes along as text.
///
/// Calls `Url::parse` and reads the scheme of the result with
/// `Url::scheme`. The WHATWG URL grammar takes pages, so the contract
/// names the outcome [`url_parse_result`] : a function of the text alone,
/// giving the parsed URL's text ([`url_text`]) and its scheme.
#[verifier::external_body]
fn parse_url(s: &str) -> (r: Result<(Url, String), String>)
    ensures
        match r {
            Ok(p) => url_parse_result(s@) == Ok::<(Seq<char>, Seq<char>), Seq<char>>(
                (url_text(p.0), p.1@),
            ),
            Err(m) => url_parse_result(s@) == Err::<(Seq<char>, Seq<char>), Seq<char>>(m@),
        },
{
    match Url::parse(s) {
        Ok(u) => {
            let scheme = u.scheme().to_string();
            Ok((u, scheme))
        },
        Err(e) => Err(e.to_string()),
    }
}

/// Resolve `path` against `base`.
///
/// Calls `Url::join`, which parses `path` with `base` as the base URL ; a
/// URL is determined by its text, so the contract names the outcome
/// [`url_joined`] of the base's text and the path.
#[verifier::external_body]
fn join_url(base: &Url, path: &str) -> (r: Result<Url, String>)
    ensures
        match r {
            Ok(u) => url_joined(url_text(*base), path@) == Ok::<Seq<char>, Seq<char>>(url_text(u)),
            Err(m) => url_joined(url_text(*base), path@) == Err::<Seq<char>, Seq<char>>(m@),
        },
{
    match base.join(path) {
        Ok(u) => Ok(u),
        Err(e) => Err(e.to_string()),
    }
}

/// Append the query pair `name=value` to `url`.
///
/// Calls `Url::query_pairs_mut().append_pair` ; the new text is named
/// [`url_with_pair`] of the old text, the name and the value.
#[verifier::external_body]
fn append_query_pair(url: &mut Url, name: &str, value: &str)
    ensures
        url_text(*final(url)) == url_with_pair(url_text(*old(url)), name@, value@),
{
    url.query_pairs_mut().append_pair(name, value);
}

/// The path of a room's WebSocket endpoint.
pub open spec fn room_path(room_id: Seq<char>) -> Seq<char> {
    "/ws/rooms/"@ + room_id
}

/// A room's path is `/ws/rooms/` followed by the room id exactly as
/// given, character for character : distinct room ids give distinct
/// paths.
pub proof fn lemma_room_path_keeps_id(a: Seq<char>, b: Seq<char>)
    ensures
        room_path(a).len() == a.len() + 10,
        room_path(a).take(10) == "/ws/rooms/"@,
        room_path(a).skip(10) == a,
        room_path(a) == room_path(b) ==> a == b,
{
    reveal_strlit("/ws/rooms/");
    assert(room_path(a).take(10) =~= "/ws/rooms/"@);
    assert(room_path(a).skip(10) =~= a);
    assert(room_path(b).skip(10) =~= b);
}

/// The text of the room URL built on the joined text `joined` : with the
/// `token` query pair when a non-empty token is given.
pub open spec fn with_token(joined: Seq<char>, auth_token: Option<&str>) -> Seq<char> {
    match auth_token {
        Some(t) => if t@.len() > 0 {
            url_with_pair(joined, "token"@, t@)
        } else {
            joined
        },
        None => joined,
    }
}

/// Build the `ws[s]://host/ws/rooms/{room_id}` URL of a room, with
/// `?token=...` appended when a non-empty token is given.
///
/// A server URL that does not parse, or whose scheme is not `ws` or
/// `wss`, is refused with a connection error naming the problem ; so is
/// a room path that does not join onto it.
pub fn build_ws_url(server_url: &str, room_id: &str, auth_token: Option<&str>) -> (r: Result<
    Url,
    SyncError,
>)
    ensures
        match url_parse_result(server_url@) {
            Err(m) => r matches Err(SyncError::Connection(msg)) && msg@ == "invalid server URL : "@
                + m,
            Ok(parsed) => if parsed.1 == "ws"@ || parsed.1 == "wss"@ {
                match url_joined(parsed.0, "/ws/rooms/"@ + room_id@) {
                    Ok(joined) => r matches Ok(u) && url_text(u) == with_token(joined, auth_token),
                    Err(m) => r matches Err(SyncError::Connection(msg)) && msg@ == "URL join : "@ + m,
                }
            } else {
                r matches Err(SyncError::Connection(msg)) && msg@ == "unsupported scheme `"@
                    + parsed.1 + "`, expected ws or wss"@
            },
        },
{
    let (base, scheme) = match parse_url(server_url) {
        Ok(p) => p,
        Err(m) => {
            return Err(SyncError::Connection("invalid server URL : ".to_owned().concat(m.as_str())));
        },
    };
    if !(str_equals(scheme.as_str(), "ws") || str_equals(scheme.as_str(), "wss")) {
        let msg = "unsupported scheme `".to_owned().concat(scheme.as_str()).concat(
            "`, expected ws or wss",
        );
        return Err(SyncError::Connection(msg));
    }
    let path = "/ws/rooms/".to_owned().concat(room_id);
    let mut url = match join_url(&base, path.as_str()) {
        Ok(u) => u,
        Err(m) => {
            return Err(SyncError::Connection("URL join : ".to_owned().concat(m.as_str())));
        },
    };
    match auth_token {
        Some(token) => {
            if !token.is_empty() {
                append_query_pair(&mut url, "token", token);
            }
        },
        None => {},
    }
    Ok(url)
}

/// What one poll of the server socket produced.
pub enum Incoming {
    /// No frame is ready yet.
    Pending,
    /// The stream has ended.
    Ended,
    /// The transport failed, with the message of the error.
    TransportError(String),
    /// A binary frame.
    Binary(Vec<u8>),
    /// A text frame of this many bytes.
    Text(usize),
    /// A close frame from the server.
    Close,
    /// A ping, pong or raw frame.
    Control,
}

/// What the client does with a polled frame.
pub enum IncomingAction {
    /// Decode these bytes as a server message and hand it out.
    Decode(Vec<u8>),
    /// Nothing to hand out right now.
    Nothing,
    /// Fail with this error.
    Fail(SyncError),
}

/// The connection state after a poll : the stream ending or a close
/// frame takes the client offline ; anything else leaves it as it was.
pub open spec fn state_after_incoming(state: ConnectionState, ev: Incoming) -> ConnectionState {
    match ev {
        Incoming::Ended => ConnectionState::Offline,
        Incoming::Close => ConnectionState::Offline,
        _ => state,
    }
}

/// One step of receiving : from the client's state and what the poll of
/// the socket produced, the next state and what to do. Binary frames are
/// decoded ; text and control frames, close frames and an empty poll
/// give nothing ; a stream that ended or a transport error fail with a
/// connection error.
pub fn on_incoming(state: ConnectionState, ev: Incoming) -> (r: (ConnectionState, IncomingAction))
    ensures
        r.0 == state_after_incoming(state, ev),
        match ev {
            Incoming::Binary(bytes) => r.1 matches IncomingAction::Decode(b) && b@ == bytes@,
            Incoming::Ended => r.1 matches IncomingAction::Fail(SyncError::Connection(m)) && m@
                == "stream closed by peer"@,
            Incoming::TransportError(e) => r.1 matches IncomingAction::Fail(
                SyncError::Connection(m),
            ) && m@ == "ws recv : "@ + e@,
            _ => r.1 is Nothing,
        },
{
    match ev {
        Incoming::Pending => (state, IncomingAction::Nothing),
        Incoming::Ended => (
            ConnectionState::Offline,
            IncomingAction::Fail(SyncError::Connection("stream closed by peer".to_owned())),
        ),
        Incoming::TransportError(e) => (
            state,
            IncomingAction::Fail(SyncError::Connection("ws recv : ".to_owned().concat(e.as_str()))),
        ),
        Incoming::Binary(bytes) => (state, IncomingAction::Decode(bytes)),
        Incoming::Text(_) => (state, IncomingAction::Nothing),
        Incoming::Close => (ConnectionState::Offline, IncomingAction::Nothing),
        Incoming::Control => (state, IncomingAction::Nothing),
    }
}

/// The error for a binary frame that does not decode as a server message.
pub fn decode_failure(detail: &str) -> (e: SyncError)
    ensures
        e matches SyncError::Protocol(m) && m@ == "server msg decode : "@ + detail@,
{
    SyncError::Protocol("server msg decode : ".to_owned().concat(detail))
}

} // verus!
