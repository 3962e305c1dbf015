//! The kinds of connections that are proxied.
use vstd::prelude::*;
use crate::text::str_eq;

verus! {

/// The direction in which a message travels.
#[derive(Debug, Clone, Copy, PartialEq, Eq, Structural)]
pub enum Direction {
    ClientToServer,
    ServerToClient,
}

impl Direction {
    /// A short name of the direction, as shown in logs.
    pub fn name(&self) -> (r: &'static str)
        ensures
            r@ == match self {
                Direction::ClientToServer => "c->s"@,
                Direction::ServerToClient => "s->c"@,
            },
    {
        match self {
            Direction::ClientToServer => "c->s",
            Direction::ServerToClient => "s->c",
        }
    }
}

/// Indicates what kind of server a websocket is connected to.
#[derive(Debug, Clone, Copy, PartialEq, Eq, Structural)]
pub enum WebSocketServer {
    /// The server where clients connect to to find a game. Called the master server by Photon.
    LobbyServer,
    /// The game server where actual matches happen.
    GameServer,
}

/// The kind of server that listens on `port`: 2053 for the lobby, 2083 for games.
pub open spec fn server_of_port(port: u16) -> Option<WebSocketServer> {
    if port == 2053 {
        Some(WebSocketServer::LobbyServer)
    } else if port == 2083 {
        Some(WebSocketServer::GameServer)
    } else {
        None
    }
}

impl WebSocketServer {
    /// The kind of server that listens on `port`: 2053 for the lobby, 2083 for games.
    pub fn from_port(port: u16) -> (r: Option<Self>)
        ensures
            r == server_of_port(port),
    {
        match port {
            2053 => Some(Self::LobbyServer),
            2083 => Some(Self::GameServer),
            _ => None,
        }
    }

    /// A short name of the kind of server, as shown in logs.
    pub fn name(&self) -> (r: &'static str)
        ensures
            r@ == match self {
                WebSocketServer::LobbyServer => "lobby"@,
                WebSocketServer::GameServer => "game"@,
            },
    {
        match self {
            WebSocketServer::LobbyServer => "lobby",
            WebSocketServer::GameServer => "game",
        }
    }
}

/// Whether `hyper::Uri::from_str` reads the text as a URI.
pub uninterp spec fn uri_parses(s: Seq<char>) -> bool;

/// The port that `Uri::port_u16` gives for the URI that a text holds.
pub uninterp spec fn uri_port(s: Seq<char>) -> Option<u16>;

/// The host that `Uri::host` gives for the URI that a text holds.
pub uninterp spec fn uri_host(s: Seq<char>) -> Option<Seq<char>>;

/// Reads `s` with `hyper::Uri::from_str` and takes its port with `Uri::port_u16`. The contract
/// claims that the result is `None` exactly when the text is no URI, and that otherwise the port
/// is determined by the text.
#[verifier::external_body]
fn parse_uri_port(s: &str) -> (r: Option<Option<u16>>)
    ensures
        r is None <==> !uri_parses(s@),
        r matches Some(p) ==> p == uri_port(s@),
{
    match s.parse::<hyper::Uri>() {
        Ok(u) => Some(u.port_u16()),
        Err(_) => None,
    }
}

/// Reads `s` with `hyper::Uri::from_str` and takes its host with `Uri::host`. The contract
/// claims that the result is `None` exactly when the text is no URI, and that otherwise the host
/// is determined by the text.
#[verifier::external_body]
fn parse_uri_host(s: &str) -> (r: Option<Option<String>>)
    ensures
        r is None <==> !uri_parses(s@),
        r matches Some(h) ==> match h {
            Some(x) => uri_host(s@) == Some(x@),
            None => uri_host(s@) is None,
        },
{
    match s.parse::<hyper::Uri>() {
        Ok(u) => Some(u.host().map(|h| h.to_string())),
        Err(_) => None,
    }
}

/// Why a proxied request could not be handled.
#[derive(Debug, Clone, Copy, PartialEq, Eq, Structural)]
pub enum ProxyError {
    /// The request has no query string, which names the target.
    NoQuery,
    /// The query string is no URI.
    InvalidUri,
}

/// The port of the server that a websocket handshake with query string `query` targets: the
/// port of the URI in the query, or 0 where the URI has none.
pub fn websocket_target_port(query: Option<&str>) -> (r: Result<u16, ProxyError>)
    ensures
        match query {
            None => r == Err::<u16, ProxyError>(ProxyError::NoQuery),
            Some(q) => if !uri_parses(q@) {
                r == Err::<u16, ProxyError>(ProxyError::InvalidUri)
            } else {
                r == Ok::<u16, ProxyError>(match uri_port(q@) {
                    Some(p) => p,
                    None => 0,
                })
            },
        },
{
    let q = match query {
        None => return Err(ProxyError::NoQuery),
        Some(q) => q,
    };
    match parse_uri_port(q) {
        None => Err(ProxyError::InvalidUri),
        Some(Some(p)) => Ok(p),
        Some(None) => Ok(0),
    }
}

/// The hosts to which Unity sends its analytics; requests to them are answered without being
/// forwarded.
pub open spec fn is_blocked_host(h: Seq<char>) -> bool {
    h == "pref-events.cloud.unity3d.com"@ || h == "cdp.cloud.unity3d.com"@
}

/// How a proxied web request is handled.
#[derive(Debug, Clone, Copy, PartialEq, Eq, Structural)]
pub enum RequestPlan {
    /// There is no target: the request is answered with a note.
    NoTarget,
    /// The target is Unity's analytics: the request is answered without being forwarded.
    Blocked,
    /// The request is forwarded; the body of the response is passed back only where
    /// `with_body` holds, else the response is passed back with an empty body.
    Forward { with_body: bool },
}

/// Whether a response to a request with method `method` carries its body back.
pub open spec fn passes_body(method: Seq<char>) -> bool {
    method == "GET"@ || method == "POST"@ || method == "PUT"@
}

/// Decides how a web request with query string `query` and method `method` is handled.
pub fn plan_web_request(query: Option<&str>, method: &str) -> (r: Result<RequestPlan, ProxyError>)
    ensures
        match query {
            None => r == Ok::<RequestPlan, ProxyError>(RequestPlan::NoTarget),
            Some(q) => if !uri_parses(q@) {
                r == Err::<RequestPlan, ProxyError>(ProxyError::InvalidUri)
            } else if uri_host(q@) matches Some(h) && is_blocked_host(h) {
                r == Ok::<RequestPlan, ProxyError>(RequestPlan::Blocked)
            } else {
                r == Ok::<RequestPlan, ProxyError>(RequestPlan::Forward { with_body: passes_body(method@) })
            },
        },
{
    let q = match query {
        None => return Ok(RequestPlan::NoTarget),
        Some(q) => q,
    };
    let host = match parse_uri_host(q) {
        None => return Err(ProxyError::InvalidUri),
        Some(h) => h,
    };
    if let Some(h) = host {
        if str_eq(h.as_str(), "pref-events.cloud.unity3d.com") || str_eq(h.as_str(), "cdp.cloud.unity3d.com") {
            return Ok(RequestPlan::Blocked);
        }
    }
    let with_body = str_eq(method, "GET") || str_eq(method, "POST") || str_eq(method, "PUT");
    Ok(RequestPlan::Forward { with_body })
}

} // verus!
