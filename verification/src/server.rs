//! The server's front door: which requests become a WebSocket, and how
//! every other request is answered.
//!
//! A request that fails any check of the upgrade is answered exactly like a
//! request for a page that does not exist, so that nobody can tell from
//! outside that a WebSocket endpoint is there.

use sha1::Digest;
use vstd::prelude::*;
use vstd::slice::{slice_subrange, slice_to_vec};
use vstd::string::*;
use crate::text::{eq_bytes, eq_ignore_ascii_case, same_ignoring_case};

verus! {

/// The SHA-1 digest of `data`: twenty bytes.
pub uninterp spec fn sha1_digest(data: Seq<u8>) -> Seq<u8>;

/// The base64 text of `data`, in the standard alphabet and padded, as
/// ASCII bytes.
pub uninterp spec fn base64_standard(data: Seq<u8>) -> Seq<u8>;

/// Hashes `data` with SHA-1.
///
/// Trusted: calls `sha1::Sha1::digest`, which feeds all of `data` to a new
/// hasher and returns what the hasher ends with.
#[verifier::external_body]
fn sha1(data: &[u8]) -> (digest: Vec<u8>)
    ensures
        digest@ == sha1_digest(data@),
{
    sha1::Sha1::digest(data).to_vec()
}

/// Encodes `data` as base64.
///
/// Trusted: calls `base64::encode`, which encodes with the standard
/// engine: standard alphabet, with padding.
#[verifier::external_body]
fn base64_encode(data: &[u8]) -> (text: Vec<u8>)
    ensures
        text@ == base64_standard(data@),
{
    base64::encode(data).into_bytes()
}

/// The text that every WebSocket server appends to the client's key.
pub open spec fn websocket_guid() -> Seq<u8> {
    "258EAFA5-E914-47DA-95CA-C5AB0DC85B11".spec_bytes()
}

/// The value of `sec-websocket-accept` that answers the key `key`.
pub open spec fn accept_for(key: Seq<u8>) -> Seq<u8> {
    base64_standard(sha1_digest(key + websocket_guid()))
}

/// Computes the value of `sec-websocket-accept` for a client's
/// `sec-websocket-key`: the base64 text of the SHA-1 digest of the key
/// followed by the WebSocket GUID.
pub fn make_sec_websocket_accept(key: &[u8]) -> (accept: Vec<u8>)
    ensures
        accept@ == accept_for(key@),
{
    let mut input = slice_to_vec(key);
    input.extend_from_slice("258EAFA5-E914-47DA-95CA-C5AB0DC85B11".as_bytes());
    assert(input@ =~= key@ + websocket_guid());
    let digest = sha1(input.as_slice());
    base64_encode(digest.as_slice())
}

/// What the server looks at in a request that asks for an upgrade.
#[derive(Clone, Debug, PartialEq, Eq)]
pub struct UpgradeRequest {
    /// Whether the method is `GET`.
    pub is_get: bool,
    pub connection: Option<Vec<u8>>,
    pub upgrade: Option<Vec<u8>>,
    pub sec_websocket_key: Option<Vec<u8>>,
    pub sec_websocket_protocol: Option<Vec<u8>>,
    pub sec_websocket_version: Option<Vec<u8>>,
    pub x_penguin_psk: Option<Vec<u8>>,
    /// Whether the connection can be taken over once the response is out.
    pub can_upgrade: bool,
}

/// Where requests that are not ours are sent on to.
#[derive(Clone, Debug, PartialEq, Eq)]
pub struct BackendUrl {
    pub scheme: Vec<u8>,
    pub authority: Vec<u8>,
    pub path: Vec<u8>,
}

/// What the server needs to know to answer.
#[derive(Clone, Debug, PartialEq, Eq)]
pub struct ServerState {
    /// Where requests that are not ours are sent on to, if anywhere.
    pub backend: Option<BackendUrl>,
    /// The pre-shared key that a client has to present, if any.
    pub ws_psk: Option<Vec<u8>>,
    /// The body of the "not found" answer.
    pub not_found_resp: Vec<u8>,
    /// The protocol version that a client has to ask for.
    pub protocol: Vec<u8>,
}

/// Why an upgrade was refused. The client is not told.
#[derive(Clone, Copy, Debug, PartialEq, Eq, Structural)]
pub enum Rejection {
    /// The method is not `GET`.
    Method,
    /// The pre-shared key is missing or wrong.
    Psk,
    /// There is no `sec-websocket-key`.
    Key,
    /// `connection`, `upgrade`, `sec-websocket-version` or
    /// `sec-websocket-protocol` is missing or not what it has to be.
    Headers,
    /// The connection cannot be taken over.
    Upgrade,
}

/// Whether a header is there and, but for case, is `wanted`.
pub open spec fn header_matches(given: Option<Vec<u8>>, wanted: Seq<u8>) -> bool {
    given matches Some(v) && same_ignoring_case(v@, wanted)
}

/// Whether a header is there and is `wanted`, byte for byte.
pub open spec fn header_is(given: Option<Vec<u8>>, wanted: Seq<u8>) -> bool {
    given matches Some(v) && v@ == wanted
}

/// The first check that a request for an upgrade fails, if it fails one.
pub open spec fn rejection(parts: UpgradeRequest, state: ServerState) -> Option<Rejection> {
    if !parts.is_get {
        Some(Rejection::Method)
    } else if state.ws_psk matches Some(psk) && !header_is(parts.x_penguin_psk, psk@) {
        Some(Rejection::Psk)
    } else if parts.sec_websocket_key is None {
        Some(Rejection::Key)
    } else if !header_matches(parts.connection, "upgrade".spec_bytes()) || !header_matches(
        parts.upgrade,
        "websocket".spec_bytes(),
    ) || !header_matches(parts.sec_websocket_version, "13".spec_bytes()) || !header_is(
        parts.sec_websocket_protocol,
        state.protocol@,
    ) {
        Some(Rejection::Headers)
    } else if !parts.can_upgrade {
        Some(Rejection::Upgrade)
    } else {
        None
    }
}

/// Whether a header is there and, but for case, is `wanted`.
fn check_header(given: &Option<Vec<u8>>, wanted: &[u8]) -> (ok: bool)
    ensures
        ok == header_matches(*given, wanted@),
{
    match given {
        Some(v) => eq_ignore_ascii_case(v.as_slice(), wanted),
        None => false,
    }
}

/// Whether a header is there and is `wanted`, byte for byte.
fn check_header_exact(given: &Option<Vec<u8>>, wanted: &[u8]) -> (ok: bool)
    ensures
        ok == header_is(*given, wanted@),
{
    match given {
        Some(v) => eq_bytes(v.as_slice(), wanted),
        None => false,
    }
}

/// The name of a header that the server sets.
#[derive(Clone, Copy, Debug, PartialEq, Eq, Structural)]
pub enum HeaderName {
    Connection,
    Upgrade,
    SecWebSocketProtocol,
    SecWebSocketAccept,
}

/// A response, as far as the server decides it.
#[derive(Clone, Debug, PartialEq, Eq)]
pub struct Response {
    pub status: u16,
    pub headers: Vec<(HeaderName, Vec<u8>)>,
    pub body: Vec<u8>,
}

/// A response as a mathematical value.
pub struct ResponseSpec {
    pub status: u16,
    pub headers: Seq<(HeaderName, Seq<u8>)>,
    pub body: Seq<u8>,
}

impl View for Response {
    type V = ResponseSpec;

    open spec fn view(&self) -> ResponseSpec {
        ResponseSpec {
            status: self.status,
            headers: self.headers@.map_values(|h: (HeaderName, Vec<u8>)| (h.0, h.1@)),
            body: self.body@,
        }
    }
}

/// The answer to whatever is not there: status 404 and the configured
/// body.
pub open spec fn not_found(state: ServerState) -> ResponseSpec {
    ResponseSpec { status: 404, headers: Seq::empty(), body: state.not_found_resp@ }
}

/// The answer that switches to the WebSocket protocol.
pub open spec fn switching_protocols(protocol: Seq<u8>, accept: Seq<u8>) -> ResponseSpec {
    ResponseSpec {
        status: 101,
        headers: seq![
            (HeaderName::Connection, "upgrade".spec_bytes()),
            (HeaderName::Upgrade, "websocket".spec_bytes()),
            (HeaderName::SecWebSocketProtocol, protocol),
            (HeaderName::SecWebSocketAccept, accept),
        ],
        body: Seq::empty(),
    }
}

/// Answers a request for something that is not there.
pub fn not_found_handler(state: &ServerState) -> (response: Response)
    ensures
        response@ == not_found(*state),
{
    let response = Response {
        status: 404,
        headers: Vec::new(),
        body: slice_to_vec(state.not_found_resp.as_slice()),
    };
    assert(response@.headers =~= Seq::empty());
    response
}

/// An upgrade that passed every check and waits to be carried out.
#[derive(Clone, Debug, PartialEq, Eq)]
pub struct StealthWebSocketUpgrade {
    sec_websocket_accept: Vec<u8>,
    protocol: Vec<u8>,
}

impl StealthWebSocketUpgrade {
    /// The value of `sec-websocket-accept` that the response will carry.
    pub closed spec fn accept(&self) -> Seq<u8> {
        self.sec_websocket_accept@
    }

    /// The protocol version that the response will confirm.
    pub closed spec fn protocol(&self) -> Seq<u8> {
        self.protocol@
    }

    /// Checks a request for an upgrade.
    ///
    /// The request has to be a `GET`; present the pre-shared key, byte for
    /// byte, where one is configured; carry a `sec-websocket-key`; say
    /// `connection: upgrade`, `upgrade: websocket` and
    /// `sec-websocket-version: 13` in any case of letters; ask for exactly
    /// our protocol version; and come over a connection that can be taken
    /// over. The first check that fails is the reason of the rejection.
    pub fn from_request_parts(parts: &UpgradeRequest, state: &ServerState) -> (r: Result<
        StealthWebSocketUpgrade,
        Rejection,
    >)
        ensures
            match rejection(*parts, *state) {
                Some(reason) => r == Err::<StealthWebSocketUpgrade, Rejection>(reason),
                None => {
                    &&& r is Ok
                    &&& r->Ok_0.accept() == accept_for(parts.sec_websocket_key->Some_0@)
                    &&& r->Ok_0.protocol() == state.protocol@
                },
            },
    {
        if !parts.is_get {
            return Err(Rejection::Method);
        }
        match &state.ws_psk {
            Some(psk) => {
                if !check_header_exact(&parts.x_penguin_psk, psk.as_slice()) {
                    return Err(Rejection::Psk);
                }
            },
            None => {},
        }
        let key = match &parts.sec_websocket_key {
            Some(key) => key,
            None => {
                return Err(Rejection::Key);
            },
        };
        if !check_header(&parts.connection, "upgrade".as_bytes()) || !check_header(
            &parts.upgrade,
            "websocket".as_bytes(),
        ) || !check_header(&parts.sec_websocket_version, "13".as_bytes()) || !check_header_exact(
            &parts.sec_websocket_protocol,
            state.protocol.as_slice(),
        ) {
            return Err(Rejection::Headers);
        }
        if !parts.can_upgrade {
            return Err(Rejection::Upgrade);
        }
        Ok(
            StealthWebSocketUpgrade {
                sec_websocket_accept: make_sec_websocket_accept(key.as_slice()),
                protocol: slice_to_vec(state.protocol.as_slice()),
            },
        )
    }

    /// The response that carries the upgrade out: status 101 with
    /// `connection`, `upgrade`, our protocol version and the accept value.
    /// The caller takes the connection over once it is sent.
    pub fn on_upgrade(self) -> (response: Response)
        ensures
            response@ == switching_protocols(self.protocol(), self.accept()),
    {
        let mut headers: Vec<(HeaderName, Vec<u8>)> = Vec::new();
        headers.push((HeaderName::Connection, slice_to_vec("upgrade".as_bytes())));
        headers.push((HeaderName::Upgrade, slice_to_vec("websocket".as_bytes())));
        headers.push((HeaderName::SecWebSocketProtocol, self.protocol));
        headers.push((HeaderName::SecWebSocketAccept, self.sec_websocket_accept));
        let response = Response { status: 101, headers, body: Vec::new() };
        assert(response@.headers =~= switching_protocols(self.protocol(), self.accept()).headers);
        response
    }
}

/// Answers a request to the WebSocket path: the upgrade where the request
/// passes every check, and "not found" where it does not.
pub fn ws_handler(parts: &UpgradeRequest, state: &ServerState) -> (response: Response)
    ensures
        response@ == if rejection(*parts, *state) is Some {
            not_found(*state)
        } else {
            switching_protocols(state.protocol@, accept_for(parts.sec_websocket_key->Some_0@))
        },
{
    match StealthWebSocketUpgrade::from_request_parts(parts, state) {
        Ok(upgrade) => upgrade.on_upgrade(),
        Err(_) => not_found_handler(state),
    }
}

/// What is done with a request that no route takes.
#[derive(Clone, Debug, PartialEq, Eq)]
pub enum Fallback {
    /// It is sent on to the backend, with this path and query.
    Proxy { scheme: Vec<u8>, authority: Vec<u8>, path_and_query: Vec<u8> },
    /// It is answered as not found.
    NotFound(Response),
}

/// Decides what is done with a request that no route takes. With a
/// backend it is sent on, to the backend's path followed by the request's
/// path and query (by its path alone where it has no query); without one
/// it is answered as not found.
pub fn backend_or_404_handler(
    state: &ServerState,
    path: &[u8],
    path_and_query: Option<&[u8]>,
) -> (fallback: Fallback)
    ensures
        match state.backend {
            Some(backend) => fallback matches Fallback::Proxy {
                scheme,
                authority,
                path_and_query: pq,
            } && scheme@ == backend.scheme@ && authority@ == backend.authority@ && pq@
                == backend.path@ + (match path_and_query {
                Some(q) => q@,
                None => path@,
            }),
            None => fallback matches Fallback::NotFound(response) && response@ == not_found(
                *state,
            ),
        },
{
    match &state.backend {
        Some(backend) => {
            let mut target = slice_to_vec(backend.path.as_slice());
            match path_and_query {
                Some(q) => target.extend_from_slice(q),
                None => target.extend_from_slice(path),
            }
            Fallback::Proxy {
                scheme: slice_to_vec(backend.scheme.as_slice()),
                authority: slice_to_vec(backend.authority.as_slice()),
                path_and_query: target,
            }
        },
        None => Fallback::NotFound(not_found_handler(state)),
    }
}

/// The host to listen on, as the address parser wants it: an IPv6
/// address without the brackets that a URL puts around it.
pub open spec fn bare_host(host: Seq<u8>) -> Seq<u8> {
    if host.len() >= 2 && host[0] == 91 && host[host.len() - 1] == 93 {
        host.subrange(1, host.len() - 1)
    } else {
        host
    }
}

/// Takes the brackets off a host that is written as `[address]`.
pub fn listen_host(host: &[u8]) -> (bare: &[u8])
    ensures
        bare@ == bare_host(host@),
{
    if host.len() >= 2 && host[0] == 91 && host[host.len() - 1] == 93 {
        slice_subrange(host, 1, host.len() - 1)
    } else {
        host
    }
}

/// What a path leads to.
#[derive(Clone, Copy, Debug, PartialEq, Eq, Structural)]
pub enum Route {
    /// The WebSocket endpoint.
    WebSocket,
    /// The version of the program.
    Version,
    /// The health check.
    Health,
    /// Whatever a request that no route takes gets.
    Fallback,
}

/// Where the server sends a `GET` for `path`. The version and the health
/// check exist only while the server does not hide what it is.
pub fn route(path: &[u8], obfs: bool) -> (r: Route)
    ensures
        r == if path@ == "/ws".spec_bytes() {
            Route::WebSocket
        } else if !obfs && path@ == "/version".spec_bytes() {
            Route::Version
        } else if !obfs && path@ == "/health".spec_bytes() {
            Route::Health
        } else {
            Route::Fallback
        },
{
    if eq_bytes(path, "/ws".as_bytes()) {
        Route::WebSocket
    } else if !obfs && eq_bytes(path, "/version".as_bytes()) {
        Route::Version
    } else if !obfs && eq_bytes(path, "/health".as_bytes()) {
        Route::Health
    } else {
        Route::Fallback
    }
}

/// What the server does once it starts.
#[derive(Clone, Debug, PartialEq, Eq)]
pub struct ServerPlan {
    /// The host to listen on, without brackets.
    pub host: Vec<u8>,
    /// Whether to listen over TLS, with a task that reloads the
    /// certificate on request.
    pub tls: bool,
    /// Whether the version and the health check are served.
    pub info_routes: bool,
}

/// Plans the start of the server: it listens on the bare host, over TLS
/// exactly when a key is configured, and serves the version and the health
/// check unless it hides what it is.
pub fn server_main(host: &[u8], has_tls_key: bool, obfs: bool) -> (plan: ServerPlan)
    ensures
        plan.host@ == bare_host(host@),
        plan.tls == has_tls_key,
        plan.info_routes == !obfs,
{
    ServerPlan { host: slice_to_vec(listen_host(host)), tls: has_tls_key, info_routes: !obfs }
}

} // verus!
