//! The client's decisions: how it asks for the WebSocket, which adapter
//! serves a remote, how a stream over an open channel is requested, and
//! which failures are worth another try.

use vstd::prelude::*;
use vstd::slice::slice_to_vec;
use vstd::string::*;
use crate::frame::{be16, be32};

verus! {

/// Why the client gave up.
#[derive(Clone, Copy, Debug, PartialEq, Eq, Structural)]
pub enum Error {
    /// The remote host is longer than 255 octets.
    RHostTooLong,
    /// The server did not complete the handshake.
    ServerHandshake,
    /// The WebSocket handshake failed.
    WebSocket,
    /// The WebSocket handshake was cancelled: it took too long, or the user
    /// interrupted it.
    HandshakeCancelled,
}

/// One header of a request.
#[derive(Clone, Debug, PartialEq, Eq)]
pub struct Header {
    pub name: Vec<u8>,
    pub value: Vec<u8>,
}

/// A header as a mathematical value.
pub struct HeaderSpec {
    pub name: Seq<u8>,
    pub value: Seq<u8>,
}

impl View for Header {
    type V = HeaderSpec;

    open spec fn view(&self) -> HeaderSpec {
        HeaderSpec { name: self.name@, value: self.value@ }
    }
}

/// The views of a list of headers.
pub open spec fn header_specs(headers: Seq<Header>) -> Seq<HeaderSpec> {
    headers.map_values(|h: Header| h@)
}

/// What the client was told about the connection to make.
#[derive(Clone, Debug, PartialEq, Eq)]
pub struct ClientArgs {
    /// The scheme of the server's URL.
    pub scheme: Vec<u8>,
    /// The protocol version to ask for.
    pub protocol: Vec<u8>,
    /// The pre-shared key to present, if any.
    pub ws_psk: Option<Vec<u8>>,
    /// The host name to send in place of the URL's, if any.
    pub hostname: Option<Vec<u8>>,
    /// Further headers to send.
    pub header: Vec<Header>,
}

/// How the client asks for the WebSocket.
#[derive(Clone, Debug, PartialEq, Eq)]
pub struct HandshakePlan {
    /// Whether the connection goes over TLS.
    pub tls: bool,
    /// The headers to set on the request, in this order. A later header
    /// takes the place of an earlier one of the same name.
    pub headers: Vec<Header>,
}

/// The headers that the client sets, in order: the protocol version, the
/// pre-shared key, the host name, then the user's own.
pub open spec fn handshake_headers(args: ClientArgs) -> Seq<HeaderSpec> {
    seq![HeaderSpec { name: "sec-websocket-protocol".spec_bytes(), value: args.protocol@ }] + (
    match args.ws_psk {
        Some(psk) => seq![HeaderSpec { name: "x-penguin-psk".spec_bytes(), value: psk@ }],
        None => Seq::empty(),
    }) + (match args.hostname {
        Some(name) => seq![HeaderSpec { name: "host".spec_bytes(), value: name@ }],
        None => Seq::empty(),
    }) + header_specs(args.header@)
}

/// Plans the WebSocket handshake: TLS exactly for the scheme `wss`, and
/// the headers of [`handshake_headers`]. Because the user's headers come
/// last, they win over everything the client sets itself.
pub fn handshake(args: &ClientArgs) -> (plan: HandshakePlan)
    ensures
        plan.tls == (args.scheme@ == "wss".spec_bytes()),
        header_specs(plan.headers@) == handshake_headers(*args),
{
    let tls = crate::text::eq_bytes(args.scheme.as_slice(), "wss".as_bytes());
    let mut headers: Vec<Header> = Vec::new();
    headers.push(
        Header {
            name: slice_to_vec("sec-websocket-protocol".as_bytes()),
            value: slice_to_vec(args.protocol.as_slice()),
        },
    );
    match &args.ws_psk {
        Some(psk) => {
            headers.push(
                Header {
                    name: slice_to_vec("x-penguin-psk".as_bytes()),
                    value: slice_to_vec(psk.as_slice()),
                },
            );
        },
        None => {},
    }
    match &args.hostname {
        Some(name) => {
            headers.push(
                Header {
                    name: slice_to_vec("host".as_bytes()),
                    value: slice_to_vec(name.as_slice()),
                },
            );
        },
        None => {},
    }
    let ghost fixed = header_specs(headers@);
    assert(fixed + header_specs(args.header@) =~= handshake_headers(*args));
    let mut i: usize = 0;
    while i < args.header.len()
        invariant
            i <= args.header@.len(),
            header_specs(headers@) == fixed + header_specs(args.header@).take(i as int),
        decreases args.header@.len() - i,
    {
        let h = &args.header[i];
        let ghost before = headers@;
        let copy = Header {
            name: slice_to_vec(h.name.as_slice()),
            value: slice_to_vec(h.value.as_slice()),
        };
        assert(copy@ == args.header@[i as int]@);
        headers.push(copy);
        assert(header_specs(headers@) =~= header_specs(before).push(copy@));
        assert(header_specs(args.header@).take(i + 1) =~= header_specs(args.header@).take(
            i as int,
        ).push(args.header@[i as int]@));
        i += 1;
    }
    assert(header_specs(args.header@).take(i as int) =~= header_specs(args.header@));
    HandshakePlan { tls, headers }
}

/// How the race around the WebSocket handshake ended.
#[derive(Clone, Copy, Debug, PartialEq, Eq, Structural)]
pub enum HandshakeEvent {
    /// The handshake succeeded.
    Connected,
    /// The handshake failed.
    Failed,
    /// The handshake timeout ran out first.
    TimedOut,
    /// The user interrupted first.
    Interrupted,
}

/// What the race around the WebSocket handshake comes to: a timeout and an
/// interrupt both cancel the handshake.
pub fn handshake_outcome(event: HandshakeEvent) -> (r: Result<(), Error>)
    ensures
        r == match event {
            HandshakeEvent::Connected => Ok::<(), Error>(()),
            HandshakeEvent::Failed => Err(Error::WebSocket),
            HandshakeEvent::TimedOut => Err(Error::HandshakeCancelled),
            HandshakeEvent::Interrupted => Err(Error::HandshakeCancelled),
        },
{
    match event {
        HandshakeEvent::Connected => Ok(()),
        HandshakeEvent::Failed => Err(Error::WebSocket),
        HandshakeEvent::TimedOut => Err(Error::HandshakeCancelled),
        HandshakeEvent::Interrupted => Err(Error::HandshakeCancelled),
    }
}

/// Where a remote takes its traffic from.
#[derive(Clone, Copy, Debug, PartialEq, Eq, Structural)]
pub enum LocalSpec {
    /// A local socket.
    Inet,
    /// Standard input and output.
    Stdio,
}

/// Where a remote sends its traffic to.
#[derive(Clone, Copy, Debug, PartialEq, Eq, Structural)]
pub enum RemoteSpec {
    /// A fixed host and port.
    Inet,
    /// Wherever the SOCKS client asks.
    Socks,
}

/// The protocol of a remote.
#[derive(Clone, Copy, Debug, PartialEq, Eq, Structural)]
pub enum Protocol {
    Tcp,
    Udp,
}

/// The adapter that serves a remote.
#[derive(Clone, Copy, Debug, PartialEq, Eq, Structural)]
pub enum Adapter {
    /// Listen for TCP connections; one stream each.
    TcpListener,
    /// Bind a UDP socket; one datagram frame per packet.
    UdpSocket,
    /// Pipe standard input and output through one stream.
    StdioTcp,
    /// Send each line of standard input as a datagram.
    StdioUdp,
    /// Listen for SOCKS clients.
    SocksListener,
    /// Serve one SOCKS client on standard input and output.
    SocksStdio,
}

/// Picks the adapter for a remote. A SOCKS remote is served the same
/// way whatever protocol is written behind it.
pub fn handle_remote(local: LocalSpec, remote: RemoteSpec, protocol: Protocol) -> (adapter:
    Adapter)
    ensures
        adapter == match (local, remote, protocol) {
            (LocalSpec::Inet, RemoteSpec::Inet, Protocol::Tcp) => Adapter::TcpListener,
            (LocalSpec::Inet, RemoteSpec::Inet, Protocol::Udp) => Adapter::UdpSocket,
            (LocalSpec::Stdio, RemoteSpec::Inet, Protocol::Tcp) => Adapter::StdioTcp,
            (LocalSpec::Stdio, RemoteSpec::Inet, Protocol::Udp) => Adapter::StdioUdp,
            (LocalSpec::Inet, RemoteSpec::Socks, _) => Adapter::SocksListener,
            (LocalSpec::Stdio, RemoteSpec::Socks, _) => Adapter::SocksStdio,
        },
{
    match remote {
        RemoteSpec::Socks => match local {
            LocalSpec::Inet => Adapter::SocksListener,
            LocalSpec::Stdio => Adapter::SocksStdio,
        },
        RemoteSpec::Inet => match local {
            LocalSpec::Inet => match protocol {
                Protocol::Tcp => Adapter::TcpListener,
                Protocol::Udp => Adapter::UdpSocket,
            },
            LocalSpec::Stdio => match protocol {
                Protocol::Tcp => Adapter::StdioTcp,
                Protocol::Udp => Adapter::StdioUdp,
            },
        },
    }
}

/// How an I/O operation failed.
#[derive(Clone, Copy, Debug, PartialEq, Eq, Structural)]
pub enum IoFailure {
    ConnectionReset,
    ConnectionAborted,
    BrokenPipe,
    TimedOut,
    Interrupted,
    /// Any other failure.
    Other,
}

/// Whether a failure only ends the connection it happened on: the peer
/// reset or aborted, the pipe broke, time ran out, or the call was
/// interrupted.
pub fn retryable_errors(failure: IoFailure) -> (retry: bool)
    ensures
        retry == !(failure is Other),
{
    match failure {
        IoFailure::Other => false,
        _ => true,
    }
}

/// What an adapter does after one of its connections failed.
#[derive(Clone, Copy, Debug, PartialEq, Eq, Structural)]
pub enum AfterFailure {
    /// Carry on with the next connection.
    Continue,
    /// Give up on the adapter.
    GiveUp,
}

/// What an adapter does after a connection failed with `failure`: carry on
/// after a failure that is worth another try, give up after any other.
pub fn after_failure(failure: IoFailure) -> (next: AfterFailure)
    ensures
        next == if failure is Other {
            AfterFailure::GiveUp
        } else {
            AfterFailure::Continue
        },
{
    if retryable_errors(failure) {
        AfterFailure::Continue
    } else {
        AfterFailure::GiveUp
    }
}

/// What happened in an adapter that listens for connections.
#[derive(Clone, Copy, Debug, PartialEq, Eq, Structural)]
pub enum ListenerEvent {
    /// The listener could not be bound.
    BindFailed,
    /// Accepting a connection failed.
    AcceptFailed,
    /// A connection was accepted.
    Accepted,
    /// No stream could be had for an accepted connection.
    RequestFailed,
    /// An accepted connection ended with a failure.
    ConnectionFailed,
}

/// What a listening adapter does next.
#[derive(Clone, Copy, Debug, PartialEq, Eq, Structural)]
pub enum ListenerNext {
    /// Ask for a stream for the connection, serve it on a task of its own,
    /// and go on accepting.
    Serve,
    /// Let the one connection go, and go on accepting.
    SkipConnection,
    /// Give up on the adapter: the failure is the client's.
    Fatal,
}

/// What a listening adapter does after `event`. A failure to bind or to
/// accept is fatal; whatever fails for one connection costs that
/// connection only.
pub fn listener_step(event: ListenerEvent) -> (next: ListenerNext)
    ensures
        next == match event {
            ListenerEvent::BindFailed => ListenerNext::Fatal,
            ListenerEvent::AcceptFailed => ListenerNext::Fatal,
            ListenerEvent::Accepted => ListenerNext::Serve,
            ListenerEvent::RequestFailed => ListenerNext::SkipConnection,
            ListenerEvent::ConnectionFailed => ListenerNext::SkipConnection,
        },
{
    match event {
        ListenerEvent::BindFailed => ListenerNext::Fatal,
        ListenerEvent::AcceptFailed => ListenerNext::Fatal,
        ListenerEvent::Accepted => ListenerNext::Serve,
        ListenerEvent::RequestFailed => ListenerNext::SkipConnection,
        ListenerEvent::ConnectionFailed => ListenerNext::SkipConnection,
    }
}

/// Command byte of a stream request over an open channel: TCP.
pub const CHANNEL_TCP: u8 = 0x01;

/// Command byte of a stream request over an open channel: UDP. Also the
/// byte with which the server accepts a request.
pub const CHANNEL_UDP: u8 = 0x03;

/// A stream request over an open channel: command, host behind its
/// length, big-endian port.
pub open spec fn channel_request(command: u8, rhost: Seq<u8>, rport: u16) -> Seq<u8> {
    seq![command, rhost.len() as u8] + rhost + be16(rport)
}

/// Lays out a stream request over an open channel. Fails exactly when the
/// host is longer than 255 octets.
fn channel_handshake(command: u8, rhost: &[u8], rport: u16) -> (r: Result<Vec<u8>, Error>)
    ensures
        rhost@.len() <= 255 ==> r is Ok && r->Ok_0@ == channel_request(command, rhost@, rport),
        rhost@.len() > 255 ==> r == Err::<Vec<u8>, Error>(Error::RHostTooLong),
{
    if rhost.len() > 255 {
        return Err(Error::RHostTooLong);
    }
    let mut out: Vec<u8> = Vec::new();
    out.push(command);
    out.push(rhost.len() as u8);
    out.extend_from_slice(rhost);
    out.push((rport / 0x100) as u8);
    out.push((rport % 0x100) as u8);
    assert(out@ =~= channel_request(command, rhost@, rport));
    Ok(out)
}

/// The request for a TCP stream to `rhost:rport` over an open channel.
pub fn channel_tcp_handshake(rhost: &[u8], rport: u16) -> (r: Result<Vec<u8>, Error>)
    ensures
        rhost@.len() <= 255 ==> r is Ok && r->Ok_0@ == channel_request(CHANNEL_TCP, rhost@, rport),
        rhost@.len() > 255 ==> r == Err::<Vec<u8>, Error>(Error::RHostTooLong),
{
    channel_handshake(CHANNEL_TCP, rhost, rport)
}

/// The request for a UDP relay to `rhost:rport` over an open channel.
pub fn channel_udp_handshake(rhost: &[u8], rport: u16) -> (r: Result<Vec<u8>, Error>)
    ensures
        rhost@.len() <= 255 ==> r is Ok && r->Ok_0@ == channel_request(CHANNEL_UDP, rhost@, rport),
        rhost@.len() > 255 ==> r == Err::<Vec<u8>, Error>(Error::RHostTooLong),
{
    channel_handshake(CHANNEL_UDP, rhost, rport)
}

/// Reads the server's answer to a stream request: `0x03` accepts, any
/// other byte is a failed handshake.
pub fn check_handshake_reply(reply: u8) -> (r: Result<(), Error>)
    ensures
        r == if reply == 0x03 {
            Ok::<(), Error>(())
        } else {
            Err(Error::ServerHandshake)
        },
{
    if reply == 0x03 {
        Ok(())
    } else {
        Err(Error::ServerHandshake)
    }
}

/// A datagram on a channel: its length as a big-endian 32-bit number, then
/// its bytes.
pub open spec fn length_prefixed(data: Seq<u8>) -> Seq<u8> {
    be32(data.len() as u32) + data
}

/// Frames a datagram for a channel. `None` exactly when the length does
/// not fit 32 bits.
pub fn frame_datagram(data: &[u8]) -> (framed: Option<Vec<u8>>)
    ensures
        data@.len() <= u32::MAX ==> framed is Some && framed->Some_0@ == length_prefixed(data@),
        data@.len() > u32::MAX ==> framed is None,
{
    if data.len() > 0xffff_ffff {
        return None;
    }
    let n: u32 = data.len() as u32;
    let mut out: Vec<u8> = Vec::new();
    out.push((n / 0x100_0000) as u8);
    out.push(((n / 0x1_0000) % 0x100) as u8);
    out.push(((n / 0x100) % 0x100) as u8);
    out.push((n % 0x100) as u8);
    out.extend_from_slice(data);
    assert(out@ =~= length_prefixed(data@));
    Some(out)
}

} // verus!
