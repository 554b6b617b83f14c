//! The SOCKS side of the client: what a SOCKS client may ask, what it is
//! answered, and the header in front of every relayed UDP packet.
//!
//! Everything here works on bytes that the caller has read. A parser that
//! needs more bytes than it was given says how many the message is known to
//! have, so that the caller can read on and ask again.

use vstd::prelude::*;
use vstd::slice::{slice_subrange, slice_to_vec};
use vstd::utf8::valid_utf8;
use crate::frame::{be16, be16_at};
use crate::text::{is_utf8, lossy_utf8, to_utf8_lossy};

verus! {

/// SOCKS command: open a TCP connection.
pub const CMD_CONNECT: u8 = 0x01;

/// SOCKS command: relay UDP packets.
pub const CMD_UDP_ASSOCIATE: u8 = 0x03;

/// Address type: four octets of IPv4.
pub const ATYP_V4: u8 = 0x01;

/// Address type: a domain name behind its length.
pub const ATYP_DOMAIN: u8 = 0x03;

/// Address type: sixteen octets of IPv6.
pub const ATYP_V6: u8 = 0x04;

/// SOCKSv5 method: no authentication.
pub const METHOD_NOAUTH: u8 = 0x00;

/// SOCKSv5 method: none of the offered methods is acceptable.
pub const METHOD_NONE: u8 = 0xff;

/// SOCKSv4 status: request granted.
pub const V4_GRANTED: u8 = 0x5a;

/// SOCKSv4 status: request rejected.
pub const V4_REJECTED: u8 = 0x5b;

/// SOCKSv5 status: succeeded.
pub const V5_SUCCEEDED: u8 = 0x00;

/// SOCKSv5 status: general failure.
pub const V5_FAILURE: u8 = 0x01;

/// SOCKSv5 status: command not supported.
pub const V5_COMMAND_NOT_SUPPORTED: u8 = 0x07;

/// Why a SOCKS message was not accepted.
#[derive(Clone, Copy, Debug, PartialEq, Eq, Structural)]
pub enum Error {
    /// The message has at least this many bytes, and fewer were given.
    Incomplete(usize),
    /// The client speaks neither SOCKSv4 nor SOCKSv5.
    SocksVersion(u8),
    /// The command is not supported.
    InvalidCommand(u8),
    /// The address type is none of the three that exist.
    AddressType(u8),
    /// The domain name is not UTF-8.
    DomainName,
    /// The client does not offer to go without authentication.
    OtherAuth,
}

/// An address as SOCKS writes it.
#[derive(Clone, Debug, PartialEq, Eq)]
pub enum SocksAddress {
    V4([u8; 4]),
    Domain(Vec<u8>),
    V6([u8; 16]),
}

/// An address as a mathematical value: its type and its octets (for a
/// domain, the name without its length byte).
pub struct AddressSpec {
    pub atyp: u8,
    pub octets: Seq<u8>,
}

impl View for SocksAddress {
    type V = AddressSpec;

    open spec fn view(&self) -> AddressSpec {
        match *self {
            SocksAddress::V4(o) => AddressSpec { atyp: ATYP_V4, octets: o@ },
            SocksAddress::Domain(d) => AddressSpec { atyp: ATYP_DOMAIN, octets: d@ },
            SocksAddress::V6(o) => AddressSpec { atyp: ATYP_V6, octets: o@ },
        }
    }
}

impl AddressSpec {
    /// Whether the octets are as many as the type asks for.
    pub open spec fn wf(self) -> bool {
        ||| self.atyp == ATYP_V4 && self.octets.len() == 4
        ||| self.atyp == ATYP_V6 && self.octets.len() == 16
        ||| self.atyp == ATYP_DOMAIN && self.octets.len() <= 255
    }

    /// The address on the wire: type, then the octets, a domain behind its
    /// length.
    pub open spec fn bytes(self) -> Seq<u8> {
        if self.atyp == ATYP_DOMAIN {
            seq![self.atyp, self.octets.len() as u8] + self.octets
        } else {
            seq![self.atyp] + self.octets
        }
    }
}

/// A target as SOCKS names it: address and port.
#[derive(Clone, Debug, PartialEq, Eq)]
pub struct Target {
    pub address: SocksAddress,
    pub port: u16,
}

/// A target read from a buffer.
pub struct TargetSpec {
    pub address: AddressSpec,
    pub port: u16,
    /// Where in the buffer the target ends.
    pub end: int,
}

/// Reads address type, address and port from `b`, starting at `at`.
pub open spec fn parse_target(b: Seq<u8>, at: int) -> Result<TargetSpec, Error> {
    if b.len() <= at {
        Err(Error::Incomplete((at + 1) as usize))
    } else if b[at] == ATYP_V4 {
        if b.len() < at + 7 {
            Err(Error::Incomplete((at + 7) as usize))
        } else {
            Ok(
                TargetSpec {
                    address: AddressSpec { atyp: ATYP_V4, octets: b.subrange(at + 1, at + 5) },
                    port: be16_at(b, at + 5),
                    end: at + 7,
                },
            )
        }
    } else if b[at] == ATYP_V6 {
        if b.len() < at + 19 {
            Err(Error::Incomplete((at + 19) as usize))
        } else {
            Ok(
                TargetSpec {
                    address: AddressSpec { atyp: ATYP_V6, octets: b.subrange(at + 1, at + 17) },
                    port: be16_at(b, at + 17),
                    end: at + 19,
                },
            )
        }
    } else if b[at] == ATYP_DOMAIN {
        if b.len() <= at + 1 {
            Err(Error::Incomplete((at + 2) as usize))
        } else if b.len() < at + 4 + b[at + 1] {
            Err(Error::Incomplete((at + 4 + b[at + 1]) as usize))
        } else {
            Ok(
                TargetSpec {
                    address: AddressSpec {
                        atyp: ATYP_DOMAIN,
                        octets: b.subrange(at + 2, at + 2 + b[at + 1]),
                    },
                    port: be16_at(b, at + 2 + b[at + 1]),
                    end: at + 4 + b[at + 1],
                },
            )
        }
    } else {
        Err(Error::AddressType(b[at]))
    }
}

/// A target that was read lies in the buffer as it is written: address
/// bytes, then the port.
pub proof fn lemma_parse_target_layout(b: Seq<u8>, at: int)
    requires
        0 <= at,
        parse_target(b, at) is Ok,
    ensures
        ({
            let t = parse_target(b, at)->Ok_0;
            &&& t.address.wf()
            &&& at < t.end <= b.len()
            &&& b.subrange(at, t.end) == t.address.bytes() + be16(t.port)
        }),
{
    let t = parse_target(b, at)->Ok_0;
    crate::frame::lemma_be_at(b, t.end - 2);
    assert(b.subrange(at, t.end) =~= t.address.bytes() + be16(t.port));
}

/// A target that is written is read back as it was.
pub proof fn lemma_parse_target_round_trip(
    head: Seq<u8>,
    address: AddressSpec,
    port: u16,
    rest: Seq<u8>,
)
    requires
        address.wf(),
    ensures
        parse_target(head + address.bytes() + be16(port) + rest, head.len() as int) == Ok::<
            TargetSpec,
            Error,
        >(
            TargetSpec {
                address,
                port,
                end: (head.len() + address.bytes().len() + 2) as int,
            },
        ),
{
    let b = head + address.bytes() + be16(port) + rest;
    let at = head.len() as int;
    let n = address.bytes().len() as int;
    crate::frame::lemma_be_round_trip(0, port);
    assert(b[at] == address.atyp);
    assert(b[at + n] == be16(port)[0]);
    assert(b[at + n + 1] == be16(port)[1]);
    if address.atyp == ATYP_DOMAIN {
        assert(b[at + 1] == address.octets.len());
        assert(b.subrange(at + 2, at + 2 + address.octets.len()) =~= address.octets);
    } else {
        assert(b.subrange(at + 1, at + 1 + address.octets.len()) =~= address.octets);
    }
}

/// Reads address type, address and port from `b`, starting at `at`.
/// Returns the target and where it ends.
fn read_target(b: &[u8], at: usize) -> (r: Result<(Target, usize), Error>)
    requires
        at + 260 <= usize::MAX,
    ensures
        match (r, parse_target(b@, at as int)) {
            (Ok((t, end)), Ok(m)) => t.address@ == m.address && t.port == m.port && end == m.end,
            (Err(e), Err(m)) => e == m,
            _ => false,
        },
{
    if b.len() <= at {
        return Err(Error::Incomplete(at + 1));
    }
    let atyp = b[at];
    if atyp == ATYP_V4 {
        if b.len() < at + 7 {
            return Err(Error::Incomplete(at + 7));
        }
        let o: [u8; 4] = [b[at + 1], b[at + 2], b[at + 3], b[at + 4]];
        assert(o@ =~= b@.subrange(at + 1, at + 5));
        let port = (b[at + 5] as u16) * 0x100 + (b[at + 6] as u16);
        Ok((Target { address: SocksAddress::V4(o), port }, at + 7))
    } else if atyp == ATYP_V6 {
        if b.len() < at + 19 {
            return Err(Error::Incomplete(at + 19));
        }
        let o: [u8; 16] = [
            b[at + 1],
            b[at + 2],
            b[at + 3],
            b[at + 4],
            b[at + 5],
            b[at + 6],
            b[at + 7],
            b[at + 8],
            b[at + 9],
            b[at + 10],
            b[at + 11],
            b[at + 12],
            b[at + 13],
            b[at + 14],
            b[at + 15],
            b[at + 16],
        ];
        assert(o@ =~= b@.subrange(at + 1, at + 17));
        let port = (b[at + 17] as u16) * 0x100 + (b[at + 18] as u16);
        Ok((Target { address: SocksAddress::V6(o), port }, at + 19))
    } else if atyp == ATYP_DOMAIN {
        if b.len() <= at + 1 {
            return Err(Error::Incomplete(at + 2));
        }
        let n: usize = b[at + 1] as usize;
        if b.len() < at + 4 + n {
            return Err(Error::Incomplete(at + 4 + n));
        }
        let name = slice_to_vec(slice_subrange(b, at + 2, at + 2 + n));
        let port = (b[at + 2 + n] as u16) * 0x100 + (b[at + 3 + n] as u16);
        Ok((Target { address: SocksAddress::Domain(name), port }, at + 4 + n))
    } else {
        Err(Error::AddressType(atyp))
    }
}

/// Appends the wire form of `address` and the big-endian `port`.
fn write_target(out: &mut Vec<u8>, address: &SocksAddress, port: u16)
    requires
        address@.wf(),
    ensures
        final(out)@ == old(out)@ + address@.bytes() + be16(port),
{
    match address {
        SocksAddress::V4(o) => {
            out.push(ATYP_V4);
            out.extend_from_slice(o.as_slice());
        },
        SocksAddress::Domain(d) => {
            out.push(ATYP_DOMAIN);
            out.push(d.len() as u8);
            out.extend_from_slice(d.as_slice());
        },
        SocksAddress::V6(o) => {
            out.push(ATYP_V6);
            out.extend_from_slice(o.as_slice());
        },
    }
    out.push((port / 0x100) as u8);
    out.push((port % 0x100) as u8);
    assert(out@ =~= old(out)@ + address@.bytes() + be16(port));
}

/// The decimal digits of a number below 256, without leading zeros.
pub open spec fn decimal(v: u8) -> Seq<u8> {
    if v >= 100 {
        seq![(48 + v / 100) as u8, (48 + (v / 10) % 10) as u8, (48 + v % 10) as u8]
    } else if v >= 10 {
        seq![(48 + v / 10) as u8, (48 + v % 10) as u8]
    } else {
        seq![(48 + v) as u8]
    }
}

/// The dotted-decimal text of four IPv4 octets.
pub open spec fn dotted(o: Seq<u8>) -> Seq<u8>
    recommends
        o.len() == 4,
{
    decimal(o[0]) + seq![46u8] + decimal(o[1]) + seq![46u8] + decimal(o[2]) + seq![46u8]
        + decimal(o[3])
}

/// Appends the decimal digits of `v`.
fn put_decimal(out: &mut Vec<u8>, v: u8)
    ensures
        final(out)@ == old(out)@ + decimal(v),
{
    if v >= 100 {
        out.push(48 + v / 100);
        out.push(48 + (v / 10) % 10);
        out.push(48 + v % 10);
    } else if v >= 10 {
        out.push(48 + v / 10);
        out.push(48 + v % 10);
    } else {
        out.push(48 + v);
    }
    assert(out@ =~= old(out)@ + decimal(v));
}

/// The dotted-decimal text of an IPv4 address, as in `1.2.3.4`.
pub fn ipv4_text(o: &[u8; 4]) -> (text: Vec<u8>)
    ensures
        text@ == dotted(o@),
{
    let mut out: Vec<u8> = Vec::new();
    put_decimal(&mut out, o[0]);
    out.push(46);
    put_decimal(&mut out, o[1]);
    out.push(46);
    put_decimal(&mut out, o[2]);
    out.push(46);
    put_decimal(&mut out, o[3]);
    assert(out@ =~= dotted(o@));
    out
}

/// The host text that a relayed packet's target stands for, where this
/// crate can write it: dotted decimal for IPv4, the name itself (ill-formed
/// parts replaced) for a domain. The text of an IPv6 address is left to the
/// caller.
pub open spec fn relay_host(address: AddressSpec) -> Option<Seq<u8>> {
    if address.atyp == ATYP_V4 {
        Some(dotted(address.octets))
    } else if address.atyp == ATYP_DOMAIN {
        Some(lossy_utf8(address.octets))
    } else {
        None
    }
}

impl SocksAddress {
    /// Whether the wire form of the address can be written: a domain must
    /// fit its length byte.
    pub fn is_well_formed(&self) -> (ok: bool)
        ensures
            ok == self@.wf(),
    {
        match self {
            SocksAddress::V4(_) => true,
            SocksAddress::Domain(d) => d.len() <= 255,
            SocksAddress::V6(_) => true,
        }
    }

    /// The host text for a datagram to this address: see [`relay_host`].
    /// `None` for IPv6, whose text the caller writes.
    pub fn relay_host(&self) -> (host: Option<Vec<u8>>)
        ensures
            match (host, relay_host(self@)) {
                (Some(h), Some(m)) => h@ == m && valid_utf8(h@),
                (None, None) => true,
                _ => false,
            },
            self@.atyp == ATYP_DOMAIN && valid_utf8(self@.octets) ==> host->Some_0@
                == self@.octets,
    {
        match self {
            SocksAddress::V4(o) => {
                let text = ipv4_text(o);
                proof {
                    lemma_dotted_is_ascii(o@);
                }
                Some(text)
            },
            SocksAddress::Domain(d) => Some(to_utf8_lossy(d.as_slice())),
            SocksAddress::V6(_) => None,
        }
    }
}

/// Dotted-decimal text is ASCII, and so UTF-8.
pub proof fn lemma_dotted_is_ascii(o: Seq<u8>)
    requires
        o.len() == 4,
    ensures
        forall|i: int| 0 <= i < dotted(o).len() ==> #[trigger] dotted(o)[i] < 128,
        valid_utf8(dotted(o)),
{
    let t = dotted(o);
    assert forall|i: int| 0 <= i < t.len() implies #[trigger] t[i] < 128 by {
        let d0 = decimal(o[0]);
        let d1 = decimal(o[1]);
        let d2 = decimal(o[2]);
        let d3 = decimal(o[3]);
        assert(forall|j: int| 0 <= j < d0.len() ==> #[trigger] d0[j] < 128);
        assert(forall|j: int| 0 <= j < d1.len() ==> #[trigger] d1[j] < 128);
        assert(forall|j: int| 0 <= j < d2.len() ==> #[trigger] d2[j] < 128);
        assert(forall|j: int| 0 <= j < d3.len() ==> #[trigger] d3[j] < 128);
    }
    lemma_ascii_is_utf8(t);
}

/// Bytes below 128 are well-formed UTF-8.
pub proof fn lemma_ascii_is_utf8(b: Seq<u8>)
    requires
        forall|i: int| 0 <= i < b.len() ==> #[trigger] b[i] < 128,
    ensures
        valid_utf8(b),
    decreases b.len(),
{
    if b.len() > 0 {
        let first = b[0];
        assert(first < 128);
        assert(vstd::utf8::is_leading_byte_width_1(first)) by (bit_vector)
            requires
                first < 128u8,
        ;
        reveal_with_fuel(vstd::utf8::valid_utf8, 2);
        let rest = vstd::utf8::pop_first_scalar(b);
        assert(rest =~= b.skip(1));
        assert forall|i: int| 0 <= i < rest.len() implies #[trigger] rest[i] < 128 by {
            assert(rest[i] == b[i + 1]);
        }
        lemma_ascii_is_utf8(rest);
    }
}

/// Which SOCKS version a connection speaks, by its first byte.
pub fn socks_version(first: u8) -> (r: Result<u8, Error>)
    ensures
        r == if first == 4 || first == 5 {
            Ok::<u8, Error>(first)
        } else {
            Err(Error::SocksVersion(first))
        },
{
    if first == 4 || first == 5 {
        Ok(first)
    } else {
        Err(Error::SocksVersion(first))
    }
}

/// The methods of a SOCKSv5 greeting `{5, n, methods}`.
pub open spec fn parse_greeting(b: Seq<u8>) -> Result<Seq<u8>, Error> {
    if b.len() < 1 {
        Err(Error::Incomplete(2))
    } else if b[0] != 5 {
        Err(Error::SocksVersion(b[0]))
    } else if b.len() < 2 {
        Err(Error::Incomplete(2))
    } else if b.len() < 2 + b[1] {
        Err(Error::Incomplete((2 + b[1]) as usize))
    } else {
        Ok(b.subrange(2, 2 + b[1]))
    }
}

/// Reads the authentication methods that a SOCKSv5 client offers.
pub fn read_auth_methods(b: &[u8]) -> (r: Result<Vec<u8>, Error>)
    ensures
        match (r, parse_greeting(b@)) {
            (Ok(methods), Ok(m)) => methods@ == m,
            (Err(e), Err(m)) => e == m,
            _ => false,
        },
        r matches Err(Error::Incomplete(n)) ==> n > b@.len(),
{
    if b.len() < 1 {
        return Err(Error::Incomplete(2));
    }
    if b[0] != 5 {
        return Err(Error::SocksVersion(b[0]));
    }
    if b.len() < 2 {
        return Err(Error::Incomplete(2));
    }
    let n: usize = b[1] as usize;
    if b.len() < 2 + n {
        return Err(Error::Incomplete(2 + n));
    }
    Ok(slice_to_vec(slice_subrange(b, 2, 2 + n)))
}

/// The method that answers a greeting: going without authentication where
/// the client offers it, and "none acceptable" where it does not.
pub fn select_auth_method(methods: &[u8]) -> (r: Result<u8, Error>)
    ensures
        methods@.contains(METHOD_NOAUTH) ==> r == Ok::<u8, Error>(METHOD_NOAUTH),
        !methods@.contains(METHOD_NOAUTH) ==> r == Err::<u8, Error>(Error::OtherAuth),
{
    let mut i: usize = 0;
    while i < methods.len()
        invariant
            i <= methods@.len(),
            forall|j: int| 0 <= j < i ==> methods@[j] != METHOD_NOAUTH,
        decreases methods@.len() - i,
    {
        if methods[i] == METHOD_NOAUTH {
            return Ok(METHOD_NOAUTH);
        }
        i += 1;
    }
    Err(Error::OtherAuth)
}

/// The answer to a greeting: `{5, method}`, with `0xff` where the client
/// does not offer to go without authentication.
pub fn auth_reply(selected: Result<u8, Error>) -> (reply: Vec<u8>)
    ensures
        reply@ == seq![
            5u8,
            match selected {
                Ok(method) => method,
                Err(_) => METHOD_NONE,
            },
        ],
{
    let method = match selected {
        Ok(method) => method,
        Err(_) => METHOD_NONE,
    };
    let mut reply: Vec<u8> = Vec::new();
    reply.push(5);
    reply.push(method);
    assert(reply@ =~= seq![5u8, method]);
    reply
}

/// What a SOCKS client asks for.
#[derive(Clone, Debug, PartialEq, Eq)]
pub struct Request {
    pub command: u8,
    pub target: Target,
}

/// A request as a mathematical value.
pub struct RequestSpec {
    pub command: u8,
    pub address: AddressSpec,
    pub port: u16,
    /// How many bytes the request takes.
    pub len: int,
}

/// A SOCKSv5 request `{5, cmd, 0, atyp, addr, port}`. A domain name has to
/// be UTF-8.
pub open spec fn parse_v5_request(b: Seq<u8>) -> Result<RequestSpec, Error> {
    if b.len() < 1 {
        Err(Error::Incomplete(4))
    } else if b[0] != 5 {
        Err(Error::SocksVersion(b[0]))
    } else if b.len() < 4 {
        Err(Error::Incomplete(4))
    } else {
        match parse_target(b, 3) {
            Err(e) => Err(e),
            Ok(t) => if t.address.atyp == ATYP_DOMAIN && !valid_utf8(t.address.octets) {
                Err(Error::DomainName)
            } else {
                Ok(RequestSpec { command: b[1], address: t.address, port: t.port, len: t.end })
            },
        }
    }
}

/// Reads a SOCKSv5 request. Returns the request and its length.
pub fn read_v5_request(b: &[u8]) -> (r: Result<(Request, usize), Error>)
    ensures
        match (r, parse_v5_request(b@)) {
            (Ok((q, len)), Ok(m)) => q.command == m.command && q.target.address@ == m.address
                && q.target.port == m.port && len == m.len,
            (Err(e), Err(m)) => e == m,
            _ => false,
        },
        r matches Err(Error::Incomplete(n)) ==> n > b@.len(),
{
    if b.len() < 1 {
        return Err(Error::Incomplete(4));
    }
    if b[0] != 5 {
        return Err(Error::SocksVersion(b[0]));
    }
    if b.len() < 4 {
        return Err(Error::Incomplete(4));
    }
    match read_target(b, 3) {
        Err(e) => Err(e),
        Ok((target, end)) => {
            let bad = match &target.address {
                SocksAddress::Domain(name) => !is_utf8(name.as_slice()),
                _ => false,
            };
            if bad {
                Err(Error::DomainName)
            } else {
                Ok((Request { command: b[1], target }, end))
            }
        },
    }
}

/// A SOCKSv4 request `{4, cmd, port, ip, userid, 0}`.
pub open spec fn parse_v4_request(b: Seq<u8>) -> Result<RequestSpec, Error> {
    if b.len() < 1 {
        Err(Error::Incomplete(9))
    } else if b[0] != 4 {
        Err(Error::SocksVersion(b[0]))
    } else if b.len() < 9 {
        Err(Error::Incomplete(9))
    } else if user_id_end(b, 8) >= b.len() {
        Err(Error::Incomplete((b.len() + 1) as usize))
    } else {
        Ok(
            RequestSpec {
                command: b[1],
                address: AddressSpec { atyp: ATYP_V4, octets: b.subrange(4, 8) },
                port: be16_at(b, 2),
                len: user_id_end(b, 8) + 1,
            },
        )
    }
}

/// Where the first zero byte at or behind `from` lies; the length of `b`
/// where there is none.
pub open spec fn user_id_end(b: Seq<u8>, from: int) -> int
    decreases b.len() - from,
{
    if from < 0 || from >= b.len() {
        b.len() as int
    } else if b[from] == 0 {
        from
    } else {
        user_id_end(b, from + 1)
    }
}

/// Reads a SOCKSv4 request. Returns the request and its length.
pub fn read_v4_request(b: &[u8]) -> (r: Result<(Request, usize), Error>)
    requires
        b@.len() < usize::MAX,
    ensures
        match (r, parse_v4_request(b@)) {
            (Ok((q, len)), Ok(m)) => q.command == m.command && q.target.address@ == m.address
                && q.target.port == m.port && len == m.len,
            (Err(e), Err(m)) => e == m,
            _ => false,
        },
        r matches Err(Error::Incomplete(n)) ==> n > b@.len(),
{
    if b.len() < 1 {
        return Err(Error::Incomplete(9));
    }
    if b[0] != 4 {
        return Err(Error::SocksVersion(b[0]));
    }
    if b.len() < 9 {
        return Err(Error::Incomplete(9));
    }
    let mut i: usize = 8;
    while i < b.len() && b[i] != 0
        invariant
            8 <= i <= b@.len(),
            user_id_end(b@, 8) == user_id_end(b@, i as int),
        decreases b@.len() - i,
    {
        i += 1;
    }
    if i >= b.len() {
        return Err(Error::Incomplete(b.len() + 1));
    }
    let o: [u8; 4] = [b[4], b[5], b[6], b[7]];
    assert(o@ =~= b@.subrange(4, 8));
    let port = (b[2] as u16) * 0x100 + (b[3] as u16);
    Ok((Request { command: b[1], target: Target { address: SocksAddress::V4(o), port } }, i + 1))
}

/// What the client's command leads to.
#[derive(Clone, Copy, Debug, PartialEq, Eq, Structural)]
pub enum Command {
    /// Open a stream to the target and pipe bytes.
    Connect,
    /// Bind a UDP socket and relay datagrams.
    Associate,
}

/// What a SOCKS command leads to. Both versions connect; only version 5
/// relays UDP; nothing else is supported, `BIND` included.
pub fn command_for(version: u8, command: u8) -> (r: Result<Command, Error>)
    ensures
        r == if command == CMD_CONNECT {
            Ok::<Command, Error>(Command::Connect)
        } else if version == 5 && command == CMD_UDP_ASSOCIATE {
            Ok(Command::Associate)
        } else {
            Err(Error::InvalidCommand(command))
        },
{
    if command == CMD_CONNECT {
        Ok(Command::Connect)
    } else if version == 5 && command == CMD_UDP_ASSOCIATE {
        Ok(Command::Associate)
    } else {
        Err(Error::InvalidCommand(command))
    }
}

/// The status byte that refuses an unsupported command: `0x5b` in version
/// 4, `0x07` in version 5.
pub fn refusal_status(version: u8) -> (status: u8)
    ensures
        status == if version == 5 {
            V5_COMMAND_NOT_SUPPORTED
        } else {
            V4_REJECTED
        },
{
    if version == 5 {
        V5_COMMAND_NOT_SUPPORTED
    } else {
        V4_REJECTED
    }
}

/// The SOCKSv4 response `{0, status, port, ip}` with port and address left
/// zero.
pub fn v4_response(status: u8) -> (reply: Vec<u8>)
    ensures
        reply@ == seq![0u8, status, 0u8, 0u8, 0u8, 0u8, 0u8, 0u8],
{
    let mut reply: Vec<u8> = Vec::new();
    reply.push(0);
    reply.push(status);
    reply.push(0);
    reply.push(0);
    reply.push(0);
    reply.push(0);
    reply.push(0);
    reply.push(0);
    assert(reply@ =~= seq![0u8, status, 0u8, 0u8, 0u8, 0u8, 0u8, 0u8]);
    reply
}

/// The SOCKSv5 reply `{5, status, 0, atyp, addr, port}`.
pub open spec fn v5_reply_bytes(status: u8, address: AddressSpec, port: u16) -> Seq<u8> {
    seq![5u8, status, 0u8] + address.bytes() + be16(port)
}

/// The SOCKSv5 reply that names the address we bound. Fails, with nothing
/// written, exactly when the address is a domain of more than 255 octets.
pub fn v5_response(status: u8, bound: &Target) -> (reply: Option<Vec<u8>>)
    ensures
        bound.address@.wf() ==> reply is Some && reply->Some_0@ == v5_reply_bytes(
            status,
            bound.address@,
            bound.port,
        ),
        !bound.address@.wf() ==> reply is None,
{
    if !bound.address.is_well_formed() {
        return None;
    }
    let mut reply: Vec<u8> = Vec::new();
    reply.push(5);
    reply.push(status);
    reply.push(0);
    write_target(&mut reply, &bound.address, bound.port);
    assert(reply@ =~= v5_reply_bytes(status, bound.address@, bound.port));
    Some(reply)
}

/// The SOCKSv5 reply that names no address: `0.0.0.0`, port zero.
pub fn v5_response_unspecified(status: u8) -> (reply: Vec<u8>)
    ensures
        reply@ == seq![5u8, status, 0u8, ATYP_V4, 0u8, 0u8, 0u8, 0u8, 0u8, 0u8],
{
    let mut reply: Vec<u8> = Vec::new();
    reply.push(5);
    reply.push(status);
    reply.push(0);
    reply.push(ATYP_V4);
    reply.push(0);
    reply.push(0);
    reply.push(0);
    reply.push(0);
    reply.push(0);
    reply.push(0);
    assert(reply@ =~= seq![5u8, status, 0u8, ATYP_V4, 0u8, 0u8, 0u8, 0u8, 0u8, 0u8]);
    reply
}

/// What the header of a relayed UDP packet says.
#[derive(Clone, Debug, PartialEq, Eq)]
pub enum RelayHeader {
    /// Where the packet goes, and where in the packet its data begins.
    Target { target: Target, data_at: usize },
    /// The packet is a fragment. Fragments are dropped.
    Fragmented,
    /// The address type does not exist. The packet is dropped.
    BadAddressType(u8),
    /// The packet ends within its header. It is dropped.
    Truncated,
}

/// A relay header as a mathematical value.
pub enum RelayHeaderSpec {
    Target { address: AddressSpec, port: u16, data_at: int },
    Fragmented,
    BadAddressType(u8),
    Truncated,
}

impl View for RelayHeader {
    type V = RelayHeaderSpec;

    open spec fn view(&self) -> RelayHeaderSpec {
        match *self {
            RelayHeader::Target { target, data_at } => RelayHeaderSpec::Target {
                address: target.address@,
                port: target.port,
                data_at: data_at as int,
            },
            RelayHeader::Fragmented => RelayHeaderSpec::Fragmented,
            RelayHeader::BadAddressType(t) => RelayHeaderSpec::BadAddressType(t),
            RelayHeader::Truncated => RelayHeaderSpec::Truncated,
        }
    }
}

/// The header `{RSV(2), FRAG(1), ATYP(1), DST, PORT}` at the front of a
/// relayed packet.
pub open spec fn parse_relay_header(b: Seq<u8>) -> RelayHeaderSpec {
    if b.len() < 3 {
        RelayHeaderSpec::Truncated
    } else if b[2] != 0 {
        RelayHeaderSpec::Fragmented
    } else {
        match parse_target(b, 3) {
            Ok(t) => RelayHeaderSpec::Target { address: t.address, port: t.port, data_at: t.end },
            Err(Error::AddressType(t)) => RelayHeaderSpec::BadAddressType(t),
            Err(_) => RelayHeaderSpec::Truncated,
        }
    }
}

/// Reads the header of a relayed UDP packet.
pub fn handle_udp_relay_header(packet: &[u8]) -> (header: RelayHeader)
    ensures
        header@ == parse_relay_header(packet@),
        header matches RelayHeader::Target { data_at, .. } ==> data_at <= packet@.len(),
{
    if packet.len() < 3 {
        return RelayHeader::Truncated;
    }
    if packet[2] != 0 {
        return RelayHeader::Fragmented;
    }
    match read_target(packet, 3) {
        Ok((target, data_at)) => RelayHeader::Target { target, data_at },
        Err(Error::AddressType(t)) => RelayHeader::BadAddressType(t),
        Err(_) => RelayHeader::Truncated,
    }
}

/// A relayed packet on the wire: reserved bytes, no fragment, the address
/// it is from or for, and the data.
pub open spec fn relay_packet(address: AddressSpec, port: u16, data: Seq<u8>) -> Seq<u8> {
    seq![0u8, 0u8, 0u8] + address.bytes() + be16(port) + data
}

/// The packet that carries `data` from `source` back to a SOCKS client.
/// Fails exactly when the address is a domain of more than 255 octets.
pub fn send_udp_relay_response(source: &Target, data: &[u8]) -> (packet: Option<Vec<u8>>)
    ensures
        source.address@.wf() ==> packet is Some && packet->Some_0@ == relay_packet(
            source.address@,
            source.port,
            data@,
        ),
        !source.address@.wf() ==> packet is None,
{
    if !source.address.is_well_formed() {
        return None;
    }
    let mut packet: Vec<u8> = Vec::new();
    packet.push(0);
    packet.push(0);
    packet.push(0);
    write_target(&mut packet, &source.address, source.port);
    packet.extend_from_slice(data);
    assert(packet@ =~= relay_packet(source.address@, source.port, data@));
    Some(packet)
}

/// A relayed packet that was written is read back: same target, and the
/// data begins where the header ends.
pub proof fn lemma_relay_round_trip(address: AddressSpec, port: u16, data: Seq<u8>)
    requires
        address.wf(),
    ensures
        parse_relay_header(relay_packet(address, port, data)) == (RelayHeaderSpec::Target {
            address,
            port,
            data_at: (5 + address.bytes().len()) as int,
        }),
        relay_packet(address, port, data).skip((5 + address.bytes().len()) as int) == data,
{
    let head = seq![0u8, 0u8, 0u8];
    lemma_parse_target_round_trip(head, address, port, data);
    let b = relay_packet(address, port, data);
    assert(b =~= head + address.bytes() + be16(port) + data);
    assert(b[2] == 0);
    assert(b.skip((5 + address.bytes().len()) as int) =~= data);
}

} // verus!
