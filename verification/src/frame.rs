//! Wire frames of the multiplexor.
//!
//! Every frame is one binary WebSocket message: a big-endian flow id, one
//! opcode byte, and a payload whose shape the opcode decides. This module
//! holds the frame types, the mathematical description of the layout
//! ([`frame_bytes`] and [`parse_frame`]), the codec, and the proofs that the
//! two descriptions agree.

use vstd::prelude::*;
use vstd::slice::{slice_subrange, slice_to_vec};
use vstd::utf8::valid_utf8;
use crate::text::is_utf8;

verus! {

/// Length of the envelope in front of every payload: flow id and opcode.
pub const HEADER_LEN: usize = 5;

/// Longest host name, in octets, that a frame can carry.
pub const MAX_HOST_LEN: usize = 255;

/// Why a frame could not be encoded or decoded.
#[derive(Clone, Copy, Debug, PartialEq, Eq, Structural)]
pub enum FrameError {
    /// The message ends before the frame does.
    TooShort,
    /// The opcode byte names no frame kind.
    UnknownOpcode(u8),
    /// The host is not well-formed UTF-8.
    InvalidHost,
    /// The host is longer than [`MAX_HOST_LEN`] octets.
    HostTooLong,
}

/// The kind of a frame.
#[derive(Clone, Copy, Debug, PartialEq, Eq, Structural)]
pub enum OpCode {
    Connect,
    Acknowledge,
    Finish,
    Reset,
    Push,
    Bind,
    Datagram,
}

impl OpCode {
    /// The byte that stands for this kind on the wire.
    pub open spec fn wire(self) -> u8 {
        match self {
            OpCode::Connect => 1,
            OpCode::Acknowledge => 2,
            OpCode::Finish => 3,
            OpCode::Reset => 4,
            OpCode::Push => 5,
            OpCode::Bind => 6,
            OpCode::Datagram => 7,
        }
    }

    /// The kind that a wire byte stands for, if any.
    pub open spec fn of_wire(byte: u8) -> Option<OpCode> {
        if byte == 1 {
            Some(OpCode::Connect)
        } else if byte == 2 {
            Some(OpCode::Acknowledge)
        } else if byte == 3 {
            Some(OpCode::Finish)
        } else if byte == 4 {
            Some(OpCode::Reset)
        } else if byte == 5 {
            Some(OpCode::Push)
        } else if byte == 6 {
            Some(OpCode::Bind)
        } else if byte == 7 {
            Some(OpCode::Datagram)
        } else {
            None
        }
    }

    /// The byte that stands for this kind on the wire.
    pub fn to_byte(self) -> (byte: u8)
        ensures
            byte == self.wire(),
            OpCode::of_wire(byte) == Some(self),
    {
        match self {
            OpCode::Connect => 1,
            OpCode::Acknowledge => 2,
            OpCode::Finish => 3,
            OpCode::Reset => 4,
            OpCode::Push => 5,
            OpCode::Bind => 6,
            OpCode::Datagram => 7,
        }
    }

    /// Reads a wire byte; fails on a byte that names no kind.
    pub fn from_byte(byte: u8) -> (kind: Result<OpCode, FrameError>)
        ensures
            kind == match OpCode::of_wire(byte) {
                Some(op) => Ok::<OpCode, FrameError>(op),
                None => Err(FrameError::UnknownOpcode(byte)),
            },
    {
        match byte {
            1 => Ok(OpCode::Connect),
            2 => Ok(OpCode::Acknowledge),
            3 => Ok(OpCode::Finish),
            4 => Ok(OpCode::Reset),
            5 => Ok(OpCode::Push),
            6 => Ok(OpCode::Bind),
            7 => Ok(OpCode::Datagram),
            _ => Err(FrameError::UnknownOpcode(byte)),
        }
    }
}

/// Payload of a `Connect` frame: the sender's receive window and the target.
#[derive(Clone, Debug, PartialEq, Eq)]
pub struct ConnectPayload {
    pub rwnd: u32,
    pub target_host: Vec<u8>,
    pub target_port: u16,
}

/// Payload of a `Bind` frame: the address the peer is asked to bind.
#[derive(Clone, Debug, PartialEq, Eq)]
pub struct BindPayload {
    pub target_host: Vec<u8>,
    pub target_port: u16,
}

/// Payload of a `Datagram` frame: the target and the datagram itself.
#[derive(Clone, Debug, PartialEq, Eq)]
pub struct DatagramPayload {
    pub target_host: Vec<u8>,
    pub target_port: u16,
    pub data: Vec<u8>,
}

/// What a frame carries.
#[derive(Clone, Debug, PartialEq, Eq)]
pub enum Payload {
    Connect(ConnectPayload),
    Acknowledge(u32),
    Finish,
    Reset,
    Push(Vec<u8>),
    Bind(BindPayload),
    Datagram(DatagramPayload),
}

/// One frame: the flow it belongs to and what it carries.
#[derive(Clone, Debug, PartialEq, Eq)]
pub struct Frame {
    pub id: u32,
    pub payload: Payload,
}

/// A payload as a mathematical value.
pub enum PayloadModel {
    Connect { rwnd: u32, host: Seq<u8>, port: u16 },
    Acknowledge { credit: u32 },
    Finish,
    Reset,
    Push { data: Seq<u8> },
    Bind { host: Seq<u8>, port: u16 },
    Datagram { host: Seq<u8>, port: u16, data: Seq<u8> },
}

/// A frame as a mathematical value.
pub struct FrameModel {
    pub id: u32,
    pub payload: PayloadModel,
}

impl View for Payload {
    type V = PayloadModel;

    open spec fn view(&self) -> PayloadModel {
        match *self {
            Payload::Connect(c) => PayloadModel::Connect {
                rwnd: c.rwnd,
                host: c.target_host@,
                port: c.target_port,
            },
            Payload::Acknowledge(credit) => PayloadModel::Acknowledge { credit },
            Payload::Finish => PayloadModel::Finish,
            Payload::Reset => PayloadModel::Reset,
            Payload::Push(data) => PayloadModel::Push { data: data@ },
            Payload::Bind(b) => PayloadModel::Bind { host: b.target_host@, port: b.target_port },
            Payload::Datagram(d) => PayloadModel::Datagram {
                host: d.target_host@,
                port: d.target_port,
                data: d.data@,
            },
        }
    }
}

impl View for Frame {
    type V = FrameModel;

    open spec fn view(&self) -> FrameModel {
        FrameModel { id: self.id, payload: self.payload@ }
    }
}

impl PayloadModel {
    /// The kind of frame that carries this payload.
    pub open spec fn opcode(self) -> OpCode {
        match self {
            PayloadModel::Connect { .. } => OpCode::Connect,
            PayloadModel::Acknowledge { .. } => OpCode::Acknowledge,
            PayloadModel::Finish => OpCode::Finish,
            PayloadModel::Reset => OpCode::Reset,
            PayloadModel::Push { .. } => OpCode::Push,
            PayloadModel::Bind { .. } => OpCode::Bind,
            PayloadModel::Datagram { .. } => OpCode::Datagram,
        }
    }

    /// The host that the payload names; empty where it names none.
    pub open spec fn host(self) -> Seq<u8> {
        match self {
            PayloadModel::Connect { host, .. } => host,
            PayloadModel::Bind { host, .. } => host,
            PayloadModel::Datagram { host, .. } => host,
            _ => Seq::empty(),
        }
    }

    /// Whether the payload fits the wire format: its host is short enough
    /// for the one-byte length in front of it.
    pub open spec fn encodable(self) -> bool {
        self.host().len() <= MAX_HOST_LEN
    }

    /// Whether a decoder accepts the payload: it is encodable and its host
    /// is well-formed UTF-8.
    pub open spec fn well_formed(self) -> bool {
        self.encodable() && valid_utf8(self.host())
    }
}

/// Big-endian bytes of a 16-bit number.
pub open spec fn be16(v: u16) -> Seq<u8> {
    seq![(v / 0x100) as u8, (v % 0x100) as u8]
}

/// Big-endian bytes of a 32-bit number.
pub open spec fn be32(v: u32) -> Seq<u8> {
    seq![
        (v / 0x100_0000) as u8,
        ((v / 0x1_0000) % 0x100) as u8,
        ((v / 0x100) % 0x100) as u8,
        (v % 0x100) as u8,
    ]
}

/// The number whose big-endian bytes are the two bytes of `b` at `at`.
pub open spec fn be16_at(b: Seq<u8>, at: int) -> u16
    recommends
        0 <= at,
        at + 2 <= b.len(),
{
    (b[at] * 0x100 + b[at + 1]) as u16
}

/// The number whose big-endian bytes are the four bytes of `b` at `at`.
pub open spec fn be32_at(b: Seq<u8>, at: int) -> u32
    recommends
        0 <= at,
        at + 4 <= b.len(),
{
    (b[at] * 0x100_0000 + b[at + 1] * 0x1_0000 + b[at + 2] * 0x100 + b[at + 3]) as u32
}

/// Layout of a target address: length byte, host, big-endian port.
pub open spec fn address_bytes(host: Seq<u8>, port: u16) -> Seq<u8> {
    seq![host.len() as u8] + host + be16(port)
}

/// Layout of a payload.
pub open spec fn payload_bytes(p: PayloadModel) -> Seq<u8> {
    match p {
        PayloadModel::Connect { rwnd, host, port } => be32(rwnd) + address_bytes(host, port),
        PayloadModel::Acknowledge { credit } => be32(credit),
        PayloadModel::Finish => Seq::empty(),
        PayloadModel::Reset => Seq::empty(),
        PayloadModel::Push { data } => data,
        PayloadModel::Bind { host, port } => address_bytes(host, port),
        PayloadModel::Datagram { host, port, data } => address_bytes(host, port) + data,
    }
}

/// Layout of a whole frame: flow id, opcode, payload.
pub open spec fn frame_bytes(f: FrameModel) -> Seq<u8> {
    be32(f.id) + seq![f.payload.opcode().wire()] + payload_bytes(f.payload)
}

/// A target address read from the front of a buffer.
pub struct AddressModel {
    pub host: Seq<u8>,
    pub port: u16,
    /// How many bytes of the buffer the address takes.
    pub len: int,
}

/// Reads a target address from the front of `b`.
pub open spec fn parse_address(b: Seq<u8>) -> Result<AddressModel, FrameError> {
    if b.len() < 1 {
        Err(FrameError::TooShort)
    } else if b.len() < 3 + b[0] {
        Err(FrameError::TooShort)
    } else if !valid_utf8(b.subrange(1, 1 + b[0])) {
        Err(FrameError::InvalidHost)
    } else {
        Ok(
            AddressModel {
                host: b.subrange(1, 1 + b[0]),
                port: be16_at(b, 1 + b[0]),
                len: 3 + b[0],
            },
        )
    }
}

/// Reads the payload of a frame of kind `op` from `b`. Bytes behind a
/// payload of fixed shape are ignored.
pub open spec fn parse_payload(op: OpCode, b: Seq<u8>) -> Result<PayloadModel, FrameError> {
    match op {
        OpCode::Connect => if b.len() < 4 {
            Err(FrameError::TooShort)
        } else {
            match parse_address(b.skip(4)) {
                Ok(a) => Ok(
                    PayloadModel::Connect { rwnd: be32_at(b, 0), host: a.host, port: a.port },
                ),
                Err(e) => Err(e),
            }
        },
        OpCode::Acknowledge => if b.len() < 4 {
            Err(FrameError::TooShort)
        } else {
            Ok(PayloadModel::Acknowledge { credit: be32_at(b, 0) })
        },
        OpCode::Finish => Ok(PayloadModel::Finish),
        OpCode::Reset => Ok(PayloadModel::Reset),
        OpCode::Push => Ok(PayloadModel::Push { data: b }),
        OpCode::Bind => match parse_address(b) {
            Ok(a) => Ok(PayloadModel::Bind { host: a.host, port: a.port }),
            Err(e) => Err(e),
        },
        OpCode::Datagram => match parse_address(b) {
            Ok(a) => Ok(PayloadModel::Datagram { host: a.host, port: a.port, data: b.skip(a.len) }),
            Err(e) => Err(e),
        },
    }
}

/// Reads a frame from a whole message.
pub open spec fn parse_frame(b: Seq<u8>) -> Result<FrameModel, FrameError> {
    if b.len() < HEADER_LEN {
        Err(FrameError::TooShort)
    } else {
        match OpCode::of_wire(b[4]) {
            None => Err(FrameError::UnknownOpcode(b[4])),
            Some(op) => match parse_payload(op, b.skip(5)) {
                Ok(payload) => Ok(FrameModel { id: be32_at(b, 0), payload }),
                Err(e) => Err(e),
            },
        }
    }
}

/// Reading the big-endian bytes of a number gives the number back.
pub proof fn lemma_be_round_trip(v32: u32, v16: u16)
    ensures
        be32_at(be32(v32), 0) == v32,
        be16_at(be16(v16), 0) == v16,
        be32(v32).len() == 4,
        be16(v16).len() == 2,
{
}

/// Writing the number read from some bytes gives those bytes back.
pub proof fn lemma_be_at(b: Seq<u8>, at: int)
    requires
        0 <= at,
    ensures
        at + 4 <= b.len() ==> be32(be32_at(b, at)) == b.subrange(at, at + 4),
        at + 2 <= b.len() ==> be16(be16_at(b, at)) == b.subrange(at, at + 2),
{
    if at + 4 <= b.len() {
        assert(be32(be32_at(b, at)) =~= b.subrange(at, at + 4));
    }
    if at + 2 <= b.len() {
        assert(be16(be16_at(b, at)) =~= b.subrange(at, at + 2));
    }
}

/// An address that was laid out is read back as it was, whatever follows it.
pub proof fn lemma_address_round_trip(host: Seq<u8>, port: u16, rest: Seq<u8>)
    requires
        host.len() <= MAX_HOST_LEN,
        valid_utf8(host),
    ensures
        parse_address(address_bytes(host, port) + rest) == Ok::<AddressModel, FrameError>(
            AddressModel { host, port, len: 3 + host.len() as int },
        ),
        (address_bytes(host, port) + rest).skip(3 + host.len() as int) == rest,
{
    let b = address_bytes(host, port) + rest;
    let n = host.len() as int;
    assert(b[0] == n);
    assert(b.subrange(1, 1 + n) =~= host);
    assert(b[1 + n] == be16(port)[0]);
    assert(b[2 + n] == be16(port)[1]);
    assert(b.skip(3 + n) =~= rest);
}

/// Decoding inverts encoding: a well-formed frame that was laid out is read
/// back as it was.
pub proof fn lemma_decode_encode(f: FrameModel)
    requires
        f.payload.well_formed(),
    ensures
        parse_frame(frame_bytes(f)) == Ok::<FrameModel, FrameError>(f),
{
    let b = frame_bytes(f);
    let p = payload_bytes(f.payload);
    lemma_be_round_trip(f.id, 0);
    assert(b.skip(5) =~= p);
    assert(b[4] == f.payload.opcode().wire());
    assert(be32_at(b, 0) == f.id) by {
        assert(b[0] == be32(f.id)[0]);
        assert(b[1] == be32(f.id)[1]);
        assert(b[2] == be32(f.id)[2]);
        assert(b[3] == be32(f.id)[3]);
    }
    match f.payload {
        PayloadModel::Connect { rwnd, host, port } => {
            lemma_be_round_trip(rwnd, 0);
            lemma_address_round_trip(host, port, Seq::empty());
            assert(p.skip(4) =~= address_bytes(host, port) + Seq::<u8>::empty());
            assert(be32_at(p, 0) == rwnd) by {
                assert(p[0] == be32(rwnd)[0]);
                assert(p[1] == be32(rwnd)[1]);
                assert(p[2] == be32(rwnd)[2]);
                assert(p[3] == be32(rwnd)[3]);
            }
        },
        PayloadModel::Acknowledge { credit } => {
            lemma_be_round_trip(credit, 0);
        },
        PayloadModel::Finish => {},
        PayloadModel::Reset => {},
        PayloadModel::Push { data } => {},
        PayloadModel::Bind { host, port } => {
            lemma_address_round_trip(host, port, Seq::empty());
            assert(p =~= address_bytes(host, port) + Seq::<u8>::empty());
        },
        PayloadModel::Datagram { host, port, data } => {
            lemma_address_round_trip(host, port, data);
        },
    }
}

/// What a decoder accepts is well-formed, and laying it out again gives the
/// front of the message back: all of it for `Push` and `Datagram`, whose
/// payload runs to the end of the message.
pub proof fn lemma_encode_decode(b: Seq<u8>)
    requires
        parse_frame(b) is Ok,
    ensures
        ({
            let f = parse_frame(b)->Ok_0;
            &&& f.payload.well_formed()
            &&& frame_bytes(f).is_prefix_of(b)
            &&& (f.payload is Push || f.payload is Datagram) ==> frame_bytes(f) == b
        }),
{
    let f = parse_frame(b)->Ok_0;
    let op = OpCode::of_wire(b[4])->Some_0;
    let p = b.skip(5);
    lemma_be_at(b, 0);
    assert(op.wire() == b[4]);
    assert(f.payload.opcode() == op);
    let head = be32(f.id) + seq![op.wire()];
    assert(head =~= b.subrange(0, 5));
    match op {
        OpCode::Connect => {
            lemma_be_at(p, 0);
            lemma_address_layout(p.skip(4));
            let a = parse_address(p.skip(4))->Ok_0;
            assert(payload_bytes(f.payload) =~= p.subrange(0, 4 + a.len));
        },
        OpCode::Acknowledge => {
            lemma_be_at(p, 0);
        },
        OpCode::Finish => {},
        OpCode::Reset => {},
        OpCode::Push => {},
        OpCode::Bind => {
            lemma_address_layout(p);
        },
        OpCode::Datagram => {
            lemma_address_layout(p);
            let a = parse_address(p)->Ok_0;
            assert(payload_bytes(f.payload) =~= p);
        },
    }
    assert(frame_bytes(f) =~= b.subrange(0, frame_bytes(f).len() as int));
    if f.payload is Push || f.payload is Datagram {
        assert(frame_bytes(f) =~= b);
    }
}

/// An address that was read lies, in its layout, at the front of the buffer.
pub proof fn lemma_address_layout(b: Seq<u8>)
    requires
        parse_address(b) is Ok,
    ensures
        ({
            let a = parse_address(b)->Ok_0;
            &&& a.host.len() <= MAX_HOST_LEN
            &&& valid_utf8(a.host)
            &&& a.len == 3 + a.host.len()
            &&& address_bytes(a.host, a.port) == b.subrange(0, a.len)
        }),
{
    let a = parse_address(b)->Ok_0;
    lemma_be_at(b, 1 + b[0]);
    assert(address_bytes(a.host, a.port) =~= b.subrange(0, a.len));
}

/// Appends the big-endian bytes of `v`.
fn put_be16(out: &mut Vec<u8>, v: u16)
    ensures
        final(out)@ == old(out)@ + be16(v),
{
    out.push((v / 0x100) as u8);
    out.push((v % 0x100) as u8);
    assert(out@ =~= old(out)@ + be16(v));
}

/// Appends the big-endian bytes of `v`.
fn put_be32(out: &mut Vec<u8>, v: u32)
    ensures
        final(out)@ == old(out)@ + be32(v),
{
    out.push((v / 0x100_0000) as u8);
    out.push(((v / 0x1_0000) % 0x100) as u8);
    out.push(((v / 0x100) % 0x100) as u8);
    out.push((v % 0x100) as u8);
    assert(out@ =~= old(out)@ + be32(v));
}

/// Appends the layout of a target address.
fn put_address(out: &mut Vec<u8>, host: &[u8], port: u16)
    requires
        host@.len() <= MAX_HOST_LEN,
    ensures
        final(out)@ == old(out)@ + address_bytes(host@, port),
{
    out.push(host.len() as u8);
    out.extend_from_slice(host);
    put_be16(out, port);
    assert(out@ =~= old(out)@ + address_bytes(host@, port));
}

/// Reads the big-endian 16-bit number at `at`.
fn get_be16(b: &[u8], at: usize) -> (v: u16)
    requires
        at + 2 <= b@.len(),
    ensures
        v == be16_at(b@, at as int),
{
    (b[at] as u16) * 0x100 + (b[at + 1] as u16)
}

/// Reads the big-endian 32-bit number at `at`.
fn get_be32(b: &[u8], at: usize) -> (v: u32)
    requires
        at + 4 <= b@.len(),
    ensures
        v == be32_at(b@, at as int),
{
    (b[at] as u32) * 0x100_0000 + (b[at + 1] as u32) * 0x1_0000 + (b[at + 2] as u32) * 0x100 + (
    b[at + 3] as u32)
}

/// A target address as the decoder hands it on.
struct Address<'a> {
    host: &'a [u8],
    port: u16,
    len: usize,
}

/// Reads a target address from `b`, starting at `at`.
fn get_address<'a>(b: &'a [u8], at: usize) -> (r: Result<Address<'a>, FrameError>)
    requires
        at <= b@.len(),
    ensures
        match (r, parse_address(b@.skip(at as int))) {
            (Ok(a), Ok(m)) => a.host@ == m.host && a.port == m.port && a.len == m.len,
            (Err(e), Err(m)) => e == m,
            _ => false,
        },
{
    let ghost rest = b@.skip(at as int);
    if b.len() - at < 1 {
        return Err(FrameError::TooShort);
    }
    let n: usize = b[at] as usize;
    assert(rest[0] == b@[at as int]);
    if b.len() - at < 3 + n {
        return Err(FrameError::TooShort);
    }
    let host = slice_subrange(b, at + 1, at + 1 + n);
    assert(host@ =~= rest.subrange(1, 1 + n));
    if !is_utf8(host) {
        return Err(FrameError::InvalidHost);
    }
    let port = get_be16(b, at + 1 + n);
    assert(rest[1 + n] == b@[at + 1 + n]);
    assert(rest[2 + n] == b@[at + 2 + n]);
    Ok(Address { host, port, len: 3 + n })
}

/// What a frame carries, as a view into the message it was read from.
#[derive(Clone, Copy, Debug, PartialEq, Eq)]
pub enum PayloadRef<'a> {
    Connect { rwnd: u32, target_host: &'a [u8], target_port: u16 },
    Acknowledge(u32),
    Finish,
    Reset,
    Push(&'a [u8]),
    Bind { target_host: &'a [u8], target_port: u16 },
    Datagram { target_host: &'a [u8], target_port: u16, data: &'a [u8] },
}

/// One frame, as a view into the message it was read from. Nothing is
/// copied until [`FrameRef::into_owned`] is asked for a frame that outlives
/// the message.
#[derive(Clone, Copy, Debug, PartialEq, Eq)]
pub struct FrameRef<'a> {
    pub id: u32,
    pub payload: PayloadRef<'a>,
}

impl<'a> View for PayloadRef<'a> {
    type V = PayloadModel;

    open spec fn view(&self) -> PayloadModel {
        match *self {
            PayloadRef::Connect { rwnd, target_host, target_port } => PayloadModel::Connect {
                rwnd,
                host: target_host@,
                port: target_port,
            },
            PayloadRef::Acknowledge(credit) => PayloadModel::Acknowledge { credit },
            PayloadRef::Finish => PayloadModel::Finish,
            PayloadRef::Reset => PayloadModel::Reset,
            PayloadRef::Push(data) => PayloadModel::Push { data: data@ },
            PayloadRef::Bind { target_host, target_port } => PayloadModel::Bind {
                host: target_host@,
                port: target_port,
            },
            PayloadRef::Datagram { target_host, target_port, data } => PayloadModel::Datagram {
                host: target_host@,
                port: target_port,
                data: data@,
            },
        }
    }
}

impl<'a> View for FrameRef<'a> {
    type V = FrameModel;

    open spec fn view(&self) -> FrameModel {
        FrameModel { id: self.id, payload: self.payload@ }
    }
}

impl<'a> FrameRef<'a> {
    /// Reads a frame from one binary message, without copying its
    /// payload.
    ///
    /// Fails with `TooShort` where the message ends early, with
    /// `UnknownOpcode` on an opcode outside the seven kinds, and with
    /// `InvalidHost` where a host is not UTF-8: exactly as [`parse_frame`]
    /// says.
    pub fn parse(message: &'a [u8]) -> (r: Result<FrameRef<'a>, FrameError>)
        ensures
            match (r, parse_frame(message@)) {
                (Ok(f), Ok(m)) => f@ == m,
                (Err(e), Err(m)) => e == m,
                _ => false,
            },
    {
        if message.len() < HEADER_LEN {
            return Err(FrameError::TooShort);
        }
        let id = get_be32(message, 0);
        let op = match OpCode::from_byte(message[4]) {
            Ok(op) => op,
            Err(e) => {
                return Err(e);
            },
        };
        let ghost body = message@.skip(5);
        let body_len: usize = message.len() - 5;
        let payload = match op {
            OpCode::Connect => {
                if body_len < 4 {
                    return Err(FrameError::TooShort);
                }
                let rwnd = get_be32(message, 5);
                assert(be32_at(body, 0) == rwnd);
                assert(body.skip(4) =~= message@.skip(9));
                match get_address(message, 9) {
                    Ok(a) => PayloadRef::Connect {
                        rwnd,
                        target_host: a.host,
                        target_port: a.port,
                    },
                    Err(e) => {
                        return Err(e);
                    },
                }
            },
            OpCode::Acknowledge => {
                if body_len < 4 {
                    return Err(FrameError::TooShort);
                }
                let credit = get_be32(message, 5);
                assert(be32_at(body, 0) == credit);
                PayloadRef::Acknowledge(credit)
            },
            OpCode::Finish => PayloadRef::Finish,
            OpCode::Reset => PayloadRef::Reset,
            OpCode::Push => {
                let data = slice_subrange(message, 5, message.len());
                assert(data@ =~= body);
                PayloadRef::Push(data)
            },
            OpCode::Bind => match get_address(message, 5) {
                Ok(a) => PayloadRef::Bind { target_host: a.host, target_port: a.port },
                Err(e) => {
                    return Err(e);
                },
            },
            OpCode::Datagram => match get_address(message, 5) {
                Ok(a) => {
                    let data = slice_subrange(message, 5 + a.len, message.len());
                    assert(data@ =~= body.skip(a.len as int));
                    PayloadRef::Datagram { target_host: a.host, target_port: a.port, data }
                },
                Err(e) => {
                    return Err(e);
                },
            },
        };
        Ok(FrameRef { id, payload })
    }

    /// Copies the frame out of the message it was read from.
    pub fn into_owned(self) -> (frame: Frame)
        ensures
            frame@ == self@,
    {
        let payload = match self.payload {
            PayloadRef::Connect { rwnd, target_host, target_port } => Payload::Connect(
                ConnectPayload { rwnd, target_host: slice_to_vec(target_host), target_port },
            ),
            PayloadRef::Acknowledge(credit) => Payload::Acknowledge(credit),
            PayloadRef::Finish => Payload::Finish,
            PayloadRef::Reset => Payload::Reset,
            PayloadRef::Push(data) => Payload::Push(slice_to_vec(data)),
            PayloadRef::Bind { target_host, target_port } => Payload::Bind(
                BindPayload { target_host: slice_to_vec(target_host), target_port },
            ),
            PayloadRef::Datagram { target_host, target_port, data } => Payload::Datagram(
                DatagramPayload {
                    target_host: slice_to_vec(target_host),
                    target_port,
                    data: slice_to_vec(data),
                },
            ),
        };
        Frame { id: self.id, payload }
    }
}

impl Frame {
    /// A frame that asks the peer to open a stream to `host:port`, and
    /// grants the peer `rwnd` pushes.
    pub fn new_connect(id: u32, host: Vec<u8>, port: u16, rwnd: u32) -> (f: Frame)
        ensures
            f@ == (FrameModel { id, payload: PayloadModel::Connect { rwnd, host: host@, port } }),
    {
        Frame {
            id,
            payload: Payload::Connect(
                ConnectPayload { rwnd, target_host: host, target_port: port },
            ),
        }
    }

    /// A frame that grants the peer `credit` pushes on flow `id`.
    pub fn new_acknowledge(id: u32, credit: u32) -> (f: Frame)
        ensures
            f@ == (FrameModel { id, payload: PayloadModel::Acknowledge { credit } }),
    {
        Frame { id, payload: Payload::Acknowledge(credit) }
    }

    /// A frame that ends our sending side of flow `id`.
    pub fn new_finish(id: u32) -> (f: Frame)
        ensures
            f@ == (FrameModel { id, payload: PayloadModel::Finish }),
    {
        Frame { id, payload: Payload::Finish }
    }

    /// A frame that tears flow `id` down.
    pub fn new_reset(id: u32) -> (f: Frame)
        ensures
            f@ == (FrameModel { id, payload: PayloadModel::Reset }),
    {
        Frame { id, payload: Payload::Reset }
    }

    /// A frame that carries stream bytes on flow `id`.
    pub fn new_push(id: u32, data: Vec<u8>) -> (f: Frame)
        ensures
            f@ == (FrameModel { id, payload: PayloadModel::Push { data: data@ } }),
    {
        Frame { id, payload: Payload::Push(data) }
    }

    /// A frame that asks the peer to bind `host:port`.
    pub fn new_bind(id: u32, host: Vec<u8>, port: u16) -> (f: Frame)
        ensures
            f@ == (FrameModel { id, payload: PayloadModel::Bind { host: host@, port } }),
    {
        Frame { id, payload: Payload::Bind(BindPayload { target_host: host, target_port: port }) }
    }

    /// A frame that carries one datagram for `host:port`.
    pub fn new_datagram(id: u32, host: Vec<u8>, port: u16, data: Vec<u8>) -> (f: Frame)
        ensures
            f@ == (FrameModel {
                id,
                payload: PayloadModel::Datagram { host: host@, port, data: data@ },
            }),
    {
        Frame {
            id,
            payload: Payload::Datagram(
                DatagramPayload { target_host: host, target_port: port, data },
            ),
        }
    }

    /// The kind of this frame.
    pub fn opcode(&self) -> (op: OpCode)
        ensures
            op == self@.payload.opcode(),
    {
        match &self.payload {
            Payload::Connect(_) => OpCode::Connect,
            Payload::Acknowledge(_) => OpCode::Acknowledge,
            Payload::Finish => OpCode::Finish,
            Payload::Reset => OpCode::Reset,
            Payload::Push(_) => OpCode::Push,
            Payload::Bind(_) => OpCode::Bind,
            Payload::Datagram(_) => OpCode::Datagram,
        }
    }

    /// Lays the frame out for the wire. Fails, with `HostTooLong`, exactly
    /// when the host does not fit its length byte.
    pub fn finalize(&self) -> (r: Result<FinalizedFrame, FrameError>)
        ensures
            self@.payload.encodable() ==> r is Ok && r->Ok_0@ == frame_bytes(self@),
            !self@.payload.encodable() ==> r == Err::<FinalizedFrame, FrameError>(
                FrameError::HostTooLong,
            ),
    {
        let mut out: Vec<u8> = Vec::new();
        put_be32(&mut out, self.id);
        out.push(self.opcode().to_byte());
        let ghost head = out@;
        assert(head =~= be32(self.id) + seq![self@.payload.opcode().wire()]);
        match &self.payload {
            Payload::Connect(c) => {
                if c.target_host.len() > MAX_HOST_LEN {
                    return Err(FrameError::HostTooLong);
                }
                put_be32(&mut out, c.rwnd);
                put_address(&mut out, c.target_host.as_slice(), c.target_port);
            },
            Payload::Acknowledge(credit) => {
                put_be32(&mut out, *credit);
            },
            Payload::Finish => {},
            Payload::Reset => {},
            Payload::Push(data) => {
                out.extend_from_slice(data.as_slice());
            },
            Payload::Bind(b) => {
                if b.target_host.len() > MAX_HOST_LEN {
                    return Err(FrameError::HostTooLong);
                }
                put_address(&mut out, b.target_host.as_slice(), b.target_port);
            },
            Payload::Datagram(d) => {
                if d.target_host.len() > MAX_HOST_LEN {
                    return Err(FrameError::HostTooLong);
                }
                put_address(&mut out, d.target_host.as_slice(), d.target_port);
                out.extend_from_slice(d.data.as_slice());
            },
        }
        assert(out@ =~= frame_bytes(self@));
        Ok(FinalizedFrame { bytes: out })
    }

    /// Reads a frame from one binary message, into a frame of its own
    /// that outlives the message.
    ///
    /// Fails with `TooShort` where the message ends early, with
    /// `UnknownOpcode` on an opcode outside the seven kinds, and with
    /// `InvalidHost` where a host is not UTF-8: exactly as [`parse_frame`]
    /// says.
    pub fn decode(message: &[u8]) -> (r: Result<Frame, FrameError>)
        ensures
            match (r, parse_frame(message@)) {
                (Ok(f), Ok(m)) => f@ == m,
                (Err(e), Err(m)) => e == m,
                _ => false,
            },
    {
        match FrameRef::parse(message) {
            Ok(frame) => Ok(frame.into_owned()),
            Err(e) => Err(e),
        }
    }
}

/// A frame laid out for the wire, or the empty marker that asks the send
/// pipeline to flush. The marker never goes on the wire.
#[derive(Clone, Debug, PartialEq, Eq)]
pub struct FinalizedFrame {
    bytes: Vec<u8>,
}

impl View for FinalizedFrame {
    type V = Seq<u8>;

    closed spec fn view(&self) -> Seq<u8> {
        self.bytes@
    }
}

impl FinalizedFrame {
    /// The marker that asks the send pipeline to flush.
    pub fn flush_marker() -> (f: FinalizedFrame)
        ensures
            f@ == Seq::<u8>::empty(),
    {
        FinalizedFrame { bytes: Vec::new() }
    }

    /// The laid-out `Reset` of flow `id`.
    pub fn reset(id: u32) -> (f: FinalizedFrame)
        ensures
            f@ == frame_bytes(FrameModel { id, payload: PayloadModel::Reset }),
    {
        let mut out: Vec<u8> = Vec::new();
        put_be32(&mut out, id);
        out.push(OpCode::Reset.to_byte());
        assert(out@ =~= frame_bytes(FrameModel { id, payload: PayloadModel::Reset }));
        FinalizedFrame { bytes: out }
    }

    /// The laid-out `Finish` of flow `id`.
    pub fn finish(id: u32) -> (f: FinalizedFrame)
        ensures
            f@ == frame_bytes(FrameModel { id, payload: PayloadModel::Finish }),
    {
        let mut out: Vec<u8> = Vec::new();
        put_be32(&mut out, id);
        out.push(OpCode::Finish.to_byte());
        assert(out@ =~= frame_bytes(FrameModel { id, payload: PayloadModel::Finish }));
        FinalizedFrame { bytes: out }
    }

    /// The laid-out `Acknowledge` that grants `credit` pushes on flow `id`.
    pub fn acknowledge(id: u32, credit: u32) -> (f: FinalizedFrame)
        ensures
            f@ == frame_bytes(FrameModel { id, payload: PayloadModel::Acknowledge { credit } }),
    {
        let mut out: Vec<u8> = Vec::new();
        put_be32(&mut out, id);
        out.push(OpCode::Acknowledge.to_byte());
        put_be32(&mut out, credit);
        assert(out@ =~= frame_bytes(
            FrameModel { id, payload: PayloadModel::Acknowledge { credit } },
        ));
        FinalizedFrame { bytes: out }
    }

    /// The laid-out `Push` of `data` on flow `id`.
    pub fn push(id: u32, data: &[u8]) -> (f: FinalizedFrame)
        ensures
            f@ == frame_bytes(FrameModel { id, payload: PayloadModel::Push { data: data@ } }),
    {
        let mut out: Vec<u8> = Vec::new();
        put_be32(&mut out, id);
        out.push(OpCode::Push.to_byte());
        out.extend_from_slice(data);
        assert(out@ =~= frame_bytes(
            FrameModel { id, payload: PayloadModel::Push { data: data@ } },
        ));
        FinalizedFrame { bytes: out }
    }

    /// Whether this is the flush marker.
    pub fn is_empty(&self) -> (empty: bool)
        ensures
            empty == (self@.len() == 0),
    {
        self.bytes.len() == 0
    }

    /// The kind of the laid-out frame, read from its opcode byte.
    pub fn opcode(&self) -> (r: Result<OpCode, FrameError>)
        ensures
            r == if self@.len() < HEADER_LEN {
                Err::<OpCode, FrameError>(FrameError::TooShort)
            } else {
                match OpCode::of_wire(self@[4]) {
                    Some(op) => Ok::<OpCode, FrameError>(op),
                    None => Err(FrameError::UnknownOpcode(self@[4])),
                }
            },
    {
        if self.bytes.len() < HEADER_LEN {
            Err(FrameError::TooShort)
        } else {
            OpCode::from_byte(self.bytes[4])
        }
    }

    /// The bytes that go on the wire.
    pub fn as_bytes(&self) -> (bytes: &[u8])
        ensures
            bytes@ == self@,
    {
        self.bytes.as_slice()
    }

    /// Gives up the frame for its bytes.
    pub fn into_bytes(self) -> (bytes: Vec<u8>)
        ensures
            bytes@ == self@,
    {
        self.bytes
    }
}

/// A laid-out frame is never the flush marker, and its opcode byte is that
/// of its kind.
pub proof fn lemma_frame_bytes_shape(f: FrameModel)
    ensures
        frame_bytes(f).len() >= HEADER_LEN,
        frame_bytes(f)[4] == f.payload.opcode().wire(),
        OpCode::of_wire(frame_bytes(f)[4]) == Some(f.payload.opcode()),
{
}

} // verus!
