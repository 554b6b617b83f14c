//! The multiplexor that runs inside one WebSocket connection.
//!
//! [`MultiplexorInner`] owns the flow table, the shared state of every
//! stream and the queue of frames for the peer. It does no I/O: the caller
//! feeds it the peer's messages and the user's reads and writes, sends what
//! it queues, and acts on what it hands back. Every step is proved to be the
//! step that [`MuxModel`] prescribes, and to keep the state well-formed.

use std::collections::VecDeque;
use vstd::prelude::*;
use vstd::slice::slice_to_vec;
use crate::flow::{FlowSlot, FlowTable};
use crate::frame::{frame_bytes, parse_frame, FinalizedFrame, Frame, Payload, MAX_HOST_LEN};
use crate::model::{
    finish_bytes, frames_only, lemma_close_port_wf, lemma_finish_wf, lemma_init_wf,
    lemma_process_dropped_wf, lemma_process_frame_wf, lemma_read_wf, lemma_release_wf,
    lemma_request_wf, lemma_send_wf, lemma_vacant_from, lemma_wf_rests_on, lemma_wind_down_wf,
    lemma_write_wf, reset_bytes, vacant_from, Config, DatagramModel, DispatchedModel,
    EndpointModel, MuxError, MuxModel, ReadModel, StreamModel, WriteModel,
};

verus! {

/// The window that a multiplexor grants unless told otherwise.
pub const DEFAULT_INITIAL_CREDIT: u32 = 32;

/// The views of the buffers in a queue.
pub open spec fn buffers(queue: Seq<Vec<u8>>) -> Seq<Seq<u8>> {
    queue.map_values(|b: Vec<u8>| b@)
}

/// The state that a stream's endpoint and the flow table share: the queue
/// that feeds the reader, whether `Finish` was sent, and the send credit.
pub struct EstablishedStreamData {
    flow_id: u32,
    inbound: VecDeque<Vec<u8>>,
    finish_sent: bool,
    send_credit: u32,
    attached: bool,
    receiver_open: bool,
    pushes_sent: Ghost<nat>,
    credit_granted: Ghost<nat>,
    finishes_sent: Ghost<nat>,
    resets_sent: Ghost<nat>,
}

impl View for EstablishedStreamData {
    type V = StreamModel;

    closed spec fn view(&self) -> StreamModel {
        StreamModel {
            flow_id: self.flow_id,
            inbound: buffers(self.inbound@),
            finish_sent: self.finish_sent,
            send_credit: self.send_credit,
            attached: self.attached,
            receiver_open: self.receiver_open,
            pushes_sent: self.pushes_sent@,
            credit_granted: self.credit_granted@,
            finishes_sent: self.finishes_sent@,
            resets_sent: self.resets_sent@,
        }
    }
}

/// The user's end of one stream.
///
/// It is used together with the multiplexor that made it: reads, writes
/// and the final release all take that multiplexor.
#[derive(Debug)]
pub struct MuxStream {
    key: usize,
    flow_id: u32,
    dest_host: Vec<u8>,
    dest_port: u16,
    residue: Vec<u8>,
    pushes_since_ack: u32,
    ack_threshold: u32,
}

impl View for MuxStream {
    type V = EndpointModel;

    closed spec fn view(&self) -> EndpointModel {
        EndpointModel {
            key: self.key as int,
            flow_id: self.flow_id,
            dest_host: self.dest_host@,
            dest_port: self.dest_port,
            residue: self.residue@,
            pushes_since_ack: self.pushes_since_ack,
            ack_threshold: self.ack_threshold,
        }
    }
}

/// A datagram that the peer sent.
#[derive(Clone, Debug, PartialEq, Eq)]
pub struct Datagram {
    pub flow_id: u32,
    pub target_host: Vec<u8>,
    pub target_port: u16,
    pub data: Vec<u8>,
}

impl View for Datagram {
    type V = DatagramModel;

    open spec fn view(&self) -> DatagramModel {
        DatagramModel {
            flow_id: self.flow_id,
            target_host: self.target_host@,
            target_port: self.target_port,
            data: self.data@,
        }
    }
}

/// A request of the peer that we bind an address for it. It is answered
/// with [`MultiplexorInner::reply_bind`].
#[derive(Clone, Debug, PartialEq, Eq)]
pub struct BindRequest {
    pub flow_id: u32,
    pub host: Vec<u8>,
    pub port: u16,
}

/// What the caller has to do after an event was processed.
#[derive(Debug)]
pub enum Dispatched {
    /// Nothing.
    Nothing,
    /// The peer opened a stream: hand the endpoint to whoever accepts.
    Accepted(MuxStream),
    /// The peer accepted our `Connect`: hand the endpoint to the waiter.
    Opened { reply: u64, stream: MuxStream },
    /// The peer reset our `Connect`: tell the waiter to try another id.
    OpenReset { reply: u64 },
    /// Our `Connect` was answered out of protocol: drop the waiter's handle.
    OpenDropped { reply: u64 },
    /// Our `Bind` was answered: tell the waiter whether the peer bound.
    BindAnswered { reply: u64, bound: bool },
    /// The peer asks us to bind: hand the request to the user.
    BindRequest(BindRequest),
    /// The peer sent a datagram: hand it to the user.
    Datagram(Datagram),
    /// The stream at this key changed: wake its reader and its writer.
    Wake { key: usize },
}

impl View for Dispatched {
    type V = DispatchedModel;

    open spec fn view(&self) -> DispatchedModel {
        match *self {
            Dispatched::Nothing => DispatchedModel::Nothing,
            Dispatched::Accepted(stream) => DispatchedModel::Accepted(stream@),
            Dispatched::Opened { reply, stream } => DispatchedModel::Opened {
                reply,
                stream: stream@,
            },
            Dispatched::OpenReset { reply } => DispatchedModel::OpenReset { reply },
            Dispatched::OpenDropped { reply } => DispatchedModel::OpenDropped { reply },
            Dispatched::BindAnswered { reply, bound } => DispatchedModel::BindAnswered {
                reply,
                bound,
            },
            Dispatched::BindRequest(request) => DispatchedModel::BindRequest {
                flow_id: request.flow_id,
                host: request.host@,
                port: request.port,
            },
            Dispatched::Datagram(datagram) => DispatchedModel::Datagram(datagram@),
            Dispatched::Wake { key } => DispatchedModel::Wake { key: key as int },
        }
    }
}

/// One message of the WebSocket, as far as the multiplexor looks at it.
#[derive(Clone, Debug, PartialEq, Eq)]
pub enum Message {
    Binary(Vec<u8>),
    Text,
    Ping,
    Pong,
    Close,
}

/// What came of one message.
#[derive(Debug)]
pub struct Processed {
    /// Whether the peer closed the connection with this message.
    pub closing: bool,
    /// What the caller has to do.
    pub dispatched: Dispatched,
}

/// What a read on a stream gives.
#[derive(Debug, PartialEq, Eq)]
pub enum ReadOutcome {
    /// These bytes, which are next in the stream.
    Data(Vec<u8>),
    /// The end of the stream.
    Eof,
    /// Nothing yet: wait to be woken.
    Pending,
}

impl View for ReadOutcome {
    type V = ReadModel;

    open spec fn view(&self) -> ReadModel {
        match *self {
            ReadOutcome::Data(bytes) => ReadModel::Data(bytes@),
            ReadOutcome::Eof => ReadModel::Eof,
            ReadOutcome::Pending => ReadModel::Pending,
        }
    }
}

/// What a write on a stream gives.
#[derive(Clone, Copy, Debug, PartialEq, Eq, Structural)]
pub enum WriteOutcome {
    /// So many bytes went out as one `Push`.
    Written(usize),
    /// The window is used up: wait to be woken.
    NoCredit,
    /// The stream can no longer be written to.
    BrokenPipe,
}

impl View for WriteOutcome {
    type V = WriteModel;

    open spec fn view(&self) -> WriteModel {
        match *self {
            WriteOutcome::Written(n) => WriteModel::Written(n as nat),
            WriteOutcome::NoCredit => WriteModel::NoCredit,
            WriteOutcome::BrokenPipe => WriteModel::BrokenPipe,
        }
    }
}

/// What came of looking at the dropped ids.
#[derive(Debug)]
pub enum DroppedStep {
    /// No dropped id is waiting.
    Idle,
    /// The multiplexor itself was dropped: stop, and drain what is queued.
    Shutdown,
    /// The port of a dropped endpoint was closed.
    Closed(Dispatched),
}

/// The multiplexor of one connection.
pub struct MultiplexorInner {
    flows: FlowTable,
    streams: Vec<EstablishedStreamData>,
    outbound: VecDeque<FinalizedFrame>,
    dropped: VecDeque<u32>,
    config: Config,
    closed: bool,
}

impl View for MultiplexorInner {
    type V = MuxModel;

    closed spec fn view(&self) -> MuxModel {
        MuxModel {
            flows: self.flows@,
            streams: self.streams@.map_values(|s: EstablishedStreamData| s@),
            outbound: self.outbound@.map_values(|f: FinalizedFrame| f@),
            dropped: self.dropped@,
            config: self.config,
            closed: self.closed,
        }
    }
}

impl MultiplexorInner {
    /// Whether the state is one that the protocol can reach.
    pub open spec fn wf(&self) -> bool {
        self@.wf()
    }

    /// Whether one more stream still has a place to be kept in.
    pub open spec fn has_room(&self) -> bool {
        self@.streams.len() < usize::MAX
    }

    /// A multiplexor with no flows, nothing queued and nothing dropped.
    pub fn new(config: Config) -> (mux: MultiplexorInner)
        ensures
            mux@ == MuxModel::init(config.clamped()),
            mux.wf(),
            mux.has_room(),
    {
        let config = Config::new(config.initial_credit, config.ack_threshold, config.accept_bind);
        let mux = MultiplexorInner {
            flows: FlowTable::new(),
            streams: Vec::new(),
            outbound: VecDeque::new(),
            dropped: VecDeque::new(),
            config,
            closed: false,
        };
        proof {
            lemma_init_wf(config);
            assert(mux@.streams =~= Seq::<StreamModel>::empty());
            assert(mux@.outbound =~= Seq::<Seq<u8>>::empty());
        }
        mux
    }

    /// The configuration in force.
    pub fn config(&self) -> (config: Config)
        ensures
            config == self@.config,
    {
        self.config
    }

    /// Whether the connection has wound down.
    pub fn is_closed(&self) -> (closed: bool)
        ensures
            closed == self@.closed,
    {
        self.closed
    }

    /// How many flows are in the flow table.
    pub fn flow_count(&self) -> (n: usize)
        ensures
            n == self@.flows.len(),
    {
        self.flows.len()
    }

    /// The slot of a flow id, if the id is in use.
    pub fn slot(&self, flow_id: u32) -> (slot: Option<FlowSlot>)
        ensures
            slot == self@.flows.get(flow_id),
    {
        self.flows.get(flow_id)
    }

    /// How many frames are queued for the peer.
    pub fn outbound_len(&self) -> (n: usize)
        ensures
            n == self@.outbound.len(),
    {
        self.outbound.len()
    }

    /// Whether `stream` is the endpoint of a stream that this multiplexor
    /// still keeps for the user.
    pub fn holds(&self, stream: &MuxStream) -> (held: bool)
        ensures
            held == self@.owns(stream@),
    {
        stream.key < self.streams.len() && self.streams[stream.key].receiver_open
            && self.streams[stream.key].flow_id == stream.flow_id
    }

    /// Queues a frame for the peer.
    fn queue(&mut self, frame: FinalizedFrame)
        ensures
            final(self)@ == old(self)@.send(frame@),
    {
        self.outbound.push_back(frame);
        assert(self@.outbound =~= old(self)@.outbound.push(frame@));
    }

    /// Takes the oldest queued frame, for the caller to send.
    pub fn next_outbound(&mut self) -> (frame: Option<FinalizedFrame>)
        ensures
            old(self)@.outbound.len() == 0 ==> frame is None && final(self)@ == old(self)@,
            old(self)@.outbound.len() > 0 ==> {
                &&& frame is Some
                &&& frame->Some_0@ == old(self)@.outbound[0]
                &&& final(self)@ == (MuxModel {
                    outbound: old(self)@.outbound.skip(1),
                    ..old(self)@
                })
            },
            old(self).wf() ==> final(self).wf(),
    {
        let frame = self.outbound.pop_front();
        proof {
            if old(self)@.outbound.len() > 0 {
                assert(self@.outbound =~= old(self)@.outbound.skip(1));
            }
            if old(self).wf() {
                lemma_wf_rests_on(old(self)@, self@);
            }
        }
        frame
    }

    /// Queues the flush marker: when the send loop comes to it, it flushes
    /// what it has buffered.
    pub fn request_flush(&mut self)
        requires
            old(self).wf(),
        ensures
            final(self)@ == old(self)@.send(Seq::empty()),
            final(self).wf(),
    {
        proof {
            lemma_send_wf(old(self)@, Seq::empty());
        }
        self.queue(FinalizedFrame::flush_marker());
    }

    /// Whether one more stream still has a place to be kept in: what
    /// [`MultiplexorInner::process_frame`] asks for.
    pub fn can_take_stream(&self) -> (room: bool)
        ensures
            room == self.has_room(),
    {
        self.streams.len() < usize::MAX
    }

    /// Keeps the shared state of a new stream at the first vacant place.
    fn alloc_stream(&mut self, flow_id: u32, peer_rwnd: u32) -> (key: usize)
        requires
            old(self).has_room(),
        ensures
            key == old(self)@.free_key(),
            final(self)@ == (MuxModel {
                streams: old(self)@.place(key as int, StreamModel::fresh(flow_id, peer_rwnd)),
                ..old(self)@
            }),
    {
        let fresh = EstablishedStreamData {
            flow_id,
            inbound: VecDeque::new(),
            finish_sent: false,
            send_credit: peer_rwnd,
            attached: true,
            receiver_open: true,
            pushes_sent: Ghost(0),
            credit_granted: Ghost(peer_rwnd as nat),
            finishes_sent: Ghost(0),
            resets_sent: Ghost(0),
        };
        assert(fresh@.inbound =~= Seq::<Seq<u8>>::empty());
        assert(fresh@ == StreamModel::fresh(flow_id, peer_rwnd));
        let mut i: usize = 0;
        while i < self.streams.len()
            invariant
                i <= self.streams@.len(),
                *self == *old(self),
                fresh@ == StreamModel::fresh(flow_id, peer_rwnd),
                vacant_from(self@.streams, 0) == vacant_from(self@.streams, i as int),
            decreases self.streams@.len() - i,
        {
            if !self.streams[i].attached && !self.streams[i].receiver_open {
                assert(self@.streams[i as int].vacant());
                self.streams.set(i, fresh);
                assert(self@.streams =~= old(self)@.streams.update(
                    i as int,
                    StreamModel::fresh(flow_id, peer_rwnd),
                ));
                return i;
            }
            assert(!self@.streams[i as int].vacant());
            i += 1;
        }
        self.streams.push(fresh);
        assert(self@.streams =~= old(self)@.streams.push(StreamModel::fresh(flow_id, peer_rwnd)));
        i
    }

    /// Makes both halves of a stream: keeps its shared state at the free
    /// key and returns the user's endpoint. The flow table is the caller's
    /// to change.
    fn new_stream_shared(
        &mut self,
        flow_id: u32,
        peer_rwnd: u32,
        dest_host: Vec<u8>,
        dest_port: u16,
    ) -> (stream: MuxStream)
        requires
            old(self).wf(),
            old(self).has_room(),
        ensures
            final(self)@ == (MuxModel {
                streams: old(self)@.place(
                    old(self)@.free_key(),
                    StreamModel::fresh(flow_id, peer_rwnd),
                ),
                ..old(self)@
            }),
            stream@ == old(self)@.new_endpoint(flow_id, peer_rwnd, dest_host@, dest_port),
            stream@.wf(),
            stream@.key < usize::MAX,
    {
        proof {
            lemma_vacant_from(old(self)@.streams, 0);
        }
        let key = self.alloc_stream(flow_id, peer_rwnd);
        let ack_threshold = if self.config.ack_threshold <= peer_rwnd {
            self.config.ack_threshold
        } else {
            peer_rwnd
        };
        MuxStream {
            key,
            flow_id,
            dest_host,
            dest_port,
            residue: Vec::new(),
            pushes_since_ack: 0,
            ack_threshold,
        }
    }

    /// Closes a port: takes the slot of `flow_id` out of the flow table.
    ///
    /// An established stream is detached: its reader is told the end, its
    /// writes fail from now on, and a `Reset` goes to the peer unless
    /// `Finish` was sent before or `inhibit_rst` is set. Someone who waits
    /// for the slot is told that the request failed.
    pub fn close_port(&mut self, flow_id: u32, inhibit_rst: bool) -> (signal: Dispatched)
        requires
            old(self).wf(),
        ensures
            final(self)@ == old(self)@.close_port(flow_id, inhibit_rst),
            signal@ == old(self)@.close_port_signal(flow_id),
            final(self).wf(),
    {
        proof {
            lemma_close_port_wf(old(self)@, flow_id, inhibit_rst);
        }
        match self.flows.remove(flow_id) {
            Some(FlowSlot::Established(key)) => {
                assert(old(self)@.flows.contains_key(flow_id));
                assert(key < self.streams@.len());
                let ghost before = self.streams@[key as int]@;
                let stream = &mut self.streams[key];
                if stream.receiver_open {
                    stream.inbound.push_back(Vec::new());
                }
                let reset = !stream.finish_sent && !inhibit_rst;
                stream.finish_sent = true;
                stream.attached = false;
                if reset {
                    stream.resets_sent = Ghost(stream.resets_sent@ + 1);
                }
                assert(stream@.inbound =~= before.detached(reset).inbound);
                assert(stream@ == before.detached(reset));
                assert(self@.streams =~= old(self)@.streams.update(
                    key as int,
                    before.detached(reset),
                ));
                if reset {
                    self.queue(FinalizedFrame::reset(flow_id));
                }
                Dispatched::Wake { key }
            },
            Some(FlowSlot::Requested(reply)) => Dispatched::OpenReset { reply },
            Some(FlowSlot::BindRequested(reply)) => Dispatched::BindAnswered {
                reply,
                bound: false,
            },
            None => {
                assert(self@.flows =~= old(self)@.flows);
                Dispatched::Nothing
            },
        }
    }

    /// The peer asks for a stream to `dest_host:dest_port` and grants
    /// `peer_rwnd` pushes. Flow id zero and a flow id that is in use are
    /// reset; any other is established and acknowledged, and the new
    /// endpoint is handed back.
    fn con_recv_new_stream(
        &mut self,
        flow_id: u32,
        dest_host: Vec<u8>,
        dest_port: u16,
        peer_rwnd: u32,
    ) -> (out: Dispatched)
        requires
            old(self).wf(),
            old(self).has_room(),
        ensures
            (final(self)@, out@) == old(self)@.on_connect(
                flow_id,
                peer_rwnd,
                dest_host@,
                dest_port,
            ),
    {
        if flow_id == 0 || self.flows.contains(flow_id) {
            self.queue(FinalizedFrame::reset(flow_id));
            return Dispatched::Nothing;
        }
        let stream = self.new_stream_shared(flow_id, peer_rwnd, dest_host, dest_port);
        self.flows.insert_established(flow_id, stream.key);
        self.queue(FinalizedFrame::acknowledge(flow_id, self.config.initial_credit));
        Dispatched::Accepted(stream)
    }

    /// The peer accepted our `Connect` on `flow_id` and grants `peer_rwnd`
    /// pushes: the slot becomes established, and the endpoint goes to the
    /// one who waits for it.
    fn ack_recv_new_stream(&mut self, flow_id: u32, peer_rwnd: u32) -> (out: Dispatched)
        requires
            old(self).wf(),
            old(self).has_room(),
            old(self)@.flows.get(flow_id) matches Some(FlowSlot::Requested(_)),
        ensures
            (final(self)@, out@) == old(self)@.on_acknowledge(flow_id, peer_rwnd),
    {
        let stream = self.new_stream_shared(flow_id, peer_rwnd, Vec::new(), 0);
        match self.flows.establish(flow_id, stream.key) {
            Some(reply) => Dispatched::Opened { reply, stream },
            // the slot is requested, so somebody waits
            None => Dispatched::Nothing,
        }
    }

    /// The peer acknowledges on `flow_id`.
    fn process_acknowledge(&mut self, flow_id: u32, credit: u32) -> (out: Dispatched)
        requires
            old(self).wf(),
            old(self).has_room(),
        ensures
            (final(self)@, out@) == old(self)@.on_acknowledge(flow_id, credit),
    {
        match self.flows.get(flow_id) {
            Some(FlowSlot::Established(key)) => {
                assert(self@.flows.contains_key(flow_id));
                let ghost before = self.streams@[key as int]@;
                let stream = &mut self.streams[key];
                stream.send_credit = stream.send_credit.wrapping_add(credit);
                stream.credit_granted = Ghost(stream.credit_granted@ + credit as nat);
                assert(self@.streams =~= old(self)@.streams.update(
                    key as int,
                    StreamModel {
                        send_credit: ((before.send_credit + credit) % 0x1_0000_0000) as u32,
                        credit_granted: before.credit_granted + credit as nat,
                        ..before
                    },
                ));
                Dispatched::Wake { key }
            },
            Some(FlowSlot::Requested(_)) => self.ack_recv_new_stream(flow_id, credit),
            Some(FlowSlot::BindRequested(reply)) => {
                self.flows.remove(flow_id);
                self.queue(FinalizedFrame::reset(flow_id));
                Dispatched::BindAnswered { reply, bound: false }
            },
            None => {
                self.queue(FinalizedFrame::reset(flow_id));
                Dispatched::Nothing
            },
        }
    }

    /// The peer finishes `flow_id`.
    fn process_finish(&mut self, flow_id: u32) -> (out: Dispatched)
        requires
            old(self).wf(),
        ensures
            (final(self)@, out@) == old(self)@.on_finish(flow_id),
    {
        match self.flows.get(flow_id) {
            Some(FlowSlot::Established(key)) => {
                assert(self@.flows.contains_key(flow_id));
                let ghost before = self.streams@[key as int]@;
                let stream = &mut self.streams[key];
                if stream.receiver_open {
                    stream.inbound.push_back(Vec::new());
                }
                assert(stream@.inbound =~= if before.receiver_open {
                    before.inbound.push(Seq::empty())
                } else {
                    before.inbound
                });
                assert(self@.streams =~= old(self)@.streams.update(
                    key as int,
                    StreamModel {
                        inbound: if before.receiver_open {
                            before.inbound.push(Seq::empty())
                        } else {
                            before.inbound
                        },
                        ..before
                    },
                ));
                Dispatched::Wake { key }
            },
            Some(FlowSlot::Requested(reply)) => {
                self.flows.remove(flow_id);
                self.queue(FinalizedFrame::reset(flow_id));
                Dispatched::OpenDropped { reply }
            },
            Some(FlowSlot::BindRequested(reply)) => {
                self.flows.remove(flow_id);
                Dispatched::BindAnswered { reply, bound: true }
            },
            None => Dispatched::Nothing,
        }
    }

    /// The peer pushes `data` on `flow_id`.
    fn process_push(&mut self, flow_id: u32, data: Vec<u8>) -> (out: Dispatched)
        requires
            old(self).wf(),
        ensures
            (final(self)@, out@) == old(self)@.on_push(flow_id, data@),
    {
        match self.flows.get(flow_id) {
            Some(FlowSlot::Established(key)) => {
                assert(self@.flows.contains_key(flow_id));
                if !self.streams[key].receiver_open {
                    return Dispatched::Nothing;
                }
                if self.streams[key].inbound.len() >= self.config.initial_credit as usize {
                    self.close_port(flow_id, false);
                    return Dispatched::Wake { key };
                }
                let ghost before = self.streams@[key as int]@;
                let stream = &mut self.streams[key];
                stream.inbound.push_back(data);
                assert(stream@.inbound =~= before.inbound.push(data@));
                assert(self@.streams =~= old(self)@.streams.update(
                    key as int,
                    StreamModel { inbound: before.inbound.push(data@), ..before },
                ));
                Dispatched::Wake { key }
            },
            _ => {
                self.queue(FinalizedFrame::reset(flow_id));
                Dispatched::Nothing
            },
        }
    }

    /// Processes one frame of the peer, as [`MuxModel::process_frame`]
    /// prescribes, and says what the caller has to do.
    pub fn process_frame(&mut self, frame: Frame) -> (out: Dispatched)
        requires
            old(self).wf(),
            old(self).has_room(),
        ensures
            (final(self)@, out@) == old(self)@.process_frame(frame@),
            final(self).wf(),
    {
        proof {
            lemma_vacant_from(old(self)@.streams, 0);
            lemma_process_frame_wf(old(self)@, frame@);
        }
        let flow_id = frame.id;
        match frame.payload {
            Payload::Connect(c) => self.con_recv_new_stream(
                flow_id,
                c.target_host,
                c.target_port,
                c.rwnd,
            ),
            Payload::Acknowledge(credit) => self.process_acknowledge(flow_id, credit),
            Payload::Finish => self.process_finish(flow_id),
            Payload::Reset => self.close_port(flow_id, true),
            Payload::Push(data) => self.process_push(flow_id, data),
            Payload::Bind(b) => {
                if self.config.accept_bind {
                    Dispatched::BindRequest(
                        BindRequest { flow_id, host: b.target_host, port: b.target_port },
                    )
                } else {
                    self.queue(FinalizedFrame::reset(flow_id));
                    Dispatched::Nothing
                }
            },
            Payload::Datagram(d) => Dispatched::Datagram(
                Datagram {
                    flow_id,
                    target_host: d.target_host,
                    target_port: d.target_port,
                    data: d.data,
                },
            ),
        }
    }

    /// Processes one message of the peer.
    ///
    /// A binary message is decoded and processed as a frame; one that is
    /// no frame is an error. Pings and pongs are ignored. A close message
    /// is reported as closing. A text message is an error.
    pub fn process_message(&mut self, message: Message) -> (out: Result<Processed, MuxError>)
        requires
            old(self).wf(),
            old(self).has_room(),
        ensures
            final(self).wf(),
            match message {
                Message::Binary(bytes) => match parse_frame(bytes@) {
                    Ok(frame) => {
                        &&& out is Ok
                        &&& !out->Ok_0.closing
                        &&& (final(self)@, out->Ok_0.dispatched@) == old(self)@.process_frame(frame)
                    },
                    Err(e) => out == Err::<Processed, MuxError>(MuxError::Frame(e)) && final(self)@
                        == old(self)@,
                },
                Message::Text => {
                    &&& out == Err::<Processed, MuxError>(MuxError::TextMessage)
                    &&& final(self)@ == old(self)@
                },
                Message::Close => {
                    &&& out is Ok
                    &&& out->Ok_0.closing
                    &&& out->Ok_0.dispatched is Nothing
                    &&& final(self)@ == old(self)@
                },
                _ => {
                    &&& out is Ok
                    &&& !out->Ok_0.closing
                    &&& out->Ok_0.dispatched is Nothing
                    &&& final(self)@ == old(self)@
                },
            },
    {
        match message {
            Message::Binary(bytes) => match Frame::decode(bytes.as_slice()) {
                Ok(frame) => {
                    let dispatched = self.process_frame(frame);
                    Ok(Processed { closing: false, dispatched })
                },
                Err(e) => Err(MuxError::Frame(e)),
            },
            Message::Ping => Ok(Processed { closing: false, dispatched: Dispatched::Nothing }),
            Message::Pong => Ok(Processed { closing: false, dispatched: Dispatched::Nothing }),
            Message::Close => Ok(Processed { closing: true, dispatched: Dispatched::Nothing }),
            Message::Text => Err(MuxError::TextMessage),
        }
    }

    /// Answers a bind request of the peer: `Finish` where we bound, `Reset`
    /// where we did not.
    pub fn reply_bind(&mut self, flow_id: u32, bound: bool)
        requires
            old(self).wf(),
        ensures
            final(self)@ == old(self)@.send(
                if bound {
                    finish_bytes(flow_id)
                } else {
                    reset_bytes(flow_id)
                },
            ),
            final(self).wf(),
    {
        proof {
            lemma_send_wf(
                old(self)@,
                if bound {
                    finish_bytes(flow_id)
                } else {
                    reset_bytes(flow_id)
                },
            );
        }
        if bound {
            self.queue(FinalizedFrame::finish(flow_id));
        } else {
            self.queue(FinalizedFrame::reset(flow_id));
        }
    }

    /// Notes that the user dropped the multiplexor: zero joins the dropped
    /// ids.
    pub fn shutdown(&mut self)
        requires
            old(self).wf(),
        ensures
            final(self)@ == old(self)@.shutdown(),
            final(self).wf(),
    {
        proof {
            lemma_release_wf(
                old(self)@,
                EndpointModel {
                    key: 0,
                    flow_id: 0,
                    dest_host: Seq::empty(),
                    dest_port: 0,
                    residue: Seq::empty(),
                    pushes_since_ack: 0,
                    ack_threshold: 0,
                },
            );
        }
        self.dropped.push_back(0);
    }

    /// Looks at the oldest dropped id. Zero means that the multiplexor
    /// itself was dropped; for any other id the port is closed, with a
    /// `Reset` to the peer unless `Finish` was sent.
    pub fn process_dropped_port(&mut self) -> (step: DroppedStep)
        requires
            old(self).wf(),
        ensures
            final(self)@ == old(self)@.process_dropped(),
            final(self).wf(),
            match step {
                DroppedStep::Idle => old(self)@.dropped.len() == 0,
                DroppedStep::Shutdown => old(self)@.dropped.len() > 0 && old(self)@.dropped[0] == 0,
                DroppedStep::Closed(signal) => {
                    &&& old(self)@.dropped.len() > 0
                    &&& old(self)@.dropped[0] != 0
                    &&& signal@ == old(self)@.close_port_signal(old(self)@.dropped[0])
                },
            },
    {
        proof {
            lemma_process_dropped_wf(old(self)@);
        }
        if self.dropped.len() == 0 {
            return DroppedStep::Idle;
        }
        let flow_id = self.dropped[0];
        if flow_id == 0 {
            self.dropped.pop_front();
            assert(self@.dropped =~= old(self)@.dropped.skip(1));
            DroppedStep::Shutdown
        } else {
            let signal = self.close_port(flow_id, false);
            self.dropped.pop_front();
            assert(self@.dropped =~= old(self)@.dropped.skip(1));
            assert(self@ == old(self)@.process_dropped());
            DroppedStep::Closed(signal)
        }
    }

    /// Looks at the dropped ids, oldest first, until none is left or the
    /// multiplexor's own zero was found, and closes the port of each.
    /// Returns whom to tell, in order, and whether the multiplexor itself
    /// was dropped: then the task ends, and what is queued is drained.
    pub fn process_dropped_ports_task(&mut self) -> (out: (Vec<Dispatched>, bool))
        requires
            old(self).wf(),
        ensures
            final(self)@ == old(self)@.process_dropped_ports(),
            out.0@.map_values(|d: Dispatched| d@) == old(self)@.dropped_signals(),
            out.1 == old(self)@.dropped.contains(0),
            final(self).wf(),
    {
        let mut signals: Vec<Dispatched> = Vec::new();
        assert(signals@.map_values(|d: Dispatched| d@) + self@.dropped_signals()
            =~= old(self)@.dropped_signals());
        loop
            invariant
                self.wf(),
                self@.process_dropped_ports() == old(self)@.process_dropped_ports(),
                signals@.map_values(|d: Dispatched| d@) + self@.dropped_signals()
                    == old(self)@.dropped_signals(),
                self@.dropped.contains(0) == old(self)@.dropped.contains(0),
            decreases self@.dropped.len(),
        {
            let ghost before = self@;
            let ghost told = signals@.map_values(|d: Dispatched| d@);
            match self.process_dropped_port() {
                DroppedStep::Idle => {
                    assert(told =~= old(self)@.dropped_signals());
                    return (signals, false);
                },
                DroppedStep::Shutdown => {
                    assert(before.dropped[0] == 0);
                    assert(told =~= old(self)@.dropped_signals());
                    return (signals, true);
                },
                DroppedStep::Closed(signal) => {
                    signals.push(signal);
                    assert(self@.dropped == before.dropped.skip(1));
                    assert(signals@.map_values(|d: Dispatched| d@) =~= told.push(signal@));
                    assert(signals@.map_values(|d: Dispatched| d@) + self@.dropped_signals()
                        =~= told + before.dropped_signals());
                    assert(self@.dropped.contains(0) == before.dropped.contains(0)) by {
                        if before.dropped.contains(0) {
                            let j = choose|j: int|
                                0 <= j < before.dropped.len() && before.dropped[j] == 0;
                            assert(self@.dropped[j - 1] == 0);
                        }
                        if self@.dropped.contains(0) {
                            let j = choose|j: int|
                                0 <= j < self@.dropped.len() && self@.dropped[j] == 0;
                            assert(before.dropped[j + 1] == 0);
                        }
                    }
                },
            }
        }
    }

    /// Asks the peer for a stream to `host:port`.
    ///
    /// The flow id is the first of `candidates` that is neither zero nor
    /// in use; the caller draws them at random. The slot waits as
    /// `Requested(reply)` and `Connect` goes out with our window. The
    /// request is refused once the connection has wound down, for a host
    /// of more than 255 octets, and where no candidate is free.
    pub fn open_stream(&mut self, candidates: &[u32], reply: u64, host: &[u8], port: u16) -> (r:
        Result<u32, MuxError>)
        requires
            old(self).wf(),
        ensures
            final(self)@ == old(self)@.open_stream(candidates@, reply, host@, port),
            match old(self)@.refusal(candidates@, host@) {
                Some(e) => r == Err::<u32, MuxError>(e),
                None => r == Ok::<u32, MuxError>(old(self)@.picked(candidates@)),
            },
            final(self).wf(),
    {
        proof {
            lemma_request_wf(old(self)@, candidates@, reply, host@, port);
        }
        if self.closed {
            return Err(MuxError::Closed);
        }
        if host.len() > MAX_HOST_LEN {
            return Err(MuxError::HostTooLong);
        }
        let id = match self.flows.allocate_requested(candidates, reply) {
            Some(id) => id,
            None => {
                return Err(MuxError::NoFreeId);
            },
        };
        let frame = Frame::new_connect(id, slice_to_vec(host), port, self.config.initial_credit);
        match frame.finalize() {
            Ok(bytes) => {
                self.queue(bytes);
                Ok(id)
            },
            Err(_) => Err(MuxError::HostTooLong),
        }
    }

    /// Asks the peer to bind `host:port`.
    ///
    /// The flow id is picked as in [`MultiplexorInner::open_stream`]. The
    /// slot waits as `BindRequested(reply)` and `Bind` goes out.
    pub fn request_bind(&mut self, candidates: &[u32], reply: u64, host: &[u8], port: u16) -> (r:
        Result<u32, MuxError>)
        requires
            old(self).wf(),
        ensures
            final(self)@ == old(self)@.request_bind(candidates@, reply, host@, port),
            match old(self)@.refusal(candidates@, host@) {
                Some(e) => r == Err::<u32, MuxError>(e),
                None => r == Ok::<u32, MuxError>(old(self)@.picked(candidates@)),
            },
            final(self).wf(),
    {
        proof {
            lemma_request_wf(old(self)@, candidates@, reply, host@, port);
        }
        if self.closed {
            return Err(MuxError::Closed);
        }
        if host.len() > MAX_HOST_LEN {
            return Err(MuxError::HostTooLong);
        }
        let id = match self.flows.allocate(candidates, FlowSlot::BindRequested(reply)) {
            Some(id) => id,
            None => {
                return Err(MuxError::NoFreeId);
            },
        };
        let frame = Frame::new_bind(id, slice_to_vec(host), port);
        match frame.finalize() {
            Ok(bytes) => {
                self.queue(bytes);
                Ok(id)
            },
            Err(_) => Err(MuxError::HostTooLong),
        }
    }

    /// Sends one datagram to `host:port` under the session id `flow_id`.
    /// It is refused once the connection has wound down, and for a host of
    /// more than 255 octets.
    pub fn send_datagram(&mut self, flow_id: u32, host: &[u8], port: u16, data: &[u8]) -> (r:
        Result<(), MuxError>)
        requires
            old(self).wf(),
        ensures
            final(self)@ == old(self)@.send_datagram(flow_id, host@, port, data@),
            match old(self)@.datagram_refusal(host@) {
                Some(e) => r == Err::<(), MuxError>(e),
                None => r is Ok,
            },
            final(self).wf(),
    {
        if self.closed {
            return Err(MuxError::Closed);
        }
        if host.len() > MAX_HOST_LEN {
            return Err(MuxError::HostTooLong);
        }
        let frame = Frame::new_datagram(flow_id, slice_to_vec(host), port, slice_to_vec(data));
        proof {
            lemma_send_wf(old(self)@, frame_bytes(frame@));
        }
        match frame.finalize() {
            Ok(bytes) => {
                self.queue(bytes);
                Ok(())
            },
            Err(_) => Err(MuxError::HostTooLong),
        }
    }

    /// First half of winding down, before what is queued is sent for the
    /// last time: every stream in the flow table is barred from writing,
    /// no stream is opened from now on, and no bind request is taken.
    pub fn begin_wind_down(&mut self)
        requires
            old(self).wf(),
        ensures
            final(self)@ == old(self)@.begin_wind_down(),
            final(self).wf(),
    {
        proof {
            lemma_wind_down_wf(old(self)@);
        }
        let ghost goal = old(self)@.begin_wind_down();
        let mut i: usize = 0;
        while i < self.streams.len()
            invariant
                i <= self.streams@.len(),
                self.streams@.len() == old(self).streams@.len(),
                self.flows == old(self).flows,
                self.outbound == old(self).outbound,
                self.dropped == old(self).dropped,
                self.config == old(self).config,
                self.closed == old(self).closed,
                goal == old(self)@.begin_wind_down(),
                forall|k: int| 0 <= k < i ==> (#[trigger] self.streams@[k])@ == goal.streams[k],
                forall|k: int|
                    i <= k < self.streams@.len() ==> #[trigger] self.streams@[k]
                        == old(self).streams@[k],
            decreases self.streams@.len() - i,
        {
            if self.streams[i].attached {
                let stream = &mut self.streams[i];
                stream.finish_sent = true;
            }
            i += 1;
        }
        self.config.accept_bind = false;
        self.closed = true;
        assert(self@.streams =~= goal.streams);
    }

    /// Takes what is queued, for the caller to send for the last time: the
    /// frames, oldest first. The flush markers among them are left out, so
    /// that none is ever put on the wire. Where `should_drain` is not set
    /// the peer is gone: nothing is taken.
    pub fn drain_outbound(&mut self, should_drain: bool) -> (frames: Vec<FinalizedFrame>)
        requires
            old(self).wf(),
        ensures
            should_drain ==> {
                &&& frames@.map_values(|f: FinalizedFrame| f@) == frames_only(old(self)@.outbound)
                &&& final(self)@ == (MuxModel { outbound: Seq::empty(), ..old(self)@ })
            },
            !should_drain ==> frames@.len() == 0 && final(self)@ == old(self)@,
            forall|i: int| 0 <= i < frames@.len() ==> (#[trigger] frames@[i])@.len() > 0,
            final(self).wf(),
    {
        let mut frames: Vec<FinalizedFrame> = Vec::new();
        if should_drain {
            let ghost mut taken: int = 0;
            assert(old(self)@.outbound.take(0) =~= Seq::<Seq<u8>>::empty());
            assert(frames@.map_values(|f: FinalizedFrame| f@) =~= Seq::<Seq<u8>>::empty());
            assert(self@.outbound =~= old(self)@.outbound.skip(0));
            while self.outbound.len() > 0
                invariant
                    self.flows == old(self).flows,
                    self.streams == old(self).streams,
                    self.dropped == old(self).dropped,
                    self.config == old(self).config,
                    self.closed == old(self).closed,
                    0 <= taken <= old(self)@.outbound.len(),
                    self@.outbound == old(self)@.outbound.skip(taken),
                    frames@.map_values(|f: FinalizedFrame| f@) == frames_only(
                        old(self)@.outbound.take(taken),
                    ),
                    forall|i: int| 0 <= i < frames@.len() ==> (#[trigger] frames@[i])@.len() > 0,
                decreases self.outbound@.len(),
            {
                let ghost before = frames@.map_values(|f: FinalizedFrame| f@);
                let ghost queued = self@.outbound;
                assert(queued.len() == self.outbound@.len());
                assert(taken < old(self)@.outbound.len());
                match self.outbound.pop_front() {
                    Some(frame) => {
                        proof {
                            let all = old(self)@.outbound;
                            assert(frame@ == queued[0]);
                            assert(frame@ == all[taken]);
                            assert(all.take(taken + 1).drop_last() =~= all.take(taken));
                            assert(all.take(taken + 1).last() == all[taken]);
                            assert(self@.outbound =~= queued.skip(1));
                            assert(queued.skip(1) =~= all.skip(taken + 1));
                        }
                        if !frame.is_empty() {
                            frames.push(frame);
                            assert(frames@.map_values(|f: FinalizedFrame| f@) =~= before.push(
                                frame@,
                            ));
                        }
                        proof {
                            taken = taken + 1;
                        }
                    },
                    None => {},
                }
            }
            assert(old(self)@.outbound.take(taken) =~= old(self)@.outbound);
            assert(self@.outbound =~= Seq::<Seq<u8>>::empty());
        }
        proof {
            lemma_wf_rests_on(old(self)@, self@);
        }
        frames
    }

    /// Second half of winding down, after the last messages of the peer
    /// were processed: the flow table is emptied and every stream that was
    /// in it is told the end. Requests that still wait are abandoned: the
    /// caller drops their reply handles.
    pub fn finish_wind_down(&mut self)
        requires
            old(self).wf(),
        ensures
            final(self)@ == old(self)@.finish_wind_down(),
            final(self).wf(),
    {
        proof {
            lemma_wind_down_wf(old(self)@);
        }
        let ghost goal = old(self)@.finish_wind_down();
        let mut i: usize = 0;
        while i < self.streams.len()
            invariant
                i <= self.streams@.len(),
                self.streams@.len() == old(self).streams@.len(),
                self.flows == old(self).flows,
                self.outbound == old(self).outbound,
                self.dropped == old(self).dropped,
                self.config == old(self).config,
                self.closed == old(self).closed,
                goal == old(self)@.finish_wind_down(),
                forall|k: int| 0 <= k < i ==> (#[trigger] self.streams@[k])@ == goal.streams[k],
                forall|k: int|
                    i <= k < self.streams@.len() ==> #[trigger] self.streams@[k]
                        == old(self).streams@[k],
            decreases self.streams@.len() - i,
        {
            if self.streams[i].attached {
                let ghost before = self.streams@[i as int]@;
                let stream = &mut self.streams[i];
                if stream.receiver_open {
                    stream.inbound.push_back(Vec::new());
                }
                stream.finish_sent = true;
                stream.attached = false;
                assert(stream@.inbound =~= before.detached(false).inbound);
            }
            i += 1;
        }
        self.flows.clear();
        self.closed = true;
        assert(self@.streams =~= goal.streams);
    }
}

impl MuxStream {
    /// Whether the endpoint is in a state that reads can reach.
    pub open spec fn wf(&self) -> bool {
        self@.wf()
    }

    /// The flow id that the stream was established under.
    pub fn flow_id(&self) -> (id: u32)
        ensures
            id == self@.flow_id,
    {
        self.flow_id
    }

    /// Where the multiplexor keeps the shared state of the stream.
    pub fn key(&self) -> (key: usize)
        ensures
            key == self@.key,
    {
        self.key
    }

    /// The host that the peer asked for; empty on the side that opened the
    /// stream.
    pub fn dest_host(&self) -> (host: &[u8])
        ensures
            host@ == self@.dest_host,
    {
        self.dest_host.as_slice()
    }

    /// The port that the peer asked for; zero on the side that opened the
    /// stream.
    pub fn dest_port(&self) -> (port: u16)
        ensures
            port == self@.dest_port,
    {
        self.dest_port
    }

    /// After how many delivered `Push` frames the stream acknowledges
    /// them: the configured threshold, but never more than the peer's
    /// window.
    pub fn ack_threshold(&self) -> (threshold: u32)
        ensures
            threshold == self@.ack_threshold,
    {
        self.ack_threshold
    }

    /// Reads at most `max` bytes, as [`MuxModel::read`] prescribes.
    ///
    /// Every buffer taken from the inbound queue counts as one delivered
    /// `Push`; with the one that reaches the threshold an `Acknowledge`
    /// for all of them is queued.
    pub fn read(&mut self, mux: &mut MultiplexorInner, max: usize) -> (out: ReadOutcome)
        requires
            old(mux).wf(),
            old(self).wf(),
        ensures
            (final(mux)@, final(self)@, out@) == old(mux)@.read(old(self)@, max as nat),
            final(mux).wf(),
            final(self).wf(),
    {
        proof {
            lemma_read_wf(old(mux)@, old(self)@, max as nat);
        }
        if max == 0 {
            return ReadOutcome::Data(Vec::new());
        }
        if self.residue.len() > 0 {
            let n = if max < self.residue.len() {
                max
            } else {
                self.residue.len()
            };
            let mut taken = self.residue.split_off(n);
            std::mem::swap(&mut self.residue, &mut taken);
            return ReadOutcome::Data(taken);
        }
        if !mux.holds(self) {
            return ReadOutcome::Eof;
        }
        let ghost before = mux.streams@[self.key as int]@;
        let stream = &mut mux.streams[self.key];
        let attached = stream.attached;
        let ghost queue = stream.inbound@;
        match stream.inbound.pop_front() {
            None => {
                assert(before.inbound.len() == 0);
                assert(mux@.streams =~= old(mux)@.streams);
                if attached {
                    ReadOutcome::Pending
                } else {
                    ReadOutcome::Eof
                }
            },
            Some(buf) => {
                let mut buf = buf;
                assert(buf@ == before.inbound[0]);
                assert(stream@.inbound =~= before.inbound.skip(1));
                assert(mux@.streams =~= old(mux)@.streams.update(
                    self.key as int,
                    StreamModel { inbound: before.inbound.skip(1), ..before },
                ));
                if buf.len() == 0 {
                    return ReadOutcome::Eof;
                }
                let count = self.pushes_since_ack + 1;
                if count >= self.ack_threshold {
                    mux.queue(FinalizedFrame::acknowledge(self.flow_id, count));
                    self.pushes_since_ack = 0;
                } else {
                    self.pushes_since_ack = count;
                }
                let n = if max < buf.len() {
                    max
                } else {
                    buf.len()
                };
                let rest = buf.split_off(n);
                self.residue = rest;
                assert(buf@ =~= before.inbound[0].take(n as int));
                assert(self.residue@ =~= before.inbound[0].skip(n as int));
                ReadOutcome::Data(buf)
            },
        }
    }

    /// Writes `data` as one `Push`, as [`MuxModel::write`] prescribes: it
    /// costs one credit, waits where none is left, and fails once the
    /// sending side is finished.
    pub fn write(&self, mux: &mut MultiplexorInner, data: &[u8]) -> (out: WriteOutcome)
        requires
            old(mux).wf(),
        ensures
            (final(mux)@, out@) == old(mux)@.write(self@, data@),
            final(mux).wf(),
    {
        proof {
            lemma_write_wf(old(mux)@, self@, data@);
        }
        if !mux.holds(self) || mux.streams[self.key].finish_sent {
            return WriteOutcome::BrokenPipe;
        }
        if mux.streams[self.key].send_credit == 0 {
            return WriteOutcome::NoCredit;
        }
        let ghost before = mux.streams@[self.key as int]@;
        let stream = &mut mux.streams[self.key];
        stream.send_credit = stream.send_credit - 1;
        stream.pushes_sent = Ghost(stream.pushes_sent@ + 1);
        assert(mux@.streams =~= old(mux)@.streams.update(
            self.key as int,
            StreamModel {
                send_credit: (before.send_credit - 1) as u32,
                pushes_sent: before.pushes_sent + 1,
                ..before
            },
        ));
        mux.queue(FinalizedFrame::push(self.flow_id, data));
        WriteOutcome::Written(data.len())
    }

    /// Finishes the sending side: `Finish` goes out, once. Later calls,
    /// and calls on a stream that was torn down, do nothing. Returns
    /// whether `Finish` went out.
    pub fn finish(&self, mux: &mut MultiplexorInner) -> (sent: bool)
        requires
            old(mux).wf(),
        ensures
            final(mux)@ == old(mux)@.finish(self@),
            sent == (old(mux)@.owns(self@) && !old(mux)@.streams[self@.key].finish_sent),
            final(mux).wf(),
    {
        proof {
            lemma_finish_wf(old(mux)@, self@);
        }
        if !mux.holds(self) || mux.streams[self.key].finish_sent {
            return false;
        }
        let ghost before = mux.streams@[self.key as int]@;
        let stream = &mut mux.streams[self.key];
        stream.finish_sent = true;
        stream.finishes_sent = Ghost(stream.finishes_sent@ + 1);
        assert(mux@.streams =~= old(mux)@.streams.update(
            self.key as int,
            StreamModel { finish_sent: true, finishes_sent: before.finishes_sent + 1, ..before },
        ));
        mux.queue(FinalizedFrame::finish(self.flow_id));
        true
    }

    /// Gives the endpoint up. What it had not read is gone, and its flow
    /// id joins the dropped ids, for
    /// [`MultiplexorInner::process_dropped_port`] to close the port.
    pub fn release(self, mux: &mut MultiplexorInner)
        requires
            old(mux).wf(),
        ensures
            final(mux)@ == old(mux)@.release(self@),
            final(mux).wf(),
    {
        proof {
            lemma_release_wf(old(mux)@, self@);
        }
        if !mux.holds(&self) {
            return ;
        }
        let ghost before = mux.streams@[self.key as int]@;
        let stream = &mut mux.streams[self.key];
        stream.receiver_open = false;
        stream.inbound.clear();
        assert(stream@.inbound =~= Seq::<Seq<u8>>::empty());
        assert(mux@.streams =~= old(mux)@.streams.update(
            self.key as int,
            StreamModel { receiver_open: false, inbound: Seq::empty(), ..before },
        ));
        mux.dropped.push_back(self.flow_id);
    }
}

} // verus!
