//! The multiplexor as a mathematical state machine.
//!
//! One value of [`MuxModel`] is everything one end of the tunnel knows: the
//! flow table, the shared state of every stream, the frames queued for the
//! peer and the flow ids whose endpoints were dropped. Each event (a frame
//! from the peer, a read or write by the user, a dropped endpoint, the end
//! of the connection) is a function from one such value to the next. The
//! executable multiplexor is proved to follow these functions step by step.

use vstd::prelude::*;
use crate::flow::{first_free, lemma_first_free, FlowSlot};
use crate::frame::{frame_bytes, FrameError, FrameModel, PayloadModel, MAX_HOST_LEN};

verus! {

/// The tunable parts of the protocol.
#[derive(Clone, Copy, Debug, PartialEq, Eq, Structural)]
pub struct Config {
    /// How many `Push` frames the peer may send on a stream before it has
    /// to wait for an `Acknowledge`. Also the bound of a stream's inbound
    /// queue.
    pub initial_credit: u32,
    /// After how many delivered `Push` frames a stream acknowledges them.
    /// Never more than `initial_credit`.
    pub ack_threshold: u32,
    /// Whether `Bind` requests of the peer are handed to the user.
    pub accept_bind: bool,
}

impl Config {
    /// A configuration with the given window and acknowledge threshold.
    /// The threshold is clamped to the window.
    pub fn new(initial_credit: u32, ack_threshold: u32, accept_bind: bool) -> (config: Config)
        ensures
            config == (Config {
                initial_credit,
                ack_threshold: min_u32(ack_threshold, initial_credit),
                accept_bind,
            }),
    {
        Config {
            initial_credit,
            ack_threshold: if ack_threshold <= initial_credit {
                ack_threshold
            } else {
                initial_credit
            },
            accept_bind,
        }
    }

    /// The same configuration with the threshold clamped to the window.
    pub open spec fn clamped(self) -> Config {
        Config { ack_threshold: min_u32(self.ack_threshold, self.initial_credit), ..self }
    }
}

/// The state that a stream's endpoint and the flow table share.
pub struct StreamModel {
    /// The flow id the stream was established under.
    pub flow_id: u32,
    /// Buffers on their way to the reader. An empty buffer marks the end.
    pub inbound: Seq<Seq<u8>>,
    /// Set once `Finish` was sent or the stream left the flow table. Writes
    /// fail from then on.
    pub finish_sent: bool,
    /// How many `Push` frames may still be sent before an `Acknowledge`.
    pub send_credit: u32,
    /// Whether the flow table still holds the stream.
    pub attached: bool,
    /// Whether the user still holds the endpoint.
    pub receiver_open: bool,
    /// How many `Push` frames the stream has sent.
    pub pushes_sent: nat,
    /// The peer's initial window, plus every credit it has granted since.
    pub credit_granted: nat,
    /// How many `Finish` frames the stream has sent.
    pub finishes_sent: nat,
    /// How many `Reset` frames were sent to tear the stream down.
    pub resets_sent: nat,
}

impl StreamModel {
    /// The shared state of a stream that was just established with a peer
    /// whose window is `peer_rwnd`.
    pub open spec fn fresh(flow_id: u32, peer_rwnd: u32) -> StreamModel {
        StreamModel {
            flow_id,
            inbound: Seq::empty(),
            finish_sent: false,
            send_credit: peer_rwnd,
            attached: true,
            receiver_open: true,
            pushes_sent: 0,
            credit_granted: peer_rwnd as nat,
            finishes_sent: 0,
            resets_sent: 0,
        }
    }

    /// Whether both the flow table and the user have let go of the state,
    /// so that its place can be given to another stream.
    pub open spec fn vacant(self) -> bool {
        !self.attached && !self.receiver_open
    }

    /// What holds of every stream at every moment.
    pub open spec fn wf(self) -> bool {
        &&& self.pushes_sent + self.send_credit <= self.credit_granted
        &&& self.finishes_sent + self.resets_sent <= 1
        &&& self.finishes_sent + self.resets_sent == 1 ==> self.finish_sent
        &&& !self.attached ==> self.finish_sent
        &&& !self.receiver_open ==> self.inbound.len() == 0
    }

    /// The stream after the flow table let go of it: the reader is told
    /// the end, writes fail from now on, and `reset` says whether a `Reset`
    /// went to the peer.
    pub open spec fn detached(self, reset: bool) -> StreamModel {
        StreamModel {
            inbound: if self.receiver_open {
                self.inbound.push(Seq::empty())
            } else {
                self.inbound
            },
            finish_sent: true,
            attached: false,
            resets_sent: if reset {
                self.resets_sent + 1nat
            } else {
                self.resets_sent
            },
            ..self
        }
    }
}

/// The user's end of a stream.
pub struct EndpointModel {
    /// Where the shared state of the stream lies.
    pub key: int,
    pub flow_id: u32,
    /// The target the peer asked for; empty on the side that opened the
    /// stream.
    pub dest_host: Seq<u8>,
    pub dest_port: u16,
    /// Bytes of the last buffer that the reader has not taken yet.
    pub residue: Seq<u8>,
    /// `Push` frames delivered since the last `Acknowledge`.
    pub pushes_since_ack: u32,
    /// After how many delivered `Push` frames an `Acknowledge` is due.
    pub ack_threshold: u32,
}

impl EndpointModel {
    /// What holds of every endpoint at every moment: fewer pushes are
    /// unacknowledged than the threshold asks for.
    pub open spec fn wf(self) -> bool {
        &&& 0 <= self.key
        &&& self.pushes_since_ack == 0 || self.pushes_since_ack < self.ack_threshold
    }
}

/// A datagram as the multiplexor hands it to the user.
pub struct DatagramModel {
    pub flow_id: u32,
    pub target_host: Seq<u8>,
    pub target_port: u16,
    pub data: Seq<u8>,
}

/// What the caller has to do after an event was processed.
pub enum DispatchedModel {
    /// Nothing.
    Nothing,
    /// The peer opened a stream: hand the endpoint to whoever accepts.
    Accepted(EndpointModel),
    /// The peer accepted our `Connect`: hand the endpoint to the waiter.
    Opened { reply: u64, stream: EndpointModel },
    /// The peer reset our `Connect`: tell the waiter to try another id.
    OpenReset { reply: u64 },
    /// Our `Connect` was answered out of protocol: drop the waiter's handle.
    OpenDropped { reply: u64 },
    /// Our `Bind` was answered: tell the waiter whether the peer bound.
    BindAnswered { reply: u64, bound: bool },
    /// The peer asks us to bind: hand the request to the user.
    BindRequest { flow_id: u32, host: Seq<u8>, port: u16 },
    /// The peer sent a datagram: hand it to the user.
    Datagram(DatagramModel),
    /// The stream at this key changed: wake its reader and its writer.
    Wake { key: int },
}

/// Why the multiplexor refused or gave up.
#[derive(Clone, Copy, Debug, PartialEq, Eq, Structural)]
pub enum MuxError {
    /// The connection has wound down.
    Closed,
    /// The peer sent a text message.
    TextMessage,
    /// The peer sent a message that is no frame.
    Frame(FrameError),
    /// The host does not fit a frame.
    HostTooLong,
    /// None of the candidates could name a new flow.
    NoFreeId,
    /// Nobody is left to take the stream that the peer opened.
    SendStreamToClient,
    /// The transport failed.
    WebSocket,
}

/// What a read on a stream gives.
pub enum ReadModel {
    /// These bytes, which are next in the stream.
    Data(Seq<u8>),
    /// The end of the stream.
    Eof,
    /// Nothing yet: wait to be woken.
    Pending,
}

/// What a write on a stream gives.
pub enum WriteModel {
    /// So many bytes went out as one `Push`.
    Written(nat),
    /// The window is used up: wait to be woken.
    NoCredit,
    /// The stream can no longer be written to.
    BrokenPipe,
}

/// Everything one end of the tunnel knows.
pub struct MuxModel {
    pub flows: Map<u32, FlowSlot>,
    pub streams: Seq<StreamModel>,
    /// Laid-out frames on their way to the peer, oldest first.
    pub outbound: Seq<Seq<u8>>,
    /// Flow ids of dropped endpoints, oldest first; zero stands for the
    /// multiplexor itself.
    pub dropped: Seq<u32>,
    pub config: Config,
    /// Set when the connection winds down. No stream is opened after that.
    pub closed: bool,
}

/// The laid-out `Reset` of flow `id`.
pub open spec fn reset_bytes(id: u32) -> Seq<u8> {
    frame_bytes(FrameModel { id, payload: PayloadModel::Reset })
}

/// The laid-out `Finish` of flow `id`.
pub open spec fn finish_bytes(id: u32) -> Seq<u8> {
    frame_bytes(FrameModel { id, payload: PayloadModel::Finish })
}

/// The laid-out `Acknowledge` that grants `credit` on flow `id`.
pub open spec fn acknowledge_bytes(id: u32, credit: u32) -> Seq<u8> {
    frame_bytes(FrameModel { id, payload: PayloadModel::Acknowledge { credit } })
}

/// The laid-out `Push` of `data` on flow `id`.
pub open spec fn push_bytes(id: u32, data: Seq<u8>) -> Seq<u8> {
    frame_bytes(FrameModel { id, payload: PayloadModel::Push { data } })
}

/// The frames in a queue, in their order, without the flush markers among
/// them.
pub open spec fn frames_only(queue: Seq<Seq<u8>>) -> Seq<Seq<u8>>
    decreases queue.len(),
{
    if queue.len() == 0 {
        Seq::empty()
    } else if queue.last().len() > 0 {
        frames_only(queue.drop_last()).push(queue.last())
    } else {
        frames_only(queue.drop_last())
    }
}

/// Leaving the flush markers out loses no frame and lets no marker
/// through: what is left is frames only, and every frame of the queue is
/// among it.
pub proof fn law_frames_only(queue: Seq<Seq<u8>>)
    ensures
        forall|i: int|
            0 <= i < frames_only(queue).len() ==> (#[trigger] frames_only(queue)[i]).len() > 0,
        forall|i: int|
            0 <= i < queue.len() && queue[i].len() > 0 ==> frames_only(queue).contains(
                #[trigger] queue[i],
            ),
        frames_only(queue).len() <= queue.len(),
    decreases queue.len(),
{
    if queue.len() > 0 {
        let front = queue.drop_last();
        law_frames_only(front);
        let out = frames_only(queue);
        assert forall|i: int| 0 <= i < queue.len() && queue[i].len() > 0 implies out.contains(
            #[trigger] queue[i],
        ) by {
            if i == queue.len() - 1 {
                assert(out[out.len() - 1] == queue[i]);
            } else {
                assert(front[i] == queue[i]);
                let j = choose|j: int|
                    0 <= j < frames_only(front).len() && frames_only(front)[j] == queue[i];
                assert(out[j] == queue[i]);
            }
        }
    }
}

/// The smaller of two numbers.
pub open spec fn min_u32(a: u32, b: u32) -> u32 {
    if a <= b {
        a
    } else {
        b
    }
}

/// The first vacant place among `streams` at or behind `from`; the length
/// of `streams` where there is none.
pub open spec fn vacant_from(streams: Seq<StreamModel>, from: int) -> int
    decreases streams.len() - from,
{
    if from < 0 || from >= streams.len() {
        streams.len() as int
    } else if streams[from].vacant() {
        from
    } else {
        vacant_from(streams, from + 1)
    }
}

/// `vacant_from` stays within bounds, and what it finds is vacant.
pub proof fn lemma_vacant_from(streams: Seq<StreamModel>, from: int)
    requires
        0 <= from <= streams.len(),
    ensures
        from <= vacant_from(streams, from) <= streams.len(),
        vacant_from(streams, from) < streams.len() ==> streams[vacant_from(streams, from)].vacant(),
    decreases streams.len() - from,
{
    if from < streams.len() && !streams[from].vacant() {
        lemma_vacant_from(streams, from + 1);
    }
}

impl MuxModel {
    /// The state of a multiplexor that was just made.
    pub open spec fn init(config: Config) -> MuxModel {
        MuxModel {
            flows: Map::empty(),
            streams: Seq::empty(),
            outbound: Seq::empty(),
            dropped: Seq::empty(),
            config,
            closed: false,
        }
    }

    /// What holds of the multiplexor at every moment.
    ///
    /// No flow goes under id zero. Established slots and attached streams
    /// stand in one-to-one correspondence, and an attached stream whose
    /// endpoint was dropped has its flow id waiting among the dropped ids.
    pub open spec fn wf(self) -> bool {
        &&& self.flows.dom().finite()
        &&& self.streams.len() <= usize::MAX
        &&& self.config.ack_threshold <= self.config.initial_credit
        &&& forall|id: u32| #[trigger] self.flows.contains_key(id) ==> self.slot_wf(id)
        &&& forall|k: int| 0 <= k < self.streams.len() ==> #[trigger] self.stream_wf(k)
    }

    /// Whether the slot of `id` tells the truth: the id is not zero, and
    /// an established slot names a stream that is attached, under that id.
    pub open spec fn slot_wf(self, id: u32) -> bool {
        &&& id != 0
        &&& self.flows[id] matches FlowSlot::Established(k) ==> {
            &&& k < self.streams.len()
            &&& self.streams[k as int].attached
            &&& self.streams[k as int].flow_id == id
        }
    }

    /// Whether the stream at `key` is well-formed and in its place: an
    /// attached stream is named by the slot of its flow id, and one whose
    /// endpoint was dropped has its flow id among the dropped ids.
    pub open spec fn stream_wf(self, key: int) -> bool {
        let stream = self.streams[key];
        &&& stream.wf()
        &&& stream.attached ==> {
            &&& self.flows.contains_key(stream.flow_id)
            &&& self.flows[stream.flow_id] == FlowSlot::Established(key as usize)
        }
        &&& stream.attached && !stream.receiver_open ==> self.dropped.contains(stream.flow_id)
    }

    /// Whether `ep` is the endpoint of a stream that the user still holds.
    pub open spec fn owns(self, ep: EndpointModel) -> bool {
        &&& 0 <= ep.key < self.streams.len()
        &&& self.streams[ep.key].receiver_open
        &&& self.streams[ep.key].flow_id == ep.flow_id
    }

    /// The state with one more frame queued for the peer.
    pub open spec fn send(self, frame: Seq<u8>) -> MuxModel {
        MuxModel { outbound: self.outbound.push(frame), ..self }
    }

    /// Where the shared state of the next new stream will lie.
    pub open spec fn free_key(self) -> int {
        vacant_from(self.streams, 0)
    }

    /// The streams with `stream` put at `key`, which is a place among them
    /// or the place behind the last.
    pub open spec fn place(self, key: int, stream: StreamModel) -> Seq<StreamModel> {
        if key < self.streams.len() {
            self.streams.update(key, stream)
        } else {
            self.streams.push(stream)
        }
    }

    /// The endpoint of a stream that is established now, at the free key.
    pub open spec fn new_endpoint(
        self,
        flow_id: u32,
        peer_rwnd: u32,
        dest_host: Seq<u8>,
        dest_port: u16,
    ) -> EndpointModel {
        EndpointModel {
            key: self.free_key(),
            flow_id,
            dest_host,
            dest_port,
            residue: Seq::empty(),
            pushes_since_ack: 0,
            ack_threshold: min_u32(self.config.ack_threshold, peer_rwnd),
        }
    }

    /// The state after the shared half of a new stream was put at the free
    /// key and the flow id was marked established.
    pub open spec fn with_new_stream(self, flow_id: u32, peer_rwnd: u32) -> MuxModel {
        MuxModel {
            flows: self.flows.insert(flow_id, FlowSlot::Established(self.free_key() as usize)),
            streams: self.place(self.free_key(), StreamModel::fresh(flow_id, peer_rwnd)),
            ..self
        }
    }

    /// Closing a port: the slot of `id` leaves the table. An established
    /// stream is detached, and reset unless `Finish` was sent before or
    /// `inhibit_reset` is set.
    pub open spec fn close_port(self, id: u32, inhibit_reset: bool) -> MuxModel {
        match self.flows.get(id) {
            Some(FlowSlot::Established(k)) => {
                let stream = self.streams[k as int];
                let reset = !stream.finish_sent && !inhibit_reset;
                MuxModel {
                    flows: self.flows.remove(id),
                    streams: self.streams.update(k as int, stream.detached(reset)),
                    outbound: if reset {
                        self.outbound.push(reset_bytes(id))
                    } else {
                        self.outbound
                    },
                    ..self
                }
            },
            Some(_) => MuxModel { flows: self.flows.remove(id), ..self },
            None => self,
        }
    }

    /// Whom to tell that the port of `id` was closed.
    pub open spec fn close_port_signal(self, id: u32) -> DispatchedModel {
        match self.flows.get(id) {
            Some(FlowSlot::Established(k)) => DispatchedModel::Wake { key: k as int },
            Some(FlowSlot::Requested(reply)) => DispatchedModel::OpenReset { reply },
            Some(FlowSlot::BindRequested(reply)) => DispatchedModel::BindAnswered {
                reply,
                bound: false,
            },
            None => DispatchedModel::Nothing,
        }
    }

    /// The peer asks for a stream. Flow id zero, which names no flow, and an
    /// id that is in use are reset; any other id is established,
    /// acknowledged with our window, and accepted.
    pub open spec fn on_connect(self, id: u32, rwnd: u32, host: Seq<u8>, port: u16) -> (
        MuxModel,
        DispatchedModel,
    ) {
        if id == 0 || self.flows.contains_key(id) {
            (self.send(reset_bytes(id)), DispatchedModel::Nothing)
        } else {
            (
                self.with_new_stream(id, rwnd).send(
                    acknowledge_bytes(id, self.config.initial_credit),
                ),
                DispatchedModel::Accepted(self.new_endpoint(id, rwnd, host, port)),
            )
        }
    }

    /// The peer acknowledges. On an established stream the credit is added;
    /// on a requested one the stream is established with the credit as the
    /// peer's window; anything else is reset, and a bind request that was
    /// waiting is answered as refused.
    pub open spec fn on_acknowledge(self, id: u32, credit: u32) -> (MuxModel, DispatchedModel) {
        match self.flows.get(id) {
            Some(FlowSlot::Established(k)) => {
                let stream = self.streams[k as int];
                (
                    MuxModel {
                        streams: self.streams.update(
                            k as int,
                            StreamModel {
                                send_credit: ((stream.send_credit + credit) % 0x1_0000_0000) as u32,
                                credit_granted: stream.credit_granted + credit as nat,
                                ..stream
                            },
                        ),
                        ..self
                    },
                    DispatchedModel::Wake { key: k as int },
                )
            },
            Some(FlowSlot::Requested(reply)) => (
                self.with_new_stream(id, credit),
                DispatchedModel::Opened {
                    reply,
                    stream: self.new_endpoint(id, credit, Seq::empty(), 0),
                },
            ),
            Some(FlowSlot::BindRequested(reply)) => (
                MuxModel { flows: self.flows.remove(id), ..self }.send(reset_bytes(id)),
                DispatchedModel::BindAnswered { reply, bound: false },
            ),
            None => (self.send(reset_bytes(id)), DispatchedModel::Nothing),
        }
    }

    /// The peer finishes. An established stream's reader is told the end,
    /// while our side may still send. A bind request is answered as bound.
    /// A stream request is answered out of protocol: it is reset and
    /// dropped.
    pub open spec fn on_finish(self, id: u32) -> (MuxModel, DispatchedModel) {
        match self.flows.get(id) {
            Some(FlowSlot::Established(k)) => {
                let stream = self.streams[k as int];
                (
                    MuxModel {
                        streams: self.streams.update(
                            k as int,
                            StreamModel {
                                inbound: if stream.receiver_open {
                                    stream.inbound.push(Seq::empty())
                                } else {
                                    stream.inbound
                                },
                                ..stream
                            },
                        ),
                        ..self
                    },
                    DispatchedModel::Wake { key: k as int },
                )
            },
            Some(FlowSlot::Requested(reply)) => (
                MuxModel { flows: self.flows.remove(id), ..self }.send(reset_bytes(id)),
                DispatchedModel::OpenDropped { reply },
            ),
            Some(FlowSlot::BindRequested(reply)) => (
                MuxModel { flows: self.flows.remove(id), ..self },
                DispatchedModel::BindAnswered { reply, bound: true },
            ),
            None => (self, DispatchedModel::Nothing),
        }
    }

    /// The peer pushes bytes. They join the inbound queue of an established
    /// stream. Where the queue is full the peer overran its window: the
    /// port is closed and reset. Where the endpoint was dropped the bytes
    /// are dropped too. A push for anything but an established stream is
    /// reset.
    pub open spec fn on_push(self, id: u32, data: Seq<u8>) -> (MuxModel, DispatchedModel) {
        match self.flows.get(id) {
            Some(FlowSlot::Established(k)) => {
                let stream = self.streams[k as int];
                if !stream.receiver_open {
                    (self, DispatchedModel::Nothing)
                } else if stream.inbound.len() >= self.config.initial_credit {
                    (self.close_port(id, false), DispatchedModel::Wake { key: k as int })
                } else {
                    (
                        MuxModel {
                            streams: self.streams.update(
                                k as int,
                                StreamModel { inbound: stream.inbound.push(data), ..stream },
                            ),
                            ..self
                        },
                        DispatchedModel::Wake { key: k as int },
                    )
                }
            },
            _ => (self.send(reset_bytes(id)), DispatchedModel::Nothing),
        }
    }

    /// The peer asks us to bind. The request goes to the user if binds are
    /// accepted, and is reset if not.
    pub open spec fn on_bind(self, id: u32, host: Seq<u8>, port: u16) -> (
        MuxModel,
        DispatchedModel,
    ) {
        if self.config.accept_bind {
            (self, DispatchedModel::BindRequest { flow_id: id, host, port })
        } else {
            (self.send(reset_bytes(id)), DispatchedModel::Nothing)
        }
    }

    /// One frame from the peer: the next state, and what the caller has to
    /// do.
    pub open spec fn process_frame(self, frame: FrameModel) -> (MuxModel, DispatchedModel) {
        match frame.payload {
            PayloadModel::Connect { rwnd, host, port } => self.on_connect(
                frame.id,
                rwnd,
                host,
                port,
            ),
            PayloadModel::Acknowledge { credit } => self.on_acknowledge(frame.id, credit),
            PayloadModel::Finish => self.on_finish(frame.id),
            PayloadModel::Reset => (
                self.close_port(frame.id, true),
                self.close_port_signal(frame.id),
            ),
            PayloadModel::Push { data } => self.on_push(frame.id, data),
            PayloadModel::Bind { host, port } => self.on_bind(frame.id, host, port),
            PayloadModel::Datagram { host, port, data } => (
                self,
                DispatchedModel::Datagram(
                    DatagramModel {
                        flow_id: frame.id,
                        target_host: host,
                        target_port: port,
                        data,
                    },
                ),
            ),
        }
    }

    /// The state with the stream at `key` replaced.
    pub open spec fn with_stream(self, key: int, stream: StreamModel) -> MuxModel {
        MuxModel { streams: self.streams.update(key, stream), ..self }
    }

    /// The user reads at most `max` bytes from a stream.
    ///
    /// Bytes left over from the last buffer come first. Then the next
    /// buffer is taken from the inbound queue: an empty one is the end of
    /// the stream; any other counts as one delivered `Push`, and once as
    /// many were delivered as the threshold asks for, they are
    /// acknowledged in one frame. An empty queue means waiting while the
    /// stream is in the flow table, and the end once it is not.
    pub open spec fn read(self, ep: EndpointModel, max: nat) -> (
        MuxModel,
        EndpointModel,
        ReadModel,
    ) {
        if max == 0 {
            (self, ep, ReadModel::Data(Seq::empty()))
        } else if ep.residue.len() > 0 {
            let n = if max < ep.residue.len() {
                max as int
            } else {
                ep.residue.len() as int
            };
            (
                self,
                EndpointModel { residue: ep.residue.skip(n), ..ep },
                ReadModel::Data(ep.residue.take(n)),
            )
        } else if !self.owns(ep) {
            (self, ep, ReadModel::Eof)
        } else {
            let stream = self.streams[ep.key];
            if stream.inbound.len() == 0 {
                if stream.attached {
                    (self, ep, ReadModel::Pending)
                } else {
                    (self, ep, ReadModel::Eof)
                }
            } else {
                let buf = stream.inbound[0];
                let popped = self.with_stream(
                    ep.key,
                    StreamModel { inbound: stream.inbound.skip(1), ..stream },
                );
                if buf.len() == 0 {
                    (popped, ep, ReadModel::Eof)
                } else {
                    let count = (ep.pushes_since_ack + 1) as u32;
                    let due = count >= ep.ack_threshold;
                    let n = if max < buf.len() {
                        max as int
                    } else {
                        buf.len() as int
                    };
                    (
                        if due {
                            popped.send(acknowledge_bytes(ep.flow_id, count))
                        } else {
                            popped
                        },
                        EndpointModel {
                            residue: buf.skip(n),
                            pushes_since_ack: if due {
                                0
                            } else {
                                count
                            },
                            ..ep
                        },
                        ReadModel::Data(buf.take(n)),
                    )
                }
            }
        }
    }

    /// The user writes `data` to a stream: one `Push`, at the price of one
    /// credit. It fails once the stream's sending side is finished, and
    /// waits while no credit is left.
    pub open spec fn write(self, ep: EndpointModel, data: Seq<u8>) -> (MuxModel, WriteModel) {
        if !self.owns(ep) || self.streams[ep.key].finish_sent {
            (self, WriteModel::BrokenPipe)
        } else if self.streams[ep.key].send_credit == 0 {
            (self, WriteModel::NoCredit)
        } else {
            let stream = self.streams[ep.key];
            (
                self.with_stream(
                    ep.key,
                    StreamModel {
                        send_credit: (stream.send_credit - 1) as u32,
                        pushes_sent: stream.pushes_sent + 1,
                        ..stream
                    },
                ).send(push_bytes(ep.flow_id, data)),
                WriteModel::Written(data.len()),
            )
        }
    }

    /// The user finishes the sending side of a stream: `Finish` goes out,
    /// unless the sending side was finished before.
    pub open spec fn finish(self, ep: EndpointModel) -> MuxModel {
        if self.owns(ep) && !self.streams[ep.key].finish_sent {
            let stream = self.streams[ep.key];
            self.with_stream(
                ep.key,
                StreamModel {
                    finish_sent: true,
                    finishes_sent: stream.finishes_sent + 1,
                    ..stream
                },
            ).send(finish_bytes(ep.flow_id))
        } else {
            self
        }
    }

    /// The user drops the endpoint of a stream: what it had not read is
    /// gone, and its flow id joins the dropped ids.
    pub open spec fn release(self, ep: EndpointModel) -> MuxModel {
        if self.owns(ep) {
            let stream = self.streams[ep.key];
            MuxModel {
                dropped: self.dropped.push(ep.flow_id),
                ..self.with_stream(
                    ep.key,
                    StreamModel { receiver_open: false, inbound: Seq::empty(), ..stream },
                )
            }
        } else {
            self
        }
    }

    /// The user drops the multiplexor: zero joins the dropped ids.
    pub open spec fn shutdown(self) -> MuxModel {
        MuxModel { dropped: self.dropped.push(0), ..self }
    }

    /// Why a request that names `host` and picks its id among `candidates`
    /// is refused, if it is.
    pub open spec fn refusal(self, candidates: Seq<u32>, host: Seq<u8>) -> Option<MuxError> {
        if self.closed {
            Some(MuxError::Closed)
        } else if host.len() > MAX_HOST_LEN {
            Some(MuxError::HostTooLong)
        } else if first_free(self.flows, candidates) >= candidates.len() {
            Some(MuxError::NoFreeId)
        } else {
            None
        }
    }

    /// The id that a request picks among `candidates`.
    pub open spec fn picked(self, candidates: Seq<u32>) -> u32 {
        candidates[first_free(self.flows, candidates)]
    }

    /// The user asks for a stream to `host:port`. The id is the first
    /// candidate that is free; `Connect` goes out with our window.
    pub open spec fn open_stream(
        self,
        candidates: Seq<u32>,
        reply: u64,
        host: Seq<u8>,
        port: u16,
    ) -> MuxModel {
        if self.refusal(candidates, host) is Some {
            self
        } else {
            let id = self.picked(candidates);
            MuxModel { flows: self.flows.insert(id, FlowSlot::Requested(reply)), ..self }.send(
                frame_bytes(
                    FrameModel {
                        id,
                        payload: PayloadModel::Connect {
                            rwnd: self.config.initial_credit,
                            host,
                            port,
                        },
                    },
                ),
            )
        }
    }

    /// The user asks the peer to bind `host:port`. The id is the first
    /// candidate that is free; `Bind` goes out.
    pub open spec fn request_bind(
        self,
        candidates: Seq<u32>,
        reply: u64,
        host: Seq<u8>,
        port: u16,
    ) -> MuxModel {
        if self.refusal(candidates, host) is Some {
            self
        } else {
            let id = self.picked(candidates);
            MuxModel { flows: self.flows.insert(id, FlowSlot::BindRequested(reply)), ..self }.send(
                frame_bytes(FrameModel { id, payload: PayloadModel::Bind { host, port } }),
            )
        }
    }

    /// Why a datagram for `host` is refused, if it is.
    pub open spec fn datagram_refusal(self, host: Seq<u8>) -> Option<MuxError> {
        if self.closed {
            Some(MuxError::Closed)
        } else if host.len() > MAX_HOST_LEN {
            Some(MuxError::HostTooLong)
        } else {
            None
        }
    }

    /// The user sends a datagram to `host:port` under the session id
    /// `flow_id`: one `Datagram` frame goes out.
    pub open spec fn send_datagram(
        self,
        flow_id: u32,
        host: Seq<u8>,
        port: u16,
        data: Seq<u8>,
    ) -> MuxModel {
        if self.datagram_refusal(host) is Some {
            self
        } else {
            self.send(
                frame_bytes(
                    FrameModel {
                        id: flow_id,
                        payload: PayloadModel::Datagram { host, port, data },
                    },
                ),
            )
        }
    }

    /// The state after the oldest dropped id was looked at: zero ends the
    /// processing of dropped ids, any other id has its port closed.
    pub open spec fn process_dropped(self) -> MuxModel {
        if self.dropped.len() == 0 {
            self
        } else {
            let rest = MuxModel { dropped: self.dropped.skip(1), ..self };
            if self.dropped[0] == 0 {
                rest
            } else {
                rest.close_port(self.dropped[0], false)
            }
        }
    }

    /// The state after the dropped ids were looked at one after the other,
    /// oldest first, until none is left or the multiplexor's own zero was
    /// found.
    pub open spec fn process_dropped_ports(self) -> MuxModel
        decreases self.dropped.len(),
    {
        if self.dropped.len() == 0 || self.dropped[0] == 0 {
            self.process_dropped()
        } else {
            self.process_dropped().process_dropped_ports()
        }
    }

    /// Whom to tell, in order, while the dropped ids are looked at.
    pub open spec fn dropped_signals(self) -> Seq<DispatchedModel>
        decreases self.dropped.len(),
    {
        if self.dropped.len() == 0 || self.dropped[0] == 0 {
            Seq::empty()
        } else {
            seq![self.close_port_signal(self.dropped[0])]
                + self.process_dropped().dropped_signals()
        }
    }

    /// First half of winding down: no stream may write any more, no stream
    /// is opened, and no bind request of the peer is taken.
    pub open spec fn begin_wind_down(self) -> MuxModel {
        MuxModel {
            streams: Seq::new(
                self.streams.len(),
                |k: int|
                    if self.streams[k].attached {
                        StreamModel { finish_sent: true, ..self.streams[k] }
                    } else {
                        self.streams[k]
                    },
            ),
            config: Config { accept_bind: false, ..self.config },
            closed: true,
            ..self
        }
    }

    /// Second half of winding down: the flow table is emptied, and every
    /// stream that was in it is detached without a `Reset`.
    pub open spec fn finish_wind_down(self) -> MuxModel {
        MuxModel {
            flows: Map::empty(),
            streams: Seq::new(
                self.streams.len(),
                |k: int|
                    if self.streams[k].attached {
                        self.streams[k].detached(false)
                    } else {
                        self.streams[k]
                    },
            ),
            closed: true,
            ..self
        }
    }
}

/// A new multiplexor is well-formed.
pub proof fn lemma_init_wf(config: Config)
    requires
        config.ack_threshold <= config.initial_credit,
    ensures
        MuxModel::init(config).wf(),
{
}

/// Well-formedness rests on the flow table, the streams, the dropped ids
/// and the configuration alone: a state that has them from a well-formed
/// one is well-formed.
pub proof fn lemma_wf_rests_on(m: MuxModel, n: MuxModel)
    requires
        m.wf(),
        n.flows == m.flows,
        n.streams == m.streams,
        n.dropped == m.dropped,
        n.config.ack_threshold <= n.config.initial_credit,
    ensures
        n.wf(),
{
    assert forall|k: int| 0 <= k < n.streams.len() implies #[trigger] n.stream_wf(k) by {
        assert(m.stream_wf(k));
    }
    assert forall|i: u32| #[trigger] n.flows.contains_key(i) implies n.slot_wf(i) by {
        assert(m.flows.contains_key(i));
    }
}

/// Queuing a frame keeps the multiplexor well-formed.
pub proof fn lemma_send_wf(m: MuxModel, frame: Seq<u8>)
    requires
        m.wf(),
    ensures
        m.send(frame).wf(),
{
    lemma_wf_rests_on(m, m.send(frame));
}

/// Establishing a stream under an id that names no established stream
/// keeps the multiplexor well-formed.
pub proof fn lemma_new_stream_wf(m: MuxModel, id: u32, peer_rwnd: u32)
    requires
        m.wf(),
        id != 0,
        !(m.flows.get(id) matches Some(FlowSlot::Established(_))),
        m.free_key() < usize::MAX,
    ensures
        m.with_new_stream(id, peer_rwnd).wf(),
        m.with_new_stream(id, peer_rwnd).owns(m.new_endpoint(id, peer_rwnd, Seq::empty(), 0)),
        0 <= m.free_key() <= m.streams.len(),
{
    lemma_vacant_from(m.streams, 0);
    let key = m.free_key();
    let n = m.with_new_stream(id, peer_rwnd);
    assert forall|i: u32| #[trigger] n.flows.contains_key(i) implies n.slot_wf(i) by {
        if i != id {
            assert(m.flows.contains_key(i));
        }
    }
    assert forall|k: int| 0 <= k < n.streams.len() implies #[trigger] n.stream_wf(k) by {
        if k != key {
            assert(n.streams[k] == m.streams[k]);
            assert(m.stream_wf(k));
        }
    }
}

/// Closing a port keeps the multiplexor well-formed.
pub proof fn lemma_close_port_wf(m: MuxModel, id: u32, inhibit_reset: bool)
    requires
        m.wf(),
    ensures
        m.close_port(id, inhibit_reset).wf(),
{
    let n = m.close_port(id, inhibit_reset);
    if m.flows.contains_key(id) {
        assert forall|i: u32| #[trigger] n.flows.contains_key(i) implies n.slot_wf(i) by {
            assert(m.flows.contains_key(i));
        }
        assert forall|k: int| 0 <= k < n.streams.len() implies #[trigger] n.stream_wf(k) by {
            assert(m.stream_wf(k));
        }
    }
}

/// Whatever frame the peer sends, the multiplexor stays well-formed.
pub proof fn lemma_process_frame_wf(m: MuxModel, frame: FrameModel)
    requires
        m.wf(),
        m.free_key() < usize::MAX,
    ensures
        m.process_frame(frame).0.wf(),
{
    let id = frame.id;
    match frame.payload {
        PayloadModel::Connect { rwnd, host, port } => {
            if id == 0 || m.flows.contains_key(id) {
                lemma_send_wf(m, reset_bytes(id));
            } else {
                lemma_new_stream_wf(m, id, rwnd);
                lemma_send_wf(
                    m.with_new_stream(id, rwnd),
                    acknowledge_bytes(id, m.config.initial_credit),
                );
            }
        },
        PayloadModel::Acknowledge { credit } => {
            match m.flows.get(id) {
                Some(FlowSlot::Established(key)) => {
                    let n = m.on_acknowledge(id, credit).0;
                    assert(m.flows.contains_key(id));
                    assert(m.stream_wf(key as int));
                    assert forall|k: int| 0 <= k < n.streams.len() implies #[trigger] n.stream_wf(
                        k,
                    ) by {
                        assert(m.stream_wf(k));
                    }
                },
                Some(FlowSlot::Requested(_)) => {
                    lemma_new_stream_wf(m, id, credit);
                },
                Some(FlowSlot::BindRequested(_)) => {
                    lemma_close_port_wf(m, id, true);
                    assert(m.close_port(id, true) == MuxModel { flows: m.flows.remove(id), ..m });
                    lemma_send_wf(m.close_port(id, true), reset_bytes(id));
                },
                None => {
                    lemma_send_wf(m, reset_bytes(id));
                },
            }
        },
        PayloadModel::Finish => {
            match m.flows.get(id) {
                Some(FlowSlot::Established(key)) => {
                    let n = m.on_finish(id).0;
                    assert(m.flows.contains_key(id));
                    assert forall|k: int| 0 <= k < n.streams.len() implies #[trigger] n.stream_wf(
                        k,
                    ) by {
                        assert(m.stream_wf(k));
                    }
                },
                Some(FlowSlot::Requested(_)) => {
                    lemma_close_port_wf(m, id, true);
                    assert(m.close_port(id, true) == MuxModel { flows: m.flows.remove(id), ..m });
                    lemma_send_wf(m.close_port(id, true), reset_bytes(id));
                },
                Some(FlowSlot::BindRequested(_)) => {
                    lemma_close_port_wf(m, id, true);
                    assert(m.close_port(id, true) == MuxModel { flows: m.flows.remove(id), ..m });
                },
                None => {},
            }
        },
        PayloadModel::Reset => {
            lemma_close_port_wf(m, id, true);
        },
        PayloadModel::Push { data } => {
            match m.flows.get(id) {
                Some(FlowSlot::Established(key)) => {
                    let n = m.on_push(id, data).0;
                    assert(m.flows.contains_key(id));
                    lemma_close_port_wf(m, id, false);
                    assert forall|k: int| 0 <= k < n.streams.len() implies #[trigger] n.stream_wf(
                        k,
                    ) by {
                        assert(m.stream_wf(k));
                    }
                },
                _ => {
                    lemma_send_wf(m, reset_bytes(id));
                },
            }
        },
        PayloadModel::Bind { host, port } => {
            lemma_send_wf(m, reset_bytes(id));
        },
        PayloadModel::Datagram { host, port, data } => {},
    }
}

/// Looking at the oldest dropped id keeps the multiplexor well-formed.
pub proof fn lemma_process_dropped_wf(m: MuxModel)
    requires
        m.wf(),
    ensures
        m.process_dropped().wf(),
{
    if m.dropped.len() > 0 {
        let d = m.dropped[0];
        let rest = MuxModel { dropped: m.dropped.skip(1), ..m };
        let n = m.process_dropped();
        assert forall|k: int| 0 <= k < n.streams.len() implies #[trigger] n.stream_wf(k) by {
            assert(m.stream_wf(k));
            let s = m.streams[k];
            if n.streams[k].attached && !n.streams[k].receiver_open  {
                assert(s.attached && !s.receiver_open);
                assert(m.dropped.contains(s.flow_id));
                let j = choose|j: int| 0 <= j < m.dropped.len() && m.dropped[j] == s.flow_id;
                if j == 0 {
                    // the stream under the id that was just looked at is closed by now
                    assert(d == s.flow_id);
                    assert(m.flows.contains_key(d));
                    assert(false);
                } else {
                    assert(m.dropped.skip(1)[j - 1] == s.flow_id);
                }
            }
        }
        assert forall|i: u32| #[trigger] n.flows.contains_key(i) implies n.slot_wf(i) by {
            assert(m.flows.contains_key(i));
        }
    }
}

/// Winding down keeps the multiplexor well-formed, in both halves.
pub proof fn lemma_wind_down_wf(m: MuxModel)
    requires
        m.wf(),
    ensures
        m.begin_wind_down().wf(),
        m.finish_wind_down().wf(),
{
    let b = m.begin_wind_down();
    assert forall|k: int| 0 <= k < b.streams.len() implies #[trigger] b.stream_wf(k) by {
        assert(m.stream_wf(k));
    }
    assert forall|i: u32| #[trigger] b.flows.contains_key(i) implies b.slot_wf(i) by {
        assert(m.flows.contains_key(i));
    }
    let f = m.finish_wind_down();
    assert forall|k: int| 0 <= k < f.streams.len() implies #[trigger] f.stream_wf(k) by {
        assert(m.stream_wf(k));
    }
}

/// Replacing the state of a stream by one that is well-formed, lies under
/// the same flow id, and is attached and held like the old one keeps the
/// multiplexor well-formed.
pub proof fn lemma_with_stream_wf(m: MuxModel, key: int, stream: StreamModel)
    requires
        m.wf(),
        0 <= key < m.streams.len(),
        stream.wf(),
        stream.flow_id == m.streams[key].flow_id,
        stream.attached == m.streams[key].attached,
        stream.receiver_open == m.streams[key].receiver_open,
    ensures
        m.with_stream(key, stream).wf(),
{
    let n = m.with_stream(key, stream);
    assert forall|k: int| 0 <= k < n.streams.len() implies #[trigger] n.stream_wf(k) by {
        assert(m.stream_wf(k));
    }
}

/// Reading keeps the multiplexor and the endpoint well-formed.
pub proof fn lemma_read_wf(m: MuxModel, ep: EndpointModel, max: nat)
    requires
        m.wf(),
        ep.wf(),
    ensures
        m.read(ep, max).0.wf(),
        m.read(ep, max).1.wf(),
{
    if max != 0 && ep.residue.len() == 0 && m.owns(ep) && m.streams[ep.key].inbound.len() > 0 {
        let stream = m.streams[ep.key];
        assert(m.stream_wf(ep.key));
        let popped_stream = StreamModel { inbound: stream.inbound.skip(1), ..stream };
        lemma_with_stream_wf(m, ep.key, popped_stream);
        let popped = m.with_stream(ep.key, popped_stream);
        lemma_send_wf(
            popped,
            acknowledge_bytes(ep.flow_id, (ep.pushes_since_ack + 1) as u32),
        );
    }
}

/// Writing keeps the multiplexor well-formed.
pub proof fn lemma_write_wf(m: MuxModel, ep: EndpointModel, data: Seq<u8>)
    requires
        m.wf(),
    ensures
        m.write(ep, data).0.wf(),
{
    if m.owns(ep) && !m.streams[ep.key].finish_sent && m.streams[ep.key].send_credit != 0 {
        let stream = m.streams[ep.key];
        assert(m.stream_wf(ep.key));
        let next = StreamModel {
            send_credit: (stream.send_credit - 1) as u32,
            pushes_sent: stream.pushes_sent + 1,
            ..stream
        };
        lemma_with_stream_wf(m, ep.key, next);
        lemma_send_wf(m.with_stream(ep.key, next), push_bytes(ep.flow_id, data));
    }
}

/// Finishing keeps the multiplexor well-formed.
pub proof fn lemma_finish_wf(m: MuxModel, ep: EndpointModel)
    requires
        m.wf(),
    ensures
        m.finish(ep).wf(),
{
    if m.owns(ep) && !m.streams[ep.key].finish_sent {
        let stream = m.streams[ep.key];
        assert(m.stream_wf(ep.key));
        let next = StreamModel {
            finish_sent: true,
            finishes_sent: stream.finishes_sent + 1,
            ..stream
        };
        lemma_with_stream_wf(m, ep.key, next);
        lemma_send_wf(m.with_stream(ep.key, next), finish_bytes(ep.flow_id));
    }
}

/// Dropping an endpoint, or the multiplexor, keeps the multiplexor
/// well-formed.
pub proof fn lemma_release_wf(m: MuxModel, ep: EndpointModel)
    requires
        m.wf(),
    ensures
        m.release(ep).wf(),
        m.shutdown().wf(),
{
    let z = m.shutdown();
    assert forall|k: int| 0 <= k < z.streams.len() implies #[trigger] z.stream_wf(k) by {
        assert(m.stream_wf(k));
        let s = m.streams[k];
        if s.attached && !s.receiver_open {
            let j = choose|j: int| 0 <= j < m.dropped.len() && m.dropped[j] == s.flow_id;
            assert(z.dropped[j] == s.flow_id);
        }
    }
    if m.owns(ep) {
        let n = m.release(ep);
        assert forall|k: int| 0 <= k < n.streams.len() implies #[trigger] n.stream_wf(k) by {
            assert(m.stream_wf(k));
            let s = m.streams[k];
            if k == ep.key {
                assert(n.dropped[m.dropped.len() as int] == ep.flow_id);
            } else if s.attached && !s.receiver_open {
                let j = choose|j: int| 0 <= j < m.dropped.len() && m.dropped[j] == s.flow_id;
                assert(n.dropped[j] == s.flow_id);
            }
        }
    }
}

/// Asking for a stream or a bind keeps the multiplexor well-formed.
pub proof fn lemma_request_wf(
    m: MuxModel,
    candidates: Seq<u32>,
    reply: u64,
    host: Seq<u8>,
    port: u16,
)
    requires
        m.wf(),
    ensures
        m.open_stream(candidates, reply, host, port).wf(),
        m.request_bind(candidates, reply, host, port).wf(),
{
    if m.refusal(candidates, host) is None {
        lemma_first_free(m.flows, candidates);
        let id = m.picked(candidates);
        let a = MuxModel { flows: m.flows.insert(id, FlowSlot::Requested(reply)), ..m };
        let b = MuxModel { flows: m.flows.insert(id, FlowSlot::BindRequested(reply)), ..m };
        assert(a.wf()) by {
            assert forall|k: int| 0 <= k < a.streams.len() implies #[trigger] a.stream_wf(k) by {
                assert(m.stream_wf(k));
            }
            assert forall|i: u32| #[trigger] a.flows.contains_key(i) implies a.slot_wf(i) by {
                if i != id {
                    assert(m.flows.contains_key(i));
                }
            }
        }
        assert(b.wf()) by {
            assert forall|k: int| 0 <= k < b.streams.len() implies #[trigger] b.stream_wf(k) by {
                assert(m.stream_wf(k));
            }
            assert forall|i: u32| #[trigger] b.flows.contains_key(i) implies b.slot_wf(i) by {
                if i != id {
                    assert(m.flows.contains_key(i));
                }
            }
        }
        lemma_wf_rests_on(a, m.open_stream(candidates, reply, host, port));
        lemma_wf_rests_on(b, m.request_bind(candidates, reply, host, port));
    }
}

} // verus!
