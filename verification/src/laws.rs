//! What holds of the multiplexor whatever happens to it.
//!
//! A run is any sequence of events applied to a new multiplexor. The
//! theorems here are stated of every state that a run can end in, or of
//! every single step.

use vstd::prelude::*;
use vstd::relations::injective_on;
use vstd::set_lib::lemma_map_size;
use crate::flow::FlowSlot;
use crate::frame::{
    lemma_decode_encode, parse_frame, FrameError, FrameModel, PayloadModel,
};
use crate::model::{
    acknowledge_bytes, finish_bytes, lemma_finish_wf, lemma_init_wf, lemma_process_dropped_wf,
    lemma_process_frame_wf, lemma_read_wf, lemma_release_wf, lemma_request_wf,
    lemma_wf_rests_on, lemma_wind_down_wf, lemma_write_wf, min_u32, push_bytes, reset_bytes,
    Config, DispatchedModel, EndpointModel, MuxModel, ReadModel, StreamModel,
};

verus! {

/// Anything that can happen to a multiplexor.
pub enum Event {
    /// The peer sent a frame.
    Frame(FrameModel),
    /// The oldest dropped id was looked at.
    Dropped,
    /// The user read from a stream.
    Read { stream: EndpointModel, max: nat },
    /// The user wrote to a stream.
    Write { stream: EndpointModel, data: Seq<u8> },
    /// The user finished the sending side of a stream.
    Finish { stream: EndpointModel },
    /// The user dropped the endpoint of a stream.
    Release { stream: EndpointModel },
    /// The user dropped the multiplexor.
    Shutdown,
    /// The user asked for a stream.
    Open { candidates: Seq<u32>, reply: u64, host: Seq<u8>, port: u16 },
    /// The user asked the peer to bind.
    Bind { candidates: Seq<u32>, reply: u64, host: Seq<u8>, port: u16 },
    /// The user sent a datagram.
    Datagram { flow_id: u32, host: Seq<u8>, port: u16, data: Seq<u8> },
    /// We answered a bind request of the peer.
    ReplyBind { flow_id: u32, bound: bool },
    /// A stream asked for a flush.
    Flush,
    /// The oldest queued frame was sent.
    Sent,
    /// Winding down began.
    BeginWindDown,
    /// Winding down ended.
    FinishWindDown,
}

/// The state after one event.
pub open spec fn step(m: MuxModel, event: Event) -> MuxModel {
    match event {
        Event::Frame(frame) => m.process_frame(frame).0,
        Event::Dropped => m.process_dropped(),
        Event::Read { stream, max } => m.read(stream, max).0,
        Event::Write { stream, data } => m.write(stream, data).0,
        Event::Finish { stream } => m.finish(stream),
        Event::Release { stream } => m.release(stream),
        Event::Shutdown => m.shutdown(),
        Event::Open { candidates, reply, host, port } => m.open_stream(
            candidates,
            reply,
            host,
            port,
        ),
        Event::Bind { candidates, reply, host, port } => m.request_bind(
            candidates,
            reply,
            host,
            port,
        ),
        Event::Datagram { flow_id, host, port, data } => m.send_datagram(
            flow_id,
            host,
            port,
            data,
        ),
        Event::ReplyBind { flow_id, bound } => m.send(
            if bound {
                finish_bytes(flow_id)
            } else {
                reset_bytes(flow_id)
            },
        ),
        Event::Flush => m.send(Seq::empty()),
        Event::Sent => if m.outbound.len() > 0 {
            MuxModel { outbound: m.outbound.skip(1), ..m }
        } else {
            m
        },
        Event::BeginWindDown => m.begin_wind_down(),
        Event::FinishWindDown => m.finish_wind_down(),
    }
}

/// Whether `event` can happen in state `m` on a real machine: a frame is
/// only processed while one more stream can be kept, and a read comes from
/// an endpoint in a state that reads can reach.
pub open spec fn admissible(m: MuxModel, event: Event) -> bool {
    match event {
        Event::Frame(_) => m.streams.len() < usize::MAX,
        Event::Read { stream, .. } => stream.wf(),
        _ => true,
    }
}

/// The state after a sequence of events, oldest first.
pub open spec fn run(m: MuxModel, events: Seq<Event>) -> MuxModel
    decreases events.len(),
{
    if events.len() == 0 {
        m
    } else {
        step(run(m, events.drop_last()), events.last())
    }
}

/// Whether every event of the sequence can happen when its turn comes.
pub open spec fn admissible_run(m: MuxModel, events: Seq<Event>) -> bool
    decreases events.len(),
{
    events.len() == 0 || (admissible_run(m, events.drop_last()) && admissible(
        run(m, events.drop_last()),
        events.last(),
    ))
}

/// One event keeps the multiplexor well-formed.
pub proof fn lemma_step_wf(m: MuxModel, event: Event)
    requires
        m.wf(),
        admissible(m, event),
    ensures
        step(m, event).wf(),
{
    match event {
        Event::Frame(frame) => {
            crate::model::lemma_vacant_from(m.streams, 0);
            lemma_process_frame_wf(m, frame);
        },
        Event::Dropped => lemma_process_dropped_wf(m),
        Event::Read { stream, max } => lemma_read_wf(m, stream, max),
        Event::Write { stream, data } => lemma_write_wf(m, stream, data),
        Event::Finish { stream } => lemma_finish_wf(m, stream),
        Event::Release { stream } => lemma_release_wf(m, stream),
        Event::Shutdown => lemma_release_wf(
            m,
            EndpointModel {
                key: 0,
                flow_id: 0,
                dest_host: Seq::empty(),
                dest_port: 0,
                residue: Seq::empty(),
                pushes_since_ack: 0,
                ack_threshold: 0,
            },
        ),
        Event::Open { candidates, reply, host, port } => lemma_request_wf(
            m,
            candidates,
            reply,
            host,
            port,
        ),
        Event::Bind { candidates, reply, host, port } => lemma_request_wf(
            m,
            candidates,
            reply,
            host,
            port,
        ),
        Event::Datagram { .. } => lemma_wf_rests_on(m, step(m, event)),
        Event::ReplyBind { .. } => lemma_wf_rests_on(m, step(m, event)),
        Event::Flush => lemma_wf_rests_on(m, step(m, event)),
        Event::Sent => lemma_wf_rests_on(m, step(m, event)),
        Event::BeginWindDown => lemma_wind_down_wf(m),
        Event::FinishWindDown => lemma_wind_down_wf(m),
    }
}

/// Every state that a run from a well-formed state ends in is well-formed.
pub proof fn lemma_run_wf(m: MuxModel, events: Seq<Event>)
    requires
        m.wf(),
        admissible_run(m, events),
    ensures
        run(m, events).wf(),
    decreases events.len(),
{
    if events.len() > 0 {
        lemma_run_wf(m, events.drop_last());
        lemma_step_wf(run(m, events.drop_last()), events.last());
    }
}

/// The flow ids whose slot is established.
pub open spec fn established_flows(m: MuxModel) -> Set<u32> {
    Set::new(|id: u32| m.flows.contains_key(id) && m.flows[id] is Established)
}

/// The streams whose endpoint is open: the user holds it, and the stream
/// was not torn down.
pub open spec fn open_endpoints(m: MuxModel) -> Set<int> {
    Set::new(
        |k: int| 0 <= k < m.streams.len() && m.streams[k].attached && m.streams[k].receiver_open,
    )
}

/// Whether the multiplexor is at rest: no dropped id waits to be looked at.
pub open spec fn quiescent(m: MuxModel) -> bool {
    m.dropped.len() == 0
}

/// The key that the slot of `id` names.
pub open spec fn stream_of(m: MuxModel, id: u32) -> int {
    match m.flows[id] {
        FlowSlot::Established(k) => k as int,
        _ => -1,
    }
}

/// At rest, there are exactly as many established slots as open endpoints,
/// and each slot names the stream of one of them.
pub proof fn law_open_endpoints_match_established_slots(config: Config, events: Seq<Event>)
    requires
        config.ack_threshold <= config.initial_credit,
        admissible_run(MuxModel::init(config), events),
        quiescent(run(MuxModel::init(config), events)),
    ensures
        ({
            let m = run(MuxModel::init(config), events);
            &&& established_flows(m).finite()
            &&& open_endpoints(m).finite()
            &&& established_flows(m).len() == open_endpoints(m).len()
            &&& forall|id: u32| #[trigger]
                established_flows(m).contains(id) ==> open_endpoints(m).contains(stream_of(m, id))
        }),
{
    let m = run(MuxModel::init(config), events);
    lemma_init_wf(config);
    lemma_run_wf(MuxModel::init(config), events);
    lemma_slots_match_endpoints(m);
}

/// In a well-formed state at rest, established slots and open endpoints
/// are in one-to-one correspondence.
pub proof fn lemma_slots_match_endpoints(m: MuxModel)
    requires
        m.wf(),
        quiescent(m),
    ensures
        established_flows(m).finite(),
        open_endpoints(m).finite(),
        established_flows(m).len() == open_endpoints(m).len(),
        forall|id: u32| #[trigger]
            established_flows(m).contains(id) ==> open_endpoints(m).contains(stream_of(m, id)),
{
    let ids = established_flows(m);
    let keys = open_endpoints(m);
    let f = |id: u32| stream_of(m, id);
    assert(ids.subset_of(m.flows.dom()));
    vstd::set_lib::lemma_len_subset(ids, m.flows.dom());
    assert forall|id: u32| #[trigger] ids.contains(id) implies keys.contains(stream_of(m, id)) by {
        assert(m.flows.contains_key(id));
        let k = stream_of(m, id);
        assert(m.streams[k].attached);
        assert(m.stream_wf(k));
        if !m.streams[k].receiver_open {
            assert(m.dropped.contains(id));
        }
    }
    assert(injective_on(f, ids)) by {
        assert forall|a: u32, b: u32|
            ids.contains(a) && ids.contains(b) && #[trigger] f(a) == #[trigger] f(b) implies a
            == b by {
            assert(m.flows.contains_key(a));
            assert(m.flows.contains_key(b));
        }
    }
    assert(ids.map(f) =~= keys) by {
        assert forall|k: int| keys.contains(k) implies ids.map(f).contains(k) by {
            assert(m.stream_wf(k));
            let id = m.streams[k].flow_id;
            assert(ids.contains(id));
            assert(f(id) == k);
        }
        assert forall|k: int| ids.map(f).contains(k) implies keys.contains(k) by {
            let id = choose|id: u32| ids.contains(id) && f(id) == k;
            assert(keys.contains(stream_of(m, id)));
        }
    }
    lemma_map_size(ids, keys, f);
}

/// No stream ever sends more than one `Finish`, nor is more than one
/// `Reset` sent to tear it down; and a stream that sent one of the two does
/// not send the other.
pub proof fn law_finish_and_reset_at_most_once(config: Config, events: Seq<Event>, key: int)
    requires
        config.ack_threshold <= config.initial_credit,
        admissible_run(MuxModel::init(config), events),
        0 <= key < run(MuxModel::init(config), events).streams.len(),
    ensures
        ({
            let stream = run(MuxModel::init(config), events).streams[key];
            &&& stream.finishes_sent <= 1
            &&& stream.resets_sent <= 1
            &&& stream.finishes_sent + stream.resets_sent <= 1
        }),
{
    lemma_init_wf(config);
    lemma_run_wf(MuxModel::init(config), events);
    assert(run(MuxModel::init(config), events).stream_wf(key));
}

/// A step sends `Finish` for a stream only by finishing it, and then queues
/// exactly that frame; it sends a `Reset` for a stream only while taking it
/// out of the flow table, and then queues exactly that frame.
pub proof fn law_finish_and_reset_are_counted(
    m: MuxModel,
    stream: EndpointModel,
    id: u32,
    key: usize,
    inhibit: bool,
)
    requires
        m.wf(),
    ensures
        m.owns(stream) && !m.streams[stream.key].finish_sent ==> {
            &&& m.finish(stream).outbound == m.outbound.push(finish_bytes(stream.flow_id))
            &&& m.finish(stream).streams[stream.key].finishes_sent
                == m.streams[stream.key].finishes_sent + 1
        },
        !(m.owns(stream) && !m.streams[stream.key].finish_sent) ==> m.finish(stream) == m,
        m.flows.get(id) == Some(FlowSlot::Established(key)) ==> {
            let sent = !m.streams[key as int].finish_sent && !inhibit;
            let after = m.close_port(id, inhibit);
            &&& after.streams[key as int].resets_sent == m.streams[key as int].resets_sent + (
            if sent {
                1nat
            } else {
                0nat
            })
            &&& after.outbound == if sent {
                m.outbound.push(reset_bytes(id))
            } else {
                m.outbound
            }
            &&& !after.flows.contains_key(id)
            &&& !after.streams[key as int].attached
        },
{
    if m.flows.get(id) == Some(FlowSlot::Established(key)) {
        assert(m.flows.contains_key(id));
    }
}

/// Reading acknowledges in time: after any read fewer pushes are
/// unacknowledged than the threshold (or none, where the threshold is
/// zero). The read that delivers the push which reaches the threshold
/// queues one `Acknowledge` for all pushes since the last one.
pub proof fn law_acknowledge_within_threshold(m: MuxModel, stream: EndpointModel, max: nat)
    requires
        m.wf(),
        stream.wf(),
    ensures
        ({
            let (after, endpoint, out) = m.read(stream, max);
            let delivered = max > 0 && stream.residue.len() == 0 && m.owns(stream)
                && m.streams[stream.key].inbound.len() > 0
                && m.streams[stream.key].inbound[0].len() > 0;
            &&& endpoint.pushes_since_ack == 0 || endpoint.pushes_since_ack < stream.ack_threshold
            &&& endpoint.ack_threshold == stream.ack_threshold
            &&& delivered && stream.pushes_since_ack + 1 >= stream.ack_threshold ==> {
                &&& endpoint.pushes_since_ack == 0
                &&& after.outbound == m.outbound.push(
                    acknowledge_bytes(stream.flow_id, (stream.pushes_since_ack + 1) as u32),
                )
            }
            &&& delivered && stream.pushes_since_ack + 1 < stream.ack_threshold ==> {
                &&& endpoint.pushes_since_ack == stream.pushes_since_ack + 1
                &&& after.outbound == m.outbound
            }
            &&& !delivered ==> endpoint.pushes_since_ack == stream.pushes_since_ack
                && after.outbound == m.outbound
        }),
{
}

/// A stream never has more pushes in flight than the peer allowed: what it
/// has sent, plus what it may still send, is at most the peer's window plus
/// everything the peer has acknowledged.
pub proof fn law_pushes_stay_within_credit(config: Config, events: Seq<Event>, key: int)
    requires
        config.ack_threshold <= config.initial_credit,
        admissible_run(MuxModel::init(config), events),
        0 <= key < run(MuxModel::init(config), events).streams.len(),
    ensures
        ({
            let stream = run(MuxModel::init(config), events).streams[key];
            stream.pushes_sent + stream.send_credit <= stream.credit_granted
        }),
{
    lemma_init_wf(config);
    lemma_run_wf(MuxModel::init(config), events);
    assert(run(MuxModel::init(config), events).stream_wf(key));
}

/// A write sends a `Push` exactly when it pays one credit for it, and
/// only `Acknowledge` adds credit: exactly what the peer grants, unless
/// the sum leaves 32 bits.
pub proof fn law_credit_is_counted(
    m: MuxModel,
    stream: EndpointModel,
    data: Seq<u8>,
    id: u32,
    credit: u32,
)
    requires
        m.wf(),
    ensures
        m.write(stream, data).1 is Written ==> {
            let before = m.streams[stream.key];
            let after = m.write(stream, data).0;
            &&& before.send_credit > 0
            &&& after.streams[stream.key].send_credit == before.send_credit - 1
            &&& after.streams[stream.key].pushes_sent == before.pushes_sent + 1
            &&& after.streams[stream.key].credit_granted == before.credit_granted
            &&& after.outbound == m.outbound.push(push_bytes(stream.flow_id, data))
        },
        !(m.write(stream, data).1 is Written) ==> m.write(stream, data).0 == m,
        m.flows.get(id) matches Some(FlowSlot::Established(k)) ==> {
            let before = m.streams[k as int];
            let after = m.on_acknowledge(id, credit).0.streams[k as int];
            &&& after.credit_granted == before.credit_granted + credit
            &&& after.pushes_sent == before.pushes_sent
            &&& before.send_credit + credit <= u32::MAX ==> after.send_credit == before.send_credit
                + credit
        },
{
    if m.flows.get(id) matches Some(FlowSlot::Established(k)) {
        assert(m.flows.contains_key(id));
    }
}

/// After winding down, every stream that was in the flow table is at its
/// end: it cannot be written to, its reader finds the end behind what was
/// queued, and no read is left waiting.
pub proof fn law_wind_down_ends_every_stream(
    m: MuxModel,
    stream: EndpointModel,
    data: Seq<u8>,
    max: nat,
)
    requires
        m.wf(),
        m.owns(stream),
    ensures
        ({
            let done = m.begin_wind_down().finish_wind_down();
            let shared = done.streams[stream.key];
            &&& done.wf()
            &&& done.closed
            &&& done.flows == Map::<u32, FlowSlot>::empty()
            &&& done.owns(stream)
            &&& !shared.attached
            &&& shared.finish_sent
            &&& m.streams[stream.key].attached ==> shared.inbound
                == m.streams[stream.key].inbound.push(Seq::empty())
            &&& done.write(stream, data).1 is BrokenPipe
            &&& !(done.read(stream, max).2 is Pending)
            &&& shared.inbound.len() > 0 && shared.inbound[0].len() == 0
                && stream.residue.len() == 0 && max > 0 ==> done.read(stream, max).2 is Eof
        }),
{
    lemma_wind_down_wf(m);
    lemma_wind_down_wf(m.begin_wind_down());
    assert(m.stream_wf(stream.key));
}

/// After winding down, no stream is opened: every request fails as
/// closed.
pub proof fn law_no_stream_after_wind_down(
    m: MuxModel,
    candidates: Seq<u32>,
    reply: u64,
    host: Seq<u8>,
    port: u16,
)
    ensures
        m.begin_wind_down().refusal(candidates, host) == Some(crate::model::MuxError::Closed),
        m.begin_wind_down().open_stream(candidates, reply, host, port) == m.begin_wind_down(),
        m.begin_wind_down().finish_wind_down().refusal(candidates, host) == Some(
            crate::model::MuxError::Closed,
        ),
{
}

/// What one side writes, the other side reads: the `Push` that a write
/// queues is decoded by the peer as that push, joins the inbound queue of
/// the peer's stream, and is what the peer's next read gives.
pub proof fn law_written_bytes_are_read(
    a: MuxModel,
    writer: EndpointModel,
    b: MuxModel,
    reader: EndpointModel,
    data: Seq<u8>,
)
    requires
        a.wf(),
        b.wf(),
        reader.wf(),
        a.write(writer, data).1 is Written,
        data.len() > 0,
        b.owns(reader),
        reader.flow_id == writer.flow_id,
        reader.residue.len() == 0,
        b.flows.get(reader.flow_id) == Some(FlowSlot::Established(reader.key as usize)),
        b.streams[reader.key].inbound.len() == 0,
        b.config.initial_credit > 0,
    ensures
        ({
            let wire = a.write(writer, data).0.outbound.last();
            let frame = FrameModel { id: writer.flow_id, payload: PayloadModel::Push { data } };
            let received = b.process_frame(frame).0;
            &&& parse_frame(wire) == Ok::<FrameModel, FrameError>(frame)
            &&& received.read(reader, data.len()).2 == ReadModel::Data(data)
            &&& received.read(reader, data.len()).1.residue.len() == 0
        }),
{
    let frame = FrameModel { id: writer.flow_id, payload: PayloadModel::Push { data } };
    lemma_decode_encode(frame);
    assert(b.flows.contains_key(reader.flow_id));
    let received = b.process_frame(frame).0;
    assert(received.streams[reader.key].inbound[0] == data);
    assert(data.take(data.len() as int) =~= data);
    assert(data.skip(data.len() as int) =~= Seq::<u8>::empty());
}

/// The bytes in a queue of buffers, up to the first end marker.
pub open spec fn queued_bytes(queue: Seq<Seq<u8>>) -> Seq<u8>
    decreases queue.len(),
{
    if queue.len() == 0 || queue[0].len() == 0 {
        Seq::empty()
    } else {
        queue[0] + queued_bytes(queue.skip(1))
    }
}

/// The bytes that a reader has still to get before it sees the end: what
/// is left of the last buffer, then what is queued.
pub open spec fn unread(m: MuxModel, stream: EndpointModel) -> Seq<u8> {
    stream.residue + queued_bytes(m.streams[stream.key].inbound)
}

/// A buffer that joins a queue without an end marker joins the bytes that
/// are queued, at their end.
pub proof fn lemma_queued_bytes_push(queue: Seq<Seq<u8>>, data: Seq<u8>)
    requires
        data.len() > 0,
        forall|i: int| 0 <= i < queue.len() ==> (#[trigger] queue[i]).len() > 0,
    ensures
        queued_bytes(queue.push(data)) == queued_bytes(queue) + data,
    decreases queue.len(),
{
    let pushed = queue.push(data);
    if queue.len() == 0 {
        assert(pushed.skip(1) =~= Seq::<Seq<u8>>::empty());
        assert(pushed[0] == data);
        assert(queued_bytes(pushed.skip(1)) =~= Seq::<u8>::empty());
        assert(queued_bytes(pushed) =~= data);
        assert(queued_bytes(queue) + data =~= data);
    } else {
        let rest = queue.skip(1);
        assert(pushed.skip(1) =~= rest.push(data));
        assert forall|i: int| 0 <= i < rest.len() implies (#[trigger] rest[i]).len() > 0 by {
            assert(rest[i] == queue[i + 1]);
        }
        lemma_queued_bytes_push(rest, data);
        assert(pushed[0] == queue[0]);
        assert(queued_bytes(pushed) =~= queued_bytes(queue) + data);
    }
}

/// A stream is read in order and without loss: whatever a read gives is the
/// front of what was unread, and the rest stays unread. A read gives the
/// end, or has to wait, only when nothing is unread.
pub proof fn law_read_gives_the_front(m: MuxModel, stream: EndpointModel, max: nat)
    requires
        m.wf(),
        stream.wf(),
        m.owns(stream),
    ensures
        ({
            let (after, endpoint, out) = m.read(stream, max);
            match out {
                ReadModel::Data(bytes) => {
                    &&& bytes.len() <= max
                    &&& unread(m, stream) == bytes + unread(after, endpoint)
                },
                _ => unread(m, stream).len() == 0,
            }
        }),
{
    let (after, endpoint, out) = m.read(stream, max);
    let queue = m.streams[stream.key].inbound;
    if max == 0 {
        assert(unread(m, stream) =~= Seq::<u8>::empty() + unread(after, endpoint));
    } else if stream.residue.len() > 0 {
        let n = if max < stream.residue.len() {
            max as int
        } else {
            stream.residue.len() as int
        };
        assert(unread(m, stream) =~= stream.residue.take(n) + unread(after, endpoint));
    } else if queue.len() > 0 && queue[0].len() > 0 {
        let buf = queue[0];
        let n = if max < buf.len() {
            max as int
        } else {
            buf.len() as int
        };
        assert(after.streams[stream.key].inbound == queue.skip(1));
        assert(unread(m, stream) =~= buf.take(n) + unread(after, endpoint));
    } else {
        assert(unread(m, stream) =~= Seq::<u8>::empty());
    }
}

/// A push that the peer sends within its window joins what is unread, at
/// its end, so long as the peer has not finished the stream.
pub proof fn law_push_joins_the_back(m: MuxModel, stream: EndpointModel, data: Seq<u8>)
    requires
        m.wf(),
        m.owns(stream),
        m.flows.get(stream.flow_id) == Some(FlowSlot::Established(stream.key as usize)),
        m.streams[stream.key].inbound.len() < m.config.initial_credit,
        forall|i: int|
            0 <= i < m.streams[stream.key].inbound.len() ==> (
            #[trigger] m.streams[stream.key].inbound[i]).len() > 0,
        data.len() > 0,
    ensures
        unread(m.on_push(stream.flow_id, data).0, stream) == unread(m, stream) + data,
        m.on_push(stream.flow_id, data).0.owns(stream),
        m.on_push(stream.flow_id, data).0.outbound == m.outbound,
{
    assert(m.flows.contains_key(stream.flow_id));
    lemma_queued_bytes_push(m.streams[stream.key].inbound, data);
    let after = m.on_push(stream.flow_id, data).0;
    assert(after.streams[stream.key].inbound == m.streams[stream.key].inbound.push(data));
    assert(unread(after, stream) =~= unread(m, stream) + data);
}

/// A read that is given room never comes back empty-handed: it gives at
/// least one byte, or the end, or it has to wait. So a reader gets to the
/// end of a stream that was wound down in no more reads than there are
/// bytes unread, and one more.
pub proof fn law_reads_make_progress(m: MuxModel, stream: EndpointModel, max: nat)
    requires
        m.wf(),
        stream.wf(),
        m.owns(stream),
        max > 0,
    ensures
        m.read(stream, max).2 matches ReadModel::Data(bytes) ==> {
            &&& bytes.len() > 0
            &&& unread(m.read(stream, max).0, m.read(stream, max).1).len() < unread(
                m,
                stream,
            ).len()
        },
        m.read(stream, max).0.owns(m.read(stream, max).1),
        !m.streams[stream.key].attached ==> !(m.read(stream, max).2 is Pending)
            && !m.read(stream, max).0.streams[stream.key].attached,
{
    law_read_gives_the_front(m, stream, max);
}

/// A slot never goes backwards. In one step an established slot stays as
/// it is or leaves the table; a requested slot stays, becomes established
/// or leaves; a slot that waits for a bind stays or leaves. No step puts a
/// requested slot where an established one was.
pub proof fn law_slots_never_regress(m: MuxModel, event: Event, id: u32)
    requires
        m.wf(),
        admissible(m, event),
    ensures
        ({
            let after = step(m, event);
            match m.flows.get(id) {
                Some(FlowSlot::Established(k)) => after.flows.get(id) matches Some(slot) ==> slot
                    == FlowSlot::Established(k),
                Some(FlowSlot::Requested(reply)) => after.flows.get(id) matches Some(slot) ==> slot
                    == FlowSlot::Requested(reply) || slot is Established,
                Some(FlowSlot::BindRequested(reply)) => after.flows.get(id) matches Some(slot)
                    ==> slot == FlowSlot::BindRequested(reply),
                None => true,
            }
        }),
{
    let after = step(m, event);
    if m.flows.contains_key(id) {
        match event {
            Event::Open { candidates, reply, host, port } => {
                crate::flow::lemma_first_free(m.flows, candidates);
            },
            Event::Bind { candidates, reply, host, port } => {
                crate::flow::lemma_first_free(m.flows, candidates);
            },
            _ => {},
        }
    }
}

/// A `Connect` of the peer under an id that is free opens exactly one
/// stream. One slot joins the flow table, established, and no other slot
/// changes. The stream has the peer's window as its credit, has sent
/// nothing and holds nothing to read. The endpoint that is handed out is
/// the stream's, names the target that the peer asked for, and
/// acknowledges at the configured threshold or at the peer's window,
/// whichever is less. One `Acknowledge` with our window is queued, and
/// nothing else.
pub proof fn law_connect_opens_one_stream(
    m: MuxModel,
    id: u32,
    rwnd: u32,
    host: Seq<u8>,
    port: u16,
)
    requires
        m.wf(),
        m.streams.len() < usize::MAX,
        id != 0,
        !m.flows.contains_key(id),
    ensures
        ({
            let frame = FrameModel { id, payload: PayloadModel::Connect { rwnd, host, port } };
            let (after, out) = m.process_frame(frame);
            &&& out matches DispatchedModel::Accepted(ep)
            &&& ep.flow_id == id && ep.dest_host == host && ep.dest_port == port
            &&& ep.pushes_since_ack == 0 && ep.residue.len() == 0
            &&& ep.ack_threshold == min_u32(m.config.ack_threshold, rwnd)
            &&& ep.ack_threshold <= m.config.initial_credit
            &&& 0 <= ep.key < after.streams.len()
            &&& after.owns(ep)
            &&& after.flows == m.flows.insert(id, FlowSlot::Established(ep.key as usize))
            &&& after.streams[ep.key] == StreamModel::fresh(id, rwnd)
            &&& after.streams[ep.key].send_credit == rwnd
            &&& !after.streams[ep.key].finish_sent
            &&& after.streams[ep.key].inbound.len() == 0
            &&& forall|k: int|
                0 <= k < m.streams.len() && k != ep.key ==> after.streams[k] == m.streams[k]
            &&& forall|k: int|
                0 <= k < m.streams.len() && k == ep.key ==> (#[trigger] m.streams[k]).vacant()
            &&& after.outbound == m.outbound.push(acknowledge_bytes(id, m.config.initial_credit))
            &&& after.dropped == m.dropped
        }),
{
    crate::model::lemma_vacant_from(m.streams, 0);
}

/// A `Connect` of the peer under flow id zero, or under an id that is in
/// use in whatever state, changes neither the flow table nor any stream:
/// one `Reset` is queued, nothing is acknowledged and nothing is handed
/// out.
pub proof fn law_connect_on_id_in_use(m: MuxModel, id: u32, rwnd: u32, host: Seq<u8>, port: u16)
    requires
        id == 0 || m.flows.contains_key(id),
    ensures
        ({
            let frame = FrameModel { id, payload: PayloadModel::Connect { rwnd, host, port } };
            let (after, out) = m.process_frame(frame);
            &&& out == DispatchedModel::Nothing
            &&& after.flows == m.flows
            &&& after.streams == m.streams
            &&& after.outbound == m.outbound.push(reset_bytes(id))
            &&& after.dropped == m.dropped
        }),
{
}

/// The first `Acknowledge` on a requested slot establishes it. The slot
/// becomes established and no other slot changes; the stream's credit is
/// the credit that the peer granted, set and not added to anything; the
/// endpoint goes to the one who waited, under the same flow id and with no
/// target; and nothing is queued, no `Reset` either.
pub proof fn law_acknowledge_opens_requested(m: MuxModel, id: u32, credit: u32, reply: u64)
    requires
        m.wf(),
        m.streams.len() < usize::MAX,
        m.flows.get(id) == Some(FlowSlot::Requested(reply)),
    ensures
        ({
            let frame = FrameModel { id, payload: PayloadModel::Acknowledge { credit } };
            let (after, out) = m.process_frame(frame);
            &&& out matches DispatchedModel::Opened { reply: waiting, stream: ep }
            &&& waiting == reply
            &&& ep.flow_id == id && ep.dest_host.len() == 0 && ep.dest_port == 0
            &&& ep.pushes_since_ack == 0
            &&& ep.ack_threshold == min_u32(m.config.ack_threshold, credit)
            &&& 0 <= ep.key < after.streams.len()
            &&& after.owns(ep)
            &&& after.flows == m.flows.insert(id, FlowSlot::Established(ep.key as usize))
            &&& after.streams[ep.key] == StreamModel::fresh(id, credit)
            &&& after.streams[ep.key].send_credit == credit
            &&& forall|k: int|
                0 <= k < m.streams.len() && k != ep.key ==> after.streams[k] == m.streams[k]
            &&& after.outbound == m.outbound
        }),
{
    crate::model::lemma_vacant_from(m.streams, 0);
    assert(m.flows.contains_key(id));
}

/// An `Acknowledge` on an established stream adds its credit to what the
/// stream may send, and changes nothing else of the stream, no slot and
/// nothing that is queued.
pub proof fn law_acknowledge_adds_credit(m: MuxModel, id: u32, credit: u32, key: usize)
    requires
        m.wf(),
        m.flows.get(id) == Some(FlowSlot::Established(key)),
    ensures
        ({
            let frame = FrameModel { id, payload: PayloadModel::Acknowledge { credit } };
            let (after, out) = m.process_frame(frame);
            let before = m.streams[key as int];
            &&& out == (DispatchedModel::Wake { key: key as int })
            &&& after.flows == m.flows
            &&& after.outbound == m.outbound
            &&& after.streams[key as int] == (StreamModel {
                send_credit: after.streams[key as int].send_credit,
                credit_granted: before.credit_granted + credit as nat,
                ..before
            })
            &&& before.send_credit + credit <= u32::MAX ==> after.streams[key as int].send_credit
                == before.send_credit + credit
        }),
{
    assert(m.flows.contains_key(id));
}

} // verus!
