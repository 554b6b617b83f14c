use penguin::flow::FlowSlot;
use penguin::frame::Frame;
use penguin::model::{Config, MuxError};
use penguin::mux::{
    Dispatched, DroppedStep, Message, MultiplexorInner, MuxStream, ReadOutcome, WriteOutcome,
};
use penguin::task::{task, Polled};

fn new_mux(credit: u32, threshold: u32) -> MultiplexorInner {
    MultiplexorInner::new(Config::new(credit, threshold, false))
}

fn sent(mux: &mut MultiplexorInner) -> Vec<Vec<u8>> {
    let mut frames = Vec::new();
    while let Some(frame) = mux.next_outbound() {
        frames.push(frame.into_bytes());
    }
    frames
}

fn deliver(mux: &mut MultiplexorInner, bytes: &[u8]) -> Dispatched {
    mux.process_message(Message::Binary(bytes.to_vec())).unwrap().dispatched
}

fn accepted(d: Dispatched) -> MuxStream {
    match d {
        Dispatched::Accepted(stream) => stream,
        other => panic!("expected an accepted stream, got {:?}", other),
    }
}

fn opened(d: Dispatched, want_reply: u64) -> MuxStream {
    match d {
        Dispatched::Opened { reply, stream } => {
            assert_eq!(reply, want_reply);
            stream
        }
        other => panic!("expected an opened stream, got {:?}", other),
    }
}

/// Opens one stream from `client` to `server` under `id` and returns both ends.
fn connect(
    client: &mut MultiplexorInner,
    server: &mut MultiplexorInner,
    id: u32,
) -> (MuxStream, MuxStream) {
    assert_eq!(client.open_stream(&[id], 1, b"example.com", 80), Ok(id));
    let connect = sent(client);
    assert_eq!(connect.len(), 1);
    let server_end = accepted(deliver(server, &connect[0]));
    let ack = sent(server);
    assert_eq!(ack.len(), 1);
    let client_end = opened(deliver(client, &ack[0]), 1);
    (client_end, server_end)
}

#[test]
fn scenario_connect_and_close_without_reset() {
    let mut client = new_mux(32, 16);
    let mut server = new_mux(32, 16);
    let id = 0x0a0b_0c0d;
    assert_eq!(client.open_stream(&[id], 7, b"example.com", 80), Ok(id));
    assert_eq!(client.slot(id), Some(FlowSlot::Requested(7)));
    let frames = sent(&mut client);
    let mut connect = vec![0x0a, 0x0b, 0x0c, 0x0d, 0x01, 0, 0, 0, 32, 11];
    connect.extend_from_slice(b"example.com");
    connect.extend_from_slice(&[0, 80]);
    assert_eq!(frames, vec![connect.clone()]);

    let server_end = accepted(deliver(&mut server, &connect));
    assert_eq!(server_end.flow_id(), id);
    assert_eq!(server_end.dest_host(), b"example.com");
    assert_eq!(server_end.dest_port(), 80);
    assert!(matches!(server.slot(id), Some(FlowSlot::Established(_))));
    let frames = sent(&mut server);
    assert_eq!(frames, vec![vec![0x0a, 0x0b, 0x0c, 0x0d, 0x02, 0, 0, 0, 32]]);

    let client_end = opened(deliver(&mut client, &frames[0]), 7);
    assert_eq!(client_end.flow_id(), id);
    assert_eq!(client_end.dest_host(), b"");
    assert_eq!(client_end.dest_port(), 0);
    assert!(matches!(client.slot(id), Some(FlowSlot::Established(_))));

    // closing the client sends Finish, and only once
    assert!(client_end.finish(&mut client));
    assert!(!client_end.finish(&mut client));
    let fin = vec![0x0a, 0x0b, 0x0c, 0x0d, 0x03];
    assert_eq!(sent(&mut client), vec![fin.clone()]);
    assert!(matches!(deliver(&mut server, &fin), Dispatched::Wake { .. }));
    let mut server_end = server_end;
    assert_eq!(server_end.read(&mut server, 100), ReadOutcome::Eof);

    // closing the server sends Finish too
    assert!(server_end.finish(&mut server));
    assert_eq!(sent(&mut server), vec![fin.clone()]);
    assert!(matches!(deliver(&mut client, &fin), Dispatched::Wake { .. }));
    let mut client_end = client_end;
    assert_eq!(client_end.read(&mut client, 100), ReadOutcome::Eof);

    // dropping both ends closes the ports, and no Reset goes out
    client_end.release(&mut client);
    server_end.release(&mut server);
    assert!(matches!(client.process_dropped_port(), DroppedStep::Closed(Dispatched::Wake { .. })));
    assert!(matches!(server.process_dropped_port(), DroppedStep::Closed(Dispatched::Wake { .. })));
    assert!(matches!(client.process_dropped_port(), DroppedStep::Idle));
    assert_eq!(client.slot(id), None);
    assert_eq!(server.slot(id), None);
    assert!(sent(&mut client).is_empty());
    assert!(sent(&mut server).is_empty());
}

#[test]
fn scenario_push_overrun_is_reset() {
    let mut a = new_mux(32, 16);
    let mut b = new_mux(4, 4);
    let (_a_end, _b_end) = connect(&mut a, &mut b, 9);
    let push = Frame::new_push(9, b"x".to_vec()).finalize().unwrap().into_bytes();
    for _ in 0..4 {
        assert!(matches!(deliver(&mut b, &push), Dispatched::Wake { .. }));
        assert!(sent(&mut b).is_empty());
    }
    assert!(matches!(b.slot(9), Some(FlowSlot::Established(_))));
    // the fifth push overruns the window
    assert!(matches!(deliver(&mut b, &push), Dispatched::Wake { .. }));
    assert_eq!(b.slot(9), None);
    let reset = vec![0, 0, 0, 9, 0x04];
    assert_eq!(sent(&mut b), vec![reset.clone()]);
    // and every further push is reset again
    assert!(matches!(deliver(&mut b, &push), Dispatched::Nothing));
    assert_eq!(sent(&mut b), vec![reset]);
}

#[test]
fn scenario_connect_collision() {
    let mut a = new_mux(32, 16);
    assert_eq!(a.open_stream(&[5], 1, b"h", 1), Ok(5));
    sent(&mut a);
    // the peer's Connect under the same id arrives later: it is reset
    let theirs = Frame::new_connect(5, b"other".to_vec(), 2, 32).finalize().unwrap().into_bytes();
    assert!(matches!(deliver(&mut a, &theirs), Dispatched::Nothing));
    assert_eq!(sent(&mut a), vec![vec![0, 0, 0, 5, 0x04]]);
    assert_eq!(a.slot(5), Some(FlowSlot::Requested(1)));
    // our own Connect goes on to be established
    let ack = Frame::new_acknowledge(5, 32).finalize().unwrap().into_bytes();
    let stream = opened(deliver(&mut a, &ack), 1);
    assert_eq!(stream.flow_id(), 5);
    assert!(matches!(a.slot(5), Some(FlowSlot::Established(_))));
    // the side that lost is told to try another id
    let mut b = new_mux(32, 16);
    assert_eq!(b.open_stream(&[5], 3, b"h", 1), Ok(5));
    let reset = Frame::new_reset(5).finalize().unwrap().into_bytes();
    assert!(matches!(deliver(&mut b, &reset), Dispatched::OpenReset { reply: 3 }));
    assert_eq!(b.slot(5), None);
}

#[test]
fn scenario_graceful_shutdown() {
    let mut client = new_mux(32, 16);
    let mut server = new_mux(32, 16);
    let mut ends = Vec::new();
    for id in 1..=3u32 {
        ends.push(connect(&mut client, &mut server, id));
    }
    for i in 0..10usize {
        let (end, _) = &ends[i % 3];
        assert_eq!(end.write(&mut client, b"data"), WriteOutcome::Written(4));
    }
    assert_eq!(client.outbound_len(), 10);

    client.shutdown();
    assert!(matches!(client.process_dropped_port(), DroppedStep::Shutdown));
    let finished = task(Polled { dropped_ports: Some(Ok(())), ws_next: None, frame_recv: None })
        .unwrap();
    assert!(finished.should_drain);
    assert_eq!(finished.result, Ok(()));

    client.begin_wind_down();
    let frames = client.drain_outbound(finished.should_drain);
    assert_eq!(frames.len(), 10);
    for frame in &frames {
        assert_eq!(frame.as_bytes()[4], 0x05);
    }
    assert_eq!(client.outbound_len(), 0);
    client.finish_wind_down();
    assert_eq!(client.flow_count(), 0);
    assert!(client.is_closed());

    for (end, _) in ends.iter_mut() {
        assert_eq!(end.read(&mut client, 10), ReadOutcome::Eof);
        assert_eq!(end.write(&mut client, b"late"), WriteOutcome::BrokenPipe);
    }
    assert_eq!(client.open_stream(&[77], 1, b"h", 1), Err(MuxError::Closed));
}

#[test]
fn wind_down_without_drain_sends_nothing() {
    let mut client = new_mux(32, 16);
    let mut server = new_mux(32, 16);
    let (end, _) = connect(&mut client, &mut server, 1);
    assert_eq!(end.write(&mut client, b"data"), WriteOutcome::Written(4));
    let finished = task(Polled { dropped_ports: None, ws_next: Some(Ok(())), frame_recv: None })
        .unwrap();
    assert!(!finished.should_drain);
    client.begin_wind_down();
    assert!(client.drain_outbound(finished.should_drain).is_empty());
    assert_eq!(client.outbound_len(), 1);
}

#[test]
fn endpoints_match_established_slots_at_rest() {
    let mut client = new_mux(32, 16);
    let mut server = new_mux(32, 16);
    let mut open = Vec::new();
    for id in 1..=5u32 {
        open.push(connect(&mut client, &mut server, id).0);
    }
    assert_eq!(client.flow_count(), 5);
    // close two of them
    open.pop().unwrap().release(&mut client);
    open.remove(0).release(&mut client);
    while !matches!(client.process_dropped_port(), DroppedStep::Idle) {}
    assert_eq!(client.flow_count(), open.len());
    for end in &open {
        assert!(client.holds(end));
        assert!(
            matches!(client.slot(end.flow_id()), Some(FlowSlot::Established(k)) if k == end.key()),
        );
    }
    // each closed stream was reset, once
    assert_eq!(sent(&mut client), vec![vec![0, 0, 0, 5, 0x04], vec![0, 0, 0, 1, 0x04]]);
    // the places of the closed streams are used again
    let again = connect(&mut client, &mut server, 9).0;
    assert!(again.key() < 5);
    assert_eq!(client.flow_count(), open.len() + 1);
}

#[test]
fn dropped_endpoint_without_finish_sends_one_reset() {
    let mut client = new_mux(32, 16);
    let mut server = new_mux(32, 16);
    let (end, _) = connect(&mut client, &mut server, 4);
    end.release(&mut client);
    assert!(matches!(client.process_dropped_port(), DroppedStep::Closed(_)));
    assert_eq!(sent(&mut client), vec![vec![0, 0, 0, 4, 0x04]]);
    assert_eq!(client.slot(4), None);
    // a Reset from the peer is not answered with a Reset
    let (_end, _) = connect(&mut client, &mut server, 6);
    let reset = Frame::new_reset(6).finalize().unwrap().into_bytes();
    assert!(matches!(deliver(&mut client, &reset), Dispatched::Wake { .. }));
    assert_eq!(client.slot(6), None);
    assert!(sent(&mut client).is_empty());
}

#[test]
fn acknowledge_is_sent_at_the_threshold() {
    let mut a = new_mux(32, 16);
    let mut b = new_mux(8, 3);
    let (_a_end, mut b_end) = connect(&mut a, &mut b, 2);
    assert_eq!(b_end.ack_threshold(), 3);
    for round in 0..2 {
        for i in 0..3u8 {
            let push = Frame::new_push(2, vec![round, i]).finalize().unwrap().into_bytes();
            deliver(&mut b, &push);
        }
        assert_eq!(b_end.read(&mut b, 10), ReadOutcome::Data(vec![round, 0]));
        assert!(sent(&mut b).is_empty());
        assert_eq!(b_end.read(&mut b, 10), ReadOutcome::Data(vec![round, 1]));
        assert!(sent(&mut b).is_empty());
        assert_eq!(b_end.read(&mut b, 10), ReadOutcome::Data(vec![round, 2]));
        assert_eq!(sent(&mut b), vec![vec![0, 0, 0, 2, 0x02, 0, 0, 0, 3]]);
    }
    assert_eq!(b_end.read(&mut b, 10), ReadOutcome::Pending);
}

#[test]
fn threshold_is_clamped_to_the_peers_window() {
    let mut b = new_mux(32, 16);
    let connect = Frame::new_connect(3, b"h".to_vec(), 1, 2).finalize().unwrap().into_bytes();
    let end = accepted(deliver(&mut b, &connect));
    assert_eq!(end.ack_threshold(), 2);
    assert_eq!(Config::new(8, 20, true).ack_threshold, 8);
    assert_eq!(
        MultiplexorInner::new(Config { initial_credit: 4, ack_threshold: 9, accept_bind: false })
            .config()
            .ack_threshold,
        4,
    );
}

#[test]
fn writes_stop_when_credit_is_used_up() {
    let mut a = new_mux(32, 16);
    let mut b = new_mux(2, 1);
    let (a_end, _b_end) = connect(&mut a, &mut b, 8);
    assert_eq!(a_end.write(&mut a, b"one"), WriteOutcome::Written(3));
    assert_eq!(a_end.write(&mut a, b"two"), WriteOutcome::Written(3));
    assert_eq!(a_end.write(&mut a, b"three"), WriteOutcome::NoCredit);
    assert_eq!(sent(&mut a).len(), 2);
    // an Acknowledge refills the credit
    let ack = Frame::new_acknowledge(8, 1).finalize().unwrap().into_bytes();
    assert!(matches!(deliver(&mut a, &ack), Dispatched::Wake { .. }));
    assert_eq!(a_end.write(&mut a, b"three"), WriteOutcome::Written(5));
    assert_eq!(a_end.write(&mut a, b"four"), WriteOutcome::NoCredit);
    let frames = sent(&mut a);
    assert_eq!(frames, vec![vec![0, 0, 0, 8, 0x05, b't', b'h', b'r', b'e', b'e']]);
}

#[test]
fn write_after_finish_is_a_broken_pipe() {
    let mut a = new_mux(32, 16);
    let mut b = new_mux(32, 16);
    let (a_end, _b_end) = connect(&mut a, &mut b, 8);
    assert!(a_end.finish(&mut a));
    assert_eq!(a_end.write(&mut a, b"late"), WriteOutcome::BrokenPipe);
    assert_eq!(sent(&mut a), vec![vec![0, 0, 0, 8, 0x03]]);
}

#[test]
fn bytes_written_are_the_bytes_read() {
    let mut a = new_mux(32, 16);
    let mut b = new_mux(32, 16);
    let (a_end, mut b_end) = connect(&mut a, &mut b, 11);
    let input: Vec<u8> = (0..=255u8).collect();
    for chunk in input.chunks(50) {
        assert_eq!(a_end.write(&mut a, chunk), WriteOutcome::Written(chunk.len()));
    }
    a_end.finish(&mut a);
    for frame in sent(&mut a) {
        deliver(&mut b, &frame);
    }
    let mut output = Vec::new();
    loop {
        match b_end.read(&mut b, 7) {
            ReadOutcome::Data(bytes) => {
                assert!(!bytes.is_empty() && bytes.len() <= 7);
                output.extend_from_slice(&bytes);
            }
            ReadOutcome::Eof => break,
            ReadOutcome::Pending => panic!("nothing is left to wait for"),
        }
    }
    assert_eq!(output, input);
}

#[test]
fn read_of_nothing_gives_nothing() {
    let mut a = new_mux(32, 16);
    let mut b = new_mux(32, 16);
    let (_a_end, mut b_end) = connect(&mut a, &mut b, 11);
    assert_eq!(b_end.read(&mut b, 0), ReadOutcome::Data(vec![]));
    assert_eq!(b_end.read(&mut b, 1), ReadOutcome::Pending);
}

#[test]
fn frames_for_flows_that_are_not_there() {
    let mut m = new_mux(32, 16);
    let ack = Frame::new_acknowledge(1, 5).finalize().unwrap().into_bytes();
    assert!(matches!(deliver(&mut m, &ack), Dispatched::Nothing));
    assert_eq!(sent(&mut m), vec![vec![0, 0, 0, 1, 0x04]]);
    let fin = Frame::new_finish(1).finalize().unwrap().into_bytes();
    assert!(matches!(deliver(&mut m, &fin), Dispatched::Nothing));
    assert!(sent(&mut m).is_empty());
    let reset = Frame::new_reset(1).finalize().unwrap().into_bytes();
    assert!(matches!(deliver(&mut m, &reset), Dispatched::Nothing));
    assert!(sent(&mut m).is_empty());
    let push = Frame::new_push(1, vec![1]).finalize().unwrap().into_bytes();
    assert!(matches!(deliver(&mut m, &push), Dispatched::Nothing));
    assert_eq!(sent(&mut m), vec![vec![0, 0, 0, 1, 0x04]]);
}

#[test]
fn answers_out_of_protocol() {
    let mut m = new_mux(32, 16);
    // Finish in answer to Connect
    assert_eq!(m.open_stream(&[1], 10, b"h", 1), Ok(1));
    sent(&mut m);
    let fin = Frame::new_finish(1).finalize().unwrap().into_bytes();
    assert!(matches!(deliver(&mut m, &fin), Dispatched::OpenDropped { reply: 10 }));
    assert_eq!(m.slot(1), None);
    assert_eq!(sent(&mut m), vec![vec![0, 0, 0, 1, 0x04]]);
    // Acknowledge in answer to Bind
    assert_eq!(m.request_bind(&[2], 11, b"0.0.0.0", 53), Ok(2));
    let bind = sent(&mut m);
    let mut expected = vec![0, 0, 0, 2, 0x06, 7];
    expected.extend_from_slice(b"0.0.0.0");
    expected.extend_from_slice(&[0, 53]);
    assert_eq!(bind, vec![expected]);
    assert_eq!(m.slot(2), Some(FlowSlot::BindRequested(11)));
    let ack = Frame::new_acknowledge(2, 5).finalize().unwrap().into_bytes();
    assert!(matches!(deliver(&mut m, &ack), Dispatched::BindAnswered { reply: 11, bound: false }));
    assert_eq!(m.slot(2), None);
    assert_eq!(sent(&mut m), vec![vec![0, 0, 0, 2, 0x04]]);
}

#[test]
fn bind_is_answered_by_finish_or_reset() {
    let mut m = new_mux(32, 16);
    assert_eq!(m.request_bind(&[2], 11, b"h", 53), Ok(2));
    let fin = Frame::new_finish(2).finalize().unwrap().into_bytes();
    assert!(matches!(deliver(&mut m, &fin), Dispatched::BindAnswered { reply: 11, bound: true }));
    assert_eq!(m.request_bind(&[2], 12, b"h", 53), Ok(2));
    let reset = Frame::new_reset(2).finalize().unwrap().into_bytes();
    assert!(
        matches!(deliver(&mut m, &reset), Dispatched::BindAnswered { reply: 12, bound: false }),
    );
    assert_eq!(m.flow_count(), 0);
}

#[test]
fn bind_requests_of_the_peer() {
    let bind = Frame::new_bind(3, b"::".to_vec(), 8080).finalize().unwrap().into_bytes();
    let mut refusing = new_mux(32, 16);
    assert!(matches!(deliver(&mut refusing, &bind), Dispatched::Nothing));
    assert_eq!(sent(&mut refusing), vec![vec![0, 0, 0, 3, 0x04]]);
    let mut accepting = MultiplexorInner::new(Config::new(32, 16, true));
    match deliver(&mut accepting, &bind) {
        Dispatched::BindRequest(request) => {
            assert_eq!(request.flow_id, 3);
            assert_eq!(request.host, b"::".to_vec());
            assert_eq!(request.port, 8080);
        }
        other => panic!("expected a bind request, got {:?}", other),
    }
    accepting.reply_bind(3, true);
    accepting.reply_bind(3, false);
    assert_eq!(sent(&mut accepting), vec![vec![0, 0, 0, 3, 0x03], vec![0, 0, 0, 3, 0x04]]);
    // while winding down no bind request is taken
    accepting.begin_wind_down();
    assert!(matches!(deliver(&mut accepting, &bind), Dispatched::Nothing));
}

#[test]
fn messages_that_are_no_frames() {
    let mut m = new_mux(32, 16);
    assert_eq!(m.process_message(Message::Text).err(), Some(MuxError::TextMessage));
    let ping = m.process_message(Message::Ping).unwrap();
    assert!(!ping.closing && matches!(ping.dispatched, Dispatched::Nothing));
    let pong = m.process_message(Message::Pong).unwrap();
    assert!(!pong.closing && matches!(pong.dispatched, Dispatched::Nothing));
    let close = m.process_message(Message::Close).unwrap();
    assert!(close.closing);
    let bad = m.process_message(Message::Binary(vec![0, 0, 0, 1, 0x20]));
    assert_eq!(
        bad.err(),
        Some(MuxError::Frame(penguin::frame::FrameError::UnknownOpcode(0x20)))
    );
}

#[test]
fn requests_that_are_refused() {
    let mut m = new_mux(32, 16);
    assert_eq!(m.open_stream(&[], 1, b"h", 1), Err(MuxError::NoFreeId));
    assert_eq!(m.open_stream(&[0], 1, b"h", 1), Err(MuxError::NoFreeId));
    assert_eq!(m.open_stream(&[1], 1, &[b'a'; 256], 1), Err(MuxError::HostTooLong));
    assert_eq!(m.open_stream(&[1], 1, b"h", 1), Ok(1));
    assert_eq!(m.open_stream(&[0, 1, 2, 3], 1, b"h", 1), Ok(2));
    assert_eq!(m.request_bind(&[1, 2], 1, b"h", 1), Err(MuxError::NoFreeId));
    assert_eq!(m.send_datagram(1, &[b'a'; 256], 1, b""), Err(MuxError::HostTooLong));
    assert_eq!(m.flow_count(), 2);
}

#[test]
fn push_after_the_endpoint_was_dropped_is_dropped() {
    let mut a = new_mux(32, 16);
    let mut b = new_mux(32, 16);
    let (_a_end, b_end) = connect(&mut a, &mut b, 5);
    b_end.release(&mut b);
    let push = Frame::new_push(5, vec![1]).finalize().unwrap().into_bytes();
    assert!(matches!(deliver(&mut b, &push), Dispatched::Nothing));
    assert!(sent(&mut b).is_empty());
    assert!(matches!(b.slot(5), Some(FlowSlot::Established(_))));
}

#[test]
fn datagrams_go_both_ways() {
    let mut a = new_mux(32, 16);
    let mut b = new_mux(32, 16);
    assert_eq!(a.send_datagram(42, b"1.2.3.4", 53, b"query"), Ok(()));
    let frames = sent(&mut a);
    match deliver(&mut b, &frames[0]) {
        Dispatched::Datagram(d) => {
            assert_eq!(d.flow_id, 42);
            assert_eq!(d.target_host, b"1.2.3.4".to_vec());
            assert_eq!(d.target_port, 53);
            assert_eq!(d.data, b"query".to_vec());
        }
        other => panic!("expected a datagram, got {:?}", other),
    }
}

#[test]
fn dropped_ports_are_closed_in_one_go() {
    let mut client = new_mux(32, 16);
    let mut server = new_mux(32, 16);
    let (a, _) = connect(&mut client, &mut server, 1);
    let (b, _) = connect(&mut client, &mut server, 2);
    let (c, _) = connect(&mut client, &mut server, 3);
    let key_a = a.key();
    let key_b = b.key();
    a.release(&mut client);
    b.release(&mut client);
    client.shutdown();
    c.release(&mut client);
    let (signals, shutdown) = client.process_dropped_ports_task();
    assert!(shutdown);
    assert_eq!(signals.len(), 2);
    assert!(matches!(signals[0], Dispatched::Wake { key } if key == key_a));
    assert!(matches!(signals[1], Dispatched::Wake { key } if key == key_b));
    assert_eq!(client.slot(1), None);
    assert_eq!(client.slot(2), None);
    // what was dropped behind the multiplexor itself is left alone
    assert!(matches!(client.slot(3), Some(FlowSlot::Established(_))));
    assert_eq!(sent(&mut client), vec![vec![0, 0, 0, 1, 0x04], vec![0, 0, 0, 2, 0x04]]);
    let (signals, shutdown) = client.process_dropped_ports_task();
    assert!(!shutdown);
    assert_eq!(signals.len(), 1);
    assert_eq!(client.flow_count(), 0);
}

#[test]
fn flush_marker_is_queued_and_never_drained_as_a_frame() {
    let mut m = new_mux(32, 16);
    assert!(m.can_take_stream());
    m.request_flush();
    assert_eq!(m.outbound_len(), 1);
    let marker = m.next_outbound().unwrap();
    assert!(marker.is_empty());
    assert_eq!(penguin::task::process_frame_recv_task(&marker), Ok(penguin::task::Transmit::Flush));
}

#[test]
fn connect_under_flow_id_zero_is_reset() {
    let mut server = new_mux(32, 16);
    let connect = Frame::new_connect(0, b"h".to_vec(), 80, 4).finalize().unwrap().into_bytes();
    assert!(matches!(deliver(&mut server, &connect), Dispatched::Nothing));
    assert_eq!(server.slot(0), None);
    assert_eq!(server.flow_count(), 0);
    assert_eq!(sent(&mut server), vec![vec![0, 0, 0, 0, 0x04]]);
    // so a dropped endpoint is never taken for the multiplexor itself
    let other = Frame::new_connect(1, b"h".to_vec(), 80, 4).finalize().unwrap().into_bytes();
    let end = accepted(deliver(&mut server, &other));
    sent(&mut server);
    end.release(&mut server);
    assert!(matches!(server.process_dropped_port(), DroppedStep::Closed(_)));
    assert!(matches!(server.process_dropped_port(), DroppedStep::Idle));
}

#[test]
fn drain_leaves_the_flush_markers_out() {
    let mut client = new_mux(32, 16);
    let mut server = new_mux(32, 16);
    let (end, _) = connect(&mut client, &mut server, 1);
    client.request_flush();
    assert_eq!(end.write(&mut client, b"one"), WriteOutcome::Written(3));
    client.request_flush();
    client.request_flush();
    assert_eq!(end.write(&mut client, b"two"), WriteOutcome::Written(3));
    assert!(end.finish(&mut client));
    client.request_flush();
    assert_eq!(client.outbound_len(), 7);
    client.begin_wind_down();
    let frames: Vec<Vec<u8>> =
        client.drain_outbound(true).into_iter().map(|f| f.into_bytes()).collect();
    assert_eq!(
        frames,
        vec![
            vec![0, 0, 0, 1, 0x05, b'o', b'n', b'e'],
            vec![0, 0, 0, 1, 0x05, b't', b'w', b'o'],
            vec![0, 0, 0, 1, 0x03],
        ]
    );
    assert_eq!(client.outbound_len(), 0);
    // only markers queued: nothing is left to send
    client.request_flush();
    assert!(client.drain_outbound(true).is_empty());
    assert_eq!(client.outbound_len(), 0);
}
