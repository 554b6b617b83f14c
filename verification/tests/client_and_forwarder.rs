use penguin::client::{
    after_failure, channel_tcp_handshake, channel_udp_handshake, check_handshake_reply,
    frame_datagram, handle_remote, handshake, handshake_outcome, listener_step,
    retryable_errors, Adapter, ListenerEvent, ListenerNext,
    AfterFailure, ClientArgs, HandshakeEvent, Header, IoFailure, LocalSpec, Protocol,
    RemoteSpec,
};
use penguin::forward::{
    bind_and_send, datagram_target, tcp_forwarder_on_channel, udp_forward_to, Attempt, Family,
    ForwardAction, ForwardError, ForwardEvent, NextAttempt,
};
use penguin::frame::{FinalizedFrame, Frame, FrameError};
use penguin::model::{Config, MuxError};
use penguin::mux::{Datagram, Dispatched, Message, MultiplexorInner};
use penguin::task::{
    after_accept, after_datagram, after_open_reply, flush_ignore_closed, log_level, OpenNext,
    OpenReply, process_frame_recv_task,
    process_ws_next, task, task_result, Delivery, Finished, Flushed, LogLevel, Polled, Transmit,
    WsNext, WsStep,
};

fn header(name: &str, value: &str) -> Header {
    Header { name: name.as_bytes().to_vec(), value: value.as_bytes().to_vec() }
}

#[test]
fn handshake_headers_in_order() {
    let args = ClientArgs {
        scheme: b"wss".to_vec(),
        protocol: b"penguin-v6".to_vec(),
        ws_psk: Some(b"key".to_vec()),
        hostname: Some(b"example.com".to_vec()),
        header: vec![header("x-a", "1"), header("host", "other")],
    };
    let plan = handshake(&args);
    assert!(plan.tls);
    assert_eq!(
        plan.headers,
        vec![
            header("sec-websocket-protocol", "penguin-v6"),
            header("x-penguin-psk", "key"),
            header("host", "example.com"),
            header("x-a", "1"),
            header("host", "other"),
        ]
    );
    let plain = ClientArgs {
        scheme: b"ws".to_vec(),
        protocol: b"p".to_vec(),
        ws_psk: None,
        hostname: None,
        header: vec![],
    };
    let plan = handshake(&plain);
    assert!(!plan.tls);
    assert_eq!(plan.headers, vec![header("sec-websocket-protocol", "p")]);
}

#[test]
fn handshake_race() {
    assert_eq!(handshake_outcome(HandshakeEvent::Connected), Ok(()));
    assert_eq!(handshake_outcome(HandshakeEvent::Failed), Err(penguin::client::Error::WebSocket));
    assert_eq!(
        handshake_outcome(HandshakeEvent::TimedOut),
        Err(penguin::client::Error::HandshakeCancelled),
    );
    assert_eq!(
        handshake_outcome(HandshakeEvent::Interrupted),
        Err(penguin::client::Error::HandshakeCancelled),
    );
}

#[test]
fn adapter_for_each_remote() {
    let inet = LocalSpec::Inet;
    let stdio = LocalSpec::Stdio;
    assert_eq!(handle_remote(inet, RemoteSpec::Inet, Protocol::Tcp), Adapter::TcpListener);
    assert_eq!(handle_remote(inet, RemoteSpec::Inet, Protocol::Udp), Adapter::UdpSocket);
    assert_eq!(handle_remote(stdio, RemoteSpec::Inet, Protocol::Tcp), Adapter::StdioTcp);
    assert_eq!(handle_remote(stdio, RemoteSpec::Inet, Protocol::Udp), Adapter::StdioUdp);
    assert_eq!(handle_remote(inet, RemoteSpec::Socks, Protocol::Tcp), Adapter::SocksListener);
    assert_eq!(handle_remote(inet, RemoteSpec::Socks, Protocol::Udp), Adapter::SocksListener);
    assert_eq!(handle_remote(stdio, RemoteSpec::Socks, Protocol::Tcp), Adapter::SocksStdio);
    assert_eq!(handle_remote(stdio, RemoteSpec::Socks, Protocol::Udp), Adapter::SocksStdio);
}

#[test]
fn failures_worth_another_try() {
    for failure in [
        IoFailure::ConnectionReset,
        IoFailure::ConnectionAborted,
        IoFailure::BrokenPipe,
        IoFailure::TimedOut,
        IoFailure::Interrupted,
    ] {
        assert!(retryable_errors(failure));
        assert_eq!(after_failure(failure), AfterFailure::Continue);
    }
    assert!(!retryable_errors(IoFailure::Other));
    assert_eq!(after_failure(IoFailure::Other), AfterFailure::GiveUp);
}

#[test]
fn stream_request_over_a_channel() {
    let mut expected = vec![1u8, 11];
    expected.extend_from_slice(b"example.com");
    expected.extend_from_slice(&[0x1f, 0x90]);
    assert_eq!(channel_tcp_handshake(b"example.com", 8080), Ok(expected.clone()));
    expected[0] = 3;
    assert_eq!(channel_udp_handshake(b"example.com", 8080), Ok(expected));
    assert_eq!(channel_tcp_handshake(&[b'a'; 256], 1), Err(penguin::client::Error::RHostTooLong));
    assert_eq!(channel_udp_handshake(&[b'a'; 256], 1), Err(penguin::client::Error::RHostTooLong));
    assert!(channel_tcp_handshake(&[b'a'; 255], 1).is_ok());
    assert_eq!(check_handshake_reply(3), Ok(()));
    assert_eq!(check_handshake_reply(1), Err(penguin::client::Error::ServerHandshake));
    assert_eq!(check_handshake_reply(0), Err(penguin::client::Error::ServerHandshake));
}

#[test]
fn datagram_on_a_channel_is_length_prefixed() {
    assert_eq!(frame_datagram(b"line\n"), Some(vec![0, 0, 0, 5, b'l', b'i', b'n', b'e', b'\n']));
    assert_eq!(frame_datagram(b""), Some(vec![0, 0, 0, 0]));
    let long = vec![7u8; 0x1_0203];
    let framed = frame_datagram(&long).unwrap();
    assert_eq!(&framed[..4], &[0, 1, 2, 3]);
    assert_eq!(framed.len(), long.len() + 4);
}

#[test]
fn addresses_are_tried_in_order() {
    let families = [Family::V4, Family::V6, Family::V4];
    assert_eq!(bind_and_send(&families, &[]), NextAttempt::Try { index: 0, bind: Family::V4 });
    assert_eq!(
        bind_and_send(&families, &[Attempt::BindFailed]),
        NextAttempt::Try { index: 1, bind: Family::V6 }
    );
    assert_eq!(
        bind_and_send(&families, &[Attempt::BindFailed, Attempt::ConnectFailed]),
        NextAttempt::Try { index: 2, bind: Family::V4 }
    );
    assert_eq!(
        bind_and_send(&families, &[Attempt::BindFailed, Attempt::Sent]),
        NextAttempt::Connected { index: 1 }
    );
    assert_eq!(
        bind_and_send(&families, &[Attempt::SendFailed]),
        NextAttempt::Failed(ForwardError::Io(0))
    );
    assert_eq!(
        bind_and_send(
            &families,
            &[Attempt::BindFailed, Attempt::ConnectFailed, Attempt::BindFailed]
        ),
        NextAttempt::Failed(ForwardError::Io(2))
    );
    assert_eq!(bind_and_send(&[], &[]), NextAttempt::Failed(ForwardError::Unresolved));
}

#[test]
fn answers_to_a_datagram_go_back_under_its_session() {
    let request = Datagram {
        flow_id: 9,
        target_host: b"1.1.1.1".to_vec(),
        target_port: 53,
        data: b"query".to_vec(),
    };
    assert_eq!(datagram_target(&request), Ok(()));
    let mut buf = vec![0u8; 16];
    buf[..6].copy_from_slice(b"answer");
    assert_eq!(
        udp_forward_to(&request, &buf, ForwardEvent::Received(6)),
        ForwardAction::Reply(Datagram {
            flow_id: 9,
            target_host: b"1.1.1.1".to_vec(),
            target_port: 53,
            data: b"answer".to_vec(),
        })
    );
    assert_eq!(udp_forward_to(&request, &buf, ForwardEvent::TimedOut), ForwardAction::Finish);
    assert_eq!(udp_forward_to(&request, &buf, ForwardEvent::ReceiveFailed), ForwardAction::Fail);
    let bad = Datagram { target_host: vec![0xc0], ..request };
    assert_eq!(datagram_target(&bad), Err(ForwardError::Host));
}

#[test]
fn forwarder_checks_the_host_of_a_stream() {
    let mut mux = MultiplexorInner::new(Config::new(32, 16, false));
    let good = Frame::new_connect(1, b"example.com".to_vec(), 80, 4).finalize().unwrap();
    match mux.process_message(Message::Binary(good.into_bytes())).unwrap().dispatched {
        Dispatched::Accepted(stream) => assert_eq!(tcp_forwarder_on_channel(&stream), Ok(())),
        other => panic!("expected a stream, got {:?}", other),
    }
    // a host that is not text does not get as far as the forwarder
    let bad = Frame::new_connect(2, vec![0xff], 80, 4).finalize().unwrap();
    assert_eq!(
        mux.process_message(Message::Binary(bad.into_bytes())).err(),
        Some(MuxError::Frame(FrameError::InvalidHost))
    );
}

#[test]
fn the_first_loop_to_end_ends_the_task() {
    let none = Polled { dropped_ports: None, ws_next: None, frame_recv: None };
    assert_eq!(task(none), None);
    assert_eq!(
        task(Polled {
            dropped_ports: Some(Ok(())),
            ws_next: Some(Err(MuxError::WebSocket)),
            ..none
        }),
        Some(Finished { result: Ok(()), should_drain: true })
    );
    assert_eq!(
        task(Polled { dropped_ports: Some(Err(MuxError::Closed)), ..none }),
        Some(Finished { result: Err(MuxError::Closed), should_drain: false })
    );
    assert_eq!(
        task(Polled { ws_next: Some(Ok(())), frame_recv: Some(Err(MuxError::WebSocket)), ..none }),
        Some(Finished { result: Ok(()), should_drain: false })
    );
    assert_eq!(
        task(Polled { frame_recv: Some(Err(MuxError::WebSocket)), ..none }),
        Some(Finished { result: Err(MuxError::WebSocket), should_drain: false })
    );
    assert_eq!(task_result(Ok(()), Err(MuxError::WebSocket)), Err(MuxError::WebSocket));
    assert_eq!(task_result(Err(MuxError::TextMessage), Ok(())), Err(MuxError::TextMessage));
    assert_eq!(
        task_result(Err(MuxError::TextMessage), Err(MuxError::Closed)),
        Err(MuxError::TextMessage),
    );
    assert_eq!(task_result(Ok(()), Ok(())), Ok(()));
}

#[test]
fn pushes_are_buffered_and_the_rest_is_flushed() {
    assert_eq!(process_frame_recv_task(&FinalizedFrame::flush_marker()), Ok(Transmit::Flush));
    assert_eq!(process_frame_recv_task(&FinalizedFrame::push(1, b"x")), Ok(Transmit::Feed));
    assert_eq!(process_frame_recv_task(&FinalizedFrame::reset(1)), Ok(Transmit::Send));
    assert_eq!(process_frame_recv_task(&FinalizedFrame::finish(1)), Ok(Transmit::Send));
    assert_eq!(process_frame_recv_task(&FinalizedFrame::acknowledge(1, 2)), Ok(Transmit::Send));
    assert!(FinalizedFrame::flush_marker().is_empty());
    assert!(!FinalizedFrame::reset(0).is_empty());
}

#[test]
fn receive_loop_steps() {
    let mut mux = MultiplexorInner::new(Config::new(32, 16, false));
    assert!(
        matches!(process_ws_next(&mut mux, WsNext::Failed), WsStep::Done(Err(MuxError::WebSocket))),
    );
    assert!(matches!(process_ws_next(&mut mux, WsNext::End), WsStep::Done(Ok(()))));
    assert!(
        matches!(process_ws_next(&mut mux, WsNext::Message(Message::Close)), WsStep::Done(Ok(()))),
    );
    assert!(matches!(
        process_ws_next(&mut mux, WsNext::Message(Message::Text)),
        WsStep::Done(Err(MuxError::TextMessage))
    ));
    assert!(matches!(
        process_ws_next(&mut mux, WsNext::Message(Message::Ping)),
        WsStep::Continue(Dispatched::Nothing)
    ));
    let connect = Frame::new_connect(1, b"h".to_vec(), 80, 4).finalize().unwrap().into_bytes();
    assert!(matches!(
        process_ws_next(&mut mux, WsNext::Message(Message::Binary(connect))),
        WsStep::Continue(Dispatched::Accepted(_))
    ));
    assert!(matches!(
        process_ws_next(&mut mux, WsNext::Message(Message::Binary(vec![1, 2]))),
        WsStep::Done(Err(MuxError::Frame(FrameError::TooShort)))
    ));
}

#[test]
fn deliveries_to_the_user() {
    assert_eq!(after_datagram(Delivery::Delivered), Ok(()));
    assert_eq!(after_datagram(Delivery::Full), Ok(()));
    assert_eq!(after_datagram(Delivery::Closed), Err(MuxError::Closed));
    assert_eq!(after_accept(true), Ok(()));
    assert_eq!(after_accept(false), Err(MuxError::SendStreamToClient));
    assert_eq!(flush_ignore_closed(Flushed::Done), Ok(()));
    assert_eq!(flush_ignore_closed(Flushed::Closed), Ok(()));
    assert_eq!(flush_ignore_closed(Flushed::Failed), Err(MuxError::WebSocket));
}

#[test]
fn log_level_from_flags() {
    assert_eq!(log_level(0, 0), LogLevel::Info);
    assert_eq!(log_level(1, 0), LogLevel::Debug);
    assert_eq!(log_level(2, 0), LogLevel::Trace);
    assert_eq!(log_level(9, 0), LogLevel::Trace);
    assert_eq!(log_level(0, 1), LogLevel::Warn);
    assert_eq!(log_level(0, 2), LogLevel::Error);
    assert_eq!(log_level(3, 1), LogLevel::Warn);
    assert_eq!(log_level(1, 5), LogLevel::Error);
}

#[test]
fn listener_failures() {
    use_listener(ListenerEvent::BindFailed, ListenerNext::Fatal);
    use_listener(ListenerEvent::AcceptFailed, ListenerNext::Fatal);
    use_listener(ListenerEvent::Accepted, ListenerNext::Serve);
    use_listener(ListenerEvent::RequestFailed, ListenerNext::SkipConnection);
    use_listener(ListenerEvent::ConnectionFailed, ListenerNext::SkipConnection);
}

fn use_listener(event: ListenerEvent, next: ListenerNext) {
    assert_eq!(listener_step(event), next);
}

#[test]
fn a_request_that_was_reset_is_made_again() {
    assert_eq!(after_open_reply(OpenReply::Opened), OpenNext::Deliver);
    assert_eq!(after_open_reply(OpenReply::Reset), OpenNext::Retry);
    assert_eq!(after_open_reply(OpenReply::Gone), OpenNext::Fail(MuxError::Closed));
}
