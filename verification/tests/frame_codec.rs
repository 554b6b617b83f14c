use penguin::frame::{Frame, FrameError, OpCode, Payload};

#[test]
fn connect_frame_layout() {
    let frame = Frame::new_connect(0x0102_0304, b"example.com".to_vec(), 80, 32);
    let bytes = frame.finalize().unwrap().into_bytes();
    let mut expected = vec![1u8, 2, 3, 4, 0x01, 0, 0, 0, 32, 11];
    expected.extend_from_slice(b"example.com");
    expected.extend_from_slice(&[0, 80]);
    assert_eq!(bytes, expected);
    assert_eq!(Frame::decode(&bytes), Ok(frame));
}

#[test]
fn acknowledge_frame_layout() {
    let bytes = Frame::new_acknowledge(7, 32).finalize().unwrap().into_bytes();
    assert_eq!(bytes, vec![0, 0, 0, 7, 0x02, 0, 0, 0, 32]);
}

#[test]
fn decode_rejects_unknown_opcode() {
    assert_eq!(Frame::decode(&[0, 0, 0, 1, 9]), Err(FrameError::UnknownOpcode(9)));
    assert_eq!(Frame::decode(&[0, 0, 0, 1, 0]), Err(FrameError::UnknownOpcode(0)));
}

#[test]
fn decode_rejects_short_buffers() {
    assert_eq!(Frame::decode(&[]), Err(FrameError::TooShort));
    assert_eq!(Frame::decode(&[0, 0, 0, 1]), Err(FrameError::TooShort));
    assert_eq!(Frame::decode(&[0, 0, 0, 1, 2, 0, 0]), Err(FrameError::TooShort));
    assert_eq!(Frame::decode(&[0, 0, 0, 1, 6, 3, b'a', b'b', 0, 1]), Err(FrameError::TooShort));
}

#[test]
fn decode_rejects_bad_utf8_host() {
    assert_eq!(Frame::decode(&[0, 0, 0, 1, 6, 2, 0xff, 0xfe, 0, 1]), Err(FrameError::InvalidHost));
}

#[test]
fn encode_rejects_long_host() {
    let frame = Frame::new_bind(1, vec![b'a'; 256], 1);
    assert_eq!(frame.finalize().err(), Some(FrameError::HostTooLong));
    let frame = Frame::new_bind(1, vec![b'a'; 255], 1);
    assert!(frame.finalize().is_ok());
}

#[test]
fn opcode_bytes() {
    assert_eq!(OpCode::Push.to_byte(), 5);
    assert_eq!(OpCode::from_byte(7), Ok(OpCode::Datagram));
    assert_eq!(Frame::new_reset(3).payload, Payload::Reset);
}

#[test]
fn borrowed_frames_point_into_the_message() {
    let mut message = vec![0u8, 0, 0, 9, 0x07, 3];
    message.extend_from_slice(b"abc");
    message.extend_from_slice(&[0x01, 0x00]);
    message.extend_from_slice(b"payload");
    let frame = penguin::frame::FrameRef::parse(&message).unwrap();
    assert_eq!(frame.id, 9);
    assert_eq!(
        frame.payload,
        penguin::frame::PayloadRef::Datagram {
            target_host: &message[6..9],
            target_port: 256,
            data: &message[11..],
        }
    );
    assert_eq!(
        frame.into_owned(),
        Frame::new_datagram(9, b"abc".to_vec(), 256, b"payload".to_vec())
    );
    assert_eq!(penguin::frame::FrameRef::parse(&message[..4]).err(), Some(FrameError::TooShort));
}

#[test]
fn every_kind_of_frame_goes_round() {
    let frames = vec![
        Frame::new_connect(1, b"host".to_vec(), 443, 7),
        Frame::new_acknowledge(2, 0xdead_beef),
        Frame::new_finish(3),
        Frame::new_reset(0xffff_ffff),
        Frame::new_push(5, vec![0, 1, 2]),
        Frame::new_push(5, vec![]),
        Frame::new_bind(6, vec![], 0xffff),
        Frame::new_datagram(7, "h\u{e9}".as_bytes().to_vec(), 53, vec![9; 300]),
    ];
    for frame in frames {
        let bytes = frame.finalize().unwrap().into_bytes();
        assert!(bytes.len() >= 5);
        assert_eq!(bytes[4], frame.opcode().to_byte());
        assert_eq!(Frame::decode(&bytes), Ok(frame));
    }
    // what follows a payload of fixed shape is ignored
    assert_eq!(Frame::decode(&[0, 0, 0, 3, 3, 1, 2]), Ok(Frame::new_finish(3)));
    assert_eq!(Frame::decode(&[0, 0, 0, 2, 2, 0, 0, 0, 1, 9]), Ok(Frame::new_acknowledge(2, 1)));
}
