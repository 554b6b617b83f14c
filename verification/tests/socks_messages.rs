use penguin::frame::Frame;
use penguin::model::Config;
use penguin::mux::MultiplexorInner;
use penguin::socks::{
    auth_reply, command_for, handle_udp_relay_header, ipv4_text, read_auth_methods,
    read_v4_request, read_v5_request, refusal_status, select_auth_method, socks_version,
    send_udp_relay_response, v4_response, v5_response, v5_response_unspecified, Command,
    RelayHeader, SocksAddress, Target,
};

#[test]
fn scenario_socks5_udp_associate() {
    // the client asks for a relay
    let request = [5u8, 3, 0, 1, 0, 0, 0, 0, 0, 0];
    let (parsed, len) = read_v5_request(&request).unwrap();
    assert_eq!(len, 10);
    assert_eq!(parsed.target, Target { address: SocksAddress::V4([0, 0, 0, 0]), port: 0 });
    assert_eq!(command_for(5, parsed.command), Ok(Command::Associate));
    // the server answers with the address it bound
    let bound = Target { address: SocksAddress::V4([127, 0, 0, 1]), port: 0x1234 };
    assert_eq!(v5_response(0, &bound), Some(vec![5, 0, 0, 1, 127, 0, 0, 1, 0x12, 0x34]));
    // a relayed packet becomes a datagram frame
    let mut packet = vec![0u8, 0, 0, 1, 1, 2, 3, 4, 0, 53];
    packet.extend_from_slice(b"payload");
    let (target, data_at) = match handle_udp_relay_header(&packet) {
        RelayHeader::Target { target, data_at } => (target, data_at),
        other => panic!("expected a target, got {:?}", other),
    };
    assert_eq!(target.port, 53);
    assert_eq!(data_at, 10);
    let host = target.address.relay_host().unwrap();
    assert_eq!(host, b"1.2.3.4".to_vec());
    let mut mux = MultiplexorInner::new(Config::new(32, 16, false));
    assert_eq!(mux.send_datagram(77, &host, target.port, &packet[data_at..]), Ok(()));
    let frame = mux.next_outbound().unwrap();
    assert_eq!(
        Frame::decode(frame.as_bytes()),
        Ok(Frame::new_datagram(77, b"1.2.3.4".to_vec(), 53, b"payload".to_vec()))
    );
}

#[test]
fn relay_header_of_each_address_type() {
    let mut v6 = vec![0u8, 0, 0, 4];
    v6.extend_from_slice(&[0x20, 1, 0xd, 0xb8, 0, 0, 0, 0, 0, 0, 0, 0, 0, 0, 0, 1]);
    v6.extend_from_slice(&[0x01, 0xbb, 9, 9]);
    match handle_udp_relay_header(&v6) {
        RelayHeader::Target { target, data_at } => {
            assert_eq!(
                target.address,
                SocksAddress::V6([0x20, 1, 0xd, 0xb8, 0, 0, 0, 0, 0, 0, 0, 0, 0, 0, 0, 1])
            );
            assert_eq!(target.port, 443);
            assert_eq!(data_at, 22);
            assert_eq!(target.address.relay_host(), None);
        }
        other => panic!("expected a target, got {:?}", other),
    }
    let mut domain = vec![0u8, 0, 0, 3, 11];
    domain.extend_from_slice(b"example.com");
    domain.extend_from_slice(&[0, 80, 1, 2, 3]);
    match handle_udp_relay_header(&domain) {
        RelayHeader::Target { target, data_at } => {
            assert_eq!(target.address, SocksAddress::Domain(b"example.com".to_vec()));
            assert_eq!(target.port, 80);
            assert_eq!(data_at, 18);
            assert_eq!(&domain[data_at..], &[1, 2, 3]);
            assert_eq!(target.address.relay_host(), Some(b"example.com".to_vec()));
        }
        other => panic!("expected a target, got {:?}", other),
    }
}

#[test]
fn relay_packets_that_are_dropped() {
    assert_eq!(handle_udp_relay_header(&[0, 0, 1, 1, 1, 2, 3, 4, 0, 53]), RelayHeader::Fragmented);
    assert_eq!(handle_udp_relay_header(&[0, 0, 1]), RelayHeader::Fragmented);
    assert_eq!(
        handle_udp_relay_header(&[0, 0, 0, 2, 1, 2, 3, 4, 0, 53]),
        RelayHeader::BadAddressType(2),
    );
    assert_eq!(handle_udp_relay_header(&[]), RelayHeader::Truncated);
    assert_eq!(handle_udp_relay_header(&[0, 0]), RelayHeader::Truncated);
    assert_eq!(handle_udp_relay_header(&[0, 0, 0]), RelayHeader::Truncated);
    assert_eq!(handle_udp_relay_header(&[0, 0, 0, 1, 1, 2, 3, 4, 0]), RelayHeader::Truncated);
    assert_eq!(handle_udp_relay_header(&[0, 0, 0, 3, 5, b'a']), RelayHeader::Truncated);
    assert_eq!(handle_udp_relay_header(&[0, 0, 0, 4, 1, 2, 3, 4, 0, 53]), RelayHeader::Truncated);
}

#[test]
fn domain_that_is_not_text_is_repaired_in_a_relayed_packet() {
    let address = SocksAddress::Domain(vec![b'a', 0xff, b'b']);
    assert_eq!(address.relay_host(), Some("a\u{fffd}b".as_bytes().to_vec()));
    let mut request = vec![5u8, 1, 0, 3, 3, b'a', 0xff, b'b', 0, 80];
    assert_eq!(read_v5_request(&request), Err(penguin::socks::Error::DomainName));
    request[6] = b'c';
    let (parsed, len) = read_v5_request(&request).unwrap();
    assert_eq!(len, 10);
    assert_eq!(parsed.command, 1);
    assert_eq!(parsed.target, Target { address: SocksAddress::Domain(b"acb".to_vec()), port: 80 });
}

#[test]
fn relay_response_has_the_type_in_front_of_the_address() {
    let v4 = Target { address: SocksAddress::V4([10, 0, 0, 1]), port: 53 };
    assert_eq!(
        send_udp_relay_response(&v4, b"hi"),
        Some(vec![0, 0, 0, 1, 10, 0, 0, 1, 0, 53, b'h', b'i'])
    );
    let v6 = Target { address: SocksAddress::V6([0; 16]), port: 0x0102 };
    let mut expected = vec![0u8, 0, 0, 4];
    expected.extend_from_slice(&[0; 16]);
    expected.extend_from_slice(&[1, 2, 7]);
    assert_eq!(send_udp_relay_response(&v6, &[7]), Some(expected.clone()));
    // what is written is read back
    match handle_udp_relay_header(&expected) {
        RelayHeader::Target { target, data_at } => {
            assert_eq!(target, v6);
            assert_eq!(&expected[data_at..], &[7]);
        }
        other => panic!("expected a target, got {:?}", other),
    }
    let long = Target { address: SocksAddress::Domain(vec![b'a'; 256]), port: 1 };
    assert_eq!(send_udp_relay_response(&long, b""), None);
    assert_eq!(v5_response(0, &long), None);
}

#[test]
fn dotted_decimal() {
    assert_eq!(ipv4_text(&[1, 2, 3, 4]), b"1.2.3.4".to_vec());
    assert_eq!(ipv4_text(&[0, 9, 10, 99]), b"0.9.10.99".to_vec());
    assert_eq!(ipv4_text(&[100, 109, 200, 255]), b"100.109.200.255".to_vec());
}

#[test]
fn greeting_and_methods() {
    assert_eq!(socks_version(4), Ok(4));
    assert_eq!(socks_version(5), Ok(5));
    assert_eq!(socks_version(6), Err(penguin::socks::Error::SocksVersion(6)));
    assert_eq!(read_auth_methods(&[5, 2, 0, 2]), Ok(vec![0, 2]));
    assert_eq!(read_auth_methods(&[5, 0]), Ok(vec![]));
    assert_eq!(read_auth_methods(&[]), Err(penguin::socks::Error::Incomplete(2)));
    assert_eq!(read_auth_methods(&[5]), Err(penguin::socks::Error::Incomplete(2)));
    assert_eq!(read_auth_methods(&[5, 3, 0]), Err(penguin::socks::Error::Incomplete(5)));
    assert_eq!(read_auth_methods(&[4, 1, 0]), Err(penguin::socks::Error::SocksVersion(4)));
    assert_eq!(select_auth_method(&[2, 0]), Ok(0));
    assert_eq!(select_auth_method(&[1, 2]), Err(penguin::socks::Error::OtherAuth));
    assert_eq!(select_auth_method(&[]), Err(penguin::socks::Error::OtherAuth));
    assert_eq!(auth_reply(select_auth_method(&[0])), vec![5, 0]);
    assert_eq!(auth_reply(select_auth_method(&[2])), vec![5, 0xff]);
}

#[test]
fn socks5_requests() {
    assert_eq!(read_v5_request(&[5, 1, 0]), Err(penguin::socks::Error::Incomplete(4)));
    assert_eq!(read_v5_request(&[5, 1, 0, 1, 1, 2]), Err(penguin::socks::Error::Incomplete(10)));
    assert_eq!(read_v5_request(&[5, 1, 0, 3]), Err(penguin::socks::Error::Incomplete(5)));
    assert_eq!(read_v5_request(&[5, 1, 0, 3, 4, b'a']), Err(penguin::socks::Error::Incomplete(11)));
    assert_eq!(read_v5_request(&[5, 1, 0, 4, 0]), Err(penguin::socks::Error::Incomplete(22)));
    assert_eq!(read_v5_request(&[5, 1, 0, 9, 0]), Err(penguin::socks::Error::AddressType(9)));
    assert_eq!(read_v5_request(&[4, 1, 0, 1]), Err(penguin::socks::Error::SocksVersion(4)));
    let (request, len) = read_v5_request(&[5, 1, 0, 1, 1, 2, 3, 4, 0x1f, 0x90, 0xaa]).unwrap();
    assert_eq!(len, 10);
    assert_eq!(request.command, 1);
    assert_eq!(request.target, Target { address: SocksAddress::V4([1, 2, 3, 4]), port: 8080 });
}

#[test]
fn socks4_requests() {
    let mut request = vec![4u8, 1, 0, 80, 10, 1, 2, 3];
    assert_eq!(read_v4_request(&request), Err(penguin::socks::Error::Incomplete(9)));
    request.extend_from_slice(b"user");
    assert_eq!(read_v4_request(&request), Err(penguin::socks::Error::Incomplete(13)));
    request.push(0);
    request.push(0xee);
    let (parsed, len) = read_v4_request(&request).unwrap();
    assert_eq!(len, 13);
    assert_eq!(parsed.command, 1);
    assert_eq!(parsed.target, Target { address: SocksAddress::V4([10, 1, 2, 3]), port: 80 });
    assert_eq!(
        read_v4_request(&[5, 1, 0, 80, 1, 1, 1, 1, 0]),
        Err(penguin::socks::Error::SocksVersion(5)),
    );
}

#[test]
fn commands_and_replies() {
    assert_eq!(command_for(4, 1), Ok(Command::Connect));
    assert_eq!(command_for(5, 1), Ok(Command::Connect));
    assert_eq!(command_for(5, 3), Ok(Command::Associate));
    assert_eq!(command_for(4, 3), Err(penguin::socks::Error::InvalidCommand(3)));
    assert_eq!(command_for(5, 2), Err(penguin::socks::Error::InvalidCommand(2)));
    assert_eq!(command_for(4, 2), Err(penguin::socks::Error::InvalidCommand(2)));
    assert_eq!(refusal_status(4), 0x5b);
    assert_eq!(refusal_status(5), 0x07);
    assert_eq!(v4_response(0x5a), vec![0, 0x5a, 0, 0, 0, 0, 0, 0]);
    assert_eq!(v4_response(0x5b), vec![0, 0x5b, 0, 0, 0, 0, 0, 0]);
    assert_eq!(v5_response_unspecified(7), vec![5, 7, 0, 1, 0, 0, 0, 0, 0, 0]);
    let domain = Target { address: SocksAddress::Domain(b"ab".to_vec()), port: 1 };
    assert_eq!(v5_response(1, &domain), Some(vec![5, 1, 0, 3, 2, b'a', b'b', 0, 1]));
}

#[test]
fn dotted_decimal_of_every_octet() {
    for n in 0..=255u8 {
        let text = format!("{}.{}.{}.{}", n, 255 - n, n / 2, 0);
        assert_eq!(ipv4_text(&[n, 255 - n, n / 2, 0]), text.into_bytes());
    }
}
