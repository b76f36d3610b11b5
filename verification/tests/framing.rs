use composition::error::ProtocolError;
use composition::mctypes::fixed::encode_long;
use composition::packets::{
    packet_kind, Direction, Handshake, LoginStart, PacketKind, PingPong, StatusRequest,
    StatusResponse,
};
use composition::net::GameState;
use composition::protocol::{
    frame_status, read_packet, read_packet_header, write_packet, FrameStatus, PacketHeader,
    MAX_FRAME_LENGTH,
};
use composition::stream::ByteStream;

#[test]
fn frame_of_ten_byte_payload() {
    let payload: Vec<u8> = vec![10, 20, 30, 40, 50, 60, 70, 80, 90, 100];
    let frame = write_packet(0x00, &payload).unwrap();
    assert_eq!(frame.len(), 12);
    assert_eq!(frame[0], 11);
    assert_eq!(frame[1], 0x00);
    assert_eq!(&frame[2..], &payload[..]);

    let mut stream = ByteStream::new(frame.clone());
    let header = read_packet_header(&mut stream).unwrap();
    assert_eq!(header, PacketHeader { length: 1 + 10, id: 0x00, id_size: 1 });
    assert_eq!(header.payload_len(), Some(10));
    assert_eq!(stream.pos, 2);
    assert_eq!(&stream.data[stream.pos..], &payload[..]);

    let mut stream = ByteStream::new(frame);
    let packet = read_packet(&mut stream).unwrap();
    assert_eq!(packet.id, 0x00);
    assert_eq!(packet.payload, payload);
    assert_eq!(stream.available(), 0);
}

#[test]
fn frame_with_long_id_and_payload() {
    let payload: Vec<u8> = vec![7; 300];
    let frame = write_packet(300, &payload).unwrap();
    assert_eq!(&frame[..4], &[0xae, 0x02, 0xac, 0x02]);
    let mut stream = ByteStream::new(frame);
    let header = read_packet_header(&mut stream).unwrap();
    assert_eq!(header.length, 302);
    assert_eq!(header.id, 300);
    assert_eq!(header.id_size, 2);
    assert_eq!(header.payload_len(), Some(300));
    stream.pos = 0;
    let packet = read_packet(&mut stream).unwrap();
    assert_eq!(packet.id, 300);
    assert_eq!(packet.payload, payload);
}

#[test]
fn frames_are_read_one_after_the_other() {
    let mut data = write_packet(0, &[]).unwrap();
    assert_eq!(data, vec![0x01, 0x00]);
    data.extend(write_packet(1, &encode_long(0x42)).unwrap());
    let mut stream = ByteStream::new(data);
    let first = read_packet(&mut stream).unwrap();
    assert_eq!((first.id, first.payload.len()), (0, 0));
    assert_eq!(stream.pos, 2);
    let second = read_packet(&mut stream).unwrap();
    assert_eq!(second.id, 1);
    assert_eq!(second.payload, vec![0, 0, 0, 0, 0, 0, 0, 0x42]);
    assert_eq!(stream.available(), 0);
    assert!(matches!(read_packet(&mut stream), Err(ProtocolError::FramingError)));
}

#[test]
fn frame_whose_length_disagrees_is_a_framing_error() {
    // the length says five bytes, two of them are there
    let mut stream = ByteStream::new(vec![0x05, 0x00, 0x01]);
    assert!(matches!(read_packet(&mut stream), Err(ProtocolError::FramingError)));
    assert_eq!(stream.pos, 2);
    // a length of zero leaves no room for the id
    let mut stream = ByteStream::new(vec![0x00, 0x00]);
    assert!(matches!(read_packet(&mut stream), Err(ProtocolError::FramingError)));
    // a negative length
    let mut stream = ByteStream::new(vec![0xff, 0xff, 0xff, 0xff, 0x0f, 0x00]);
    assert!(matches!(read_packet(&mut stream), Err(ProtocolError::FramingError)));
    // an id of two bytes in a frame of one
    let mut stream = ByteStream::new(vec![0x01, 0x80, 0x01]);
    assert!(matches!(read_packet(&mut stream), Err(ProtocolError::FramingError)));
    // the header itself cut short
    let mut stream = ByteStream::new(vec![0x01]);
    assert_eq!(read_packet_header(&mut stream), Err(ProtocolError::FramingError));
    let mut stream = ByteStream::new(vec![0x80, 0x80, 0x80, 0x80, 0x80, 0x00]);
    assert_eq!(read_packet_header(&mut stream), Err(ProtocolError::FramingError));
}

#[test]
fn frame_status_follows_the_bytes_as_they_arrive() {
    let frame = write_packet(1, &encode_long(0x42)).unwrap();
    assert_eq!(frame.len(), 10);
    for n in 0..frame.len() {
        assert_eq!(frame_status(&frame[..n]), FrameStatus::Incomplete, "after {} bytes", n);
    }
    assert_eq!(frame_status(&frame), FrameStatus::Ready(10));
    let mut more = frame.clone();
    more.extend_from_slice(&[0x01, 0x00, 0x09]);
    assert_eq!(frame_status(&more), FrameStatus::Ready(10));
    assert_eq!(frame_status(&[0x80, 0x80]), FrameStatus::Incomplete);
    assert_eq!(frame_status(&[0x80, 0x80, 0x80, 0x80, 0x80]), FrameStatus::Invalid);
    assert_eq!(frame_status(&[0x00, 0x00]), FrameStatus::Invalid);
    assert_eq!(frame_status(&[0xff, 0xff, 0xff, 0xff, 0x0f]), FrameStatus::Invalid);
    assert_eq!(frame_status(&[0x80, 0x01]), FrameStatus::Incomplete);
}

#[test]
fn packets_are_looked_up_by_state_direction_and_id() {
    let (to_client, to_server) = (Direction::ClientBound, Direction::ServerBound);
    let violation = Err(ProtocolError::ProtocolViolation);
    assert_eq!(packet_kind(GameState::Handshake, to_server, 0), Ok(PacketKind::Handshake));
    assert_eq!(packet_kind(GameState::Handshake, to_server, 1), violation);
    assert_eq!(packet_kind(GameState::Handshake, to_client, 0), violation);
    assert_eq!(packet_kind(GameState::Status, to_server, 0), Ok(PacketKind::StatusRequest));
    assert_eq!(packet_kind(GameState::Status, to_server, 1), Ok(PacketKind::Ping));
    assert_eq!(packet_kind(GameState::Status, to_server, 2), violation);
    assert_eq!(packet_kind(GameState::Status, to_client, 0), Ok(PacketKind::StatusResponse));
    assert_eq!(packet_kind(GameState::Status, to_client, 1), Ok(PacketKind::Pong));
    assert_eq!(packet_kind(GameState::Status, to_client, -1), violation);
    assert_eq!(packet_kind(GameState::Login, to_server, 0), Ok(PacketKind::LoginStart));
    assert_eq!(packet_kind(GameState::Login, to_server, 1), violation);
    assert_eq!(packet_kind(GameState::Login, to_client, 0), violation);
    assert_eq!(packet_kind(GameState::Play, to_server, 0), violation);
    assert_eq!(packet_kind(GameState::Closed, to_server, 0), violation);
}

#[test]
fn handshake_fields_in_order() {
    let handshake = Handshake {
        protocol_version: 578,
        server_address: "localhost".to_owned(),
        server_port: 25565,
        next_state: 1,
    };
    let payload = handshake.write().unwrap();
    let mut expected: Vec<u8> = vec![0xc2, 0x04, 0x09];
    expected.extend_from_slice(b"localhost");
    expected.extend_from_slice(&[0x63, 0xdd, 0x01]);
    assert_eq!(payload, expected);

    let len = payload.len();
    let mut stream = ByteStream::new(payload);
    let back = Handshake::read(&mut stream).unwrap();
    assert_eq!(back.protocol_version, 578);
    assert_eq!(back.server_address, "localhost");
    assert_eq!(back.server_port, 25565);
    assert_eq!(back.next_state, 1);
    assert_eq!(stream.pos, len);
}

#[test]
fn handshake_cut_short_fails_at_the_missing_field() {
    let payload = Handshake {
        protocol_version: 578,
        server_address: "localhost".to_owned(),
        server_port: 25565,
        next_state: 2,
    }
    .write()
    .unwrap();
    for n in 0..payload.len() {
        let mut stream = ByteStream::new(payload[..n].to_vec());
        assert!(
            matches!(Handshake::read(&mut stream), Err(ProtocolError::FramingError)),
            "with {} bytes",
            n
        );
    }
    let mut bad = payload.clone();
    bad[3] = 0xff;
    let mut stream = ByteStream::new(bad);
    assert!(matches!(Handshake::read(&mut stream), Err(ProtocolError::EncodingError)));
}

#[test]
fn handshake_with_overlong_address_is_not_written() {
    let handshake = Handshake {
        protocol_version: 578,
        server_address: "a".repeat(131069),
        server_port: 1,
        next_state: 1,
    };
    assert_eq!(handshake.write(), Err(ProtocolError::FramingError));
}

#[test]
fn login_start_and_status_response_are_one_string() {
    let login = LoginStart { name: "Notch".to_owned() };
    let payload = login.write().unwrap();
    assert_eq!(payload, vec![0x05, b'N', b'o', b't', b'c', b'h']);
    let mut stream = ByteStream::new(payload);
    assert_eq!(LoginStart::read(&mut stream).unwrap().name, "Notch");

    let response = StatusResponse { json: "{}".to_owned() };
    let payload = response.write().unwrap();
    assert_eq!(payload, vec![0x02, b'{', b'}']);
    let mut stream = ByteStream::new(payload);
    assert_eq!(StatusResponse::read(&mut stream).unwrap().json, "{}");
    let mut stream = ByteStream::new(vec![0x02, b'{']);
    assert!(matches!(StatusResponse::read(&mut stream), Err(ProtocolError::FramingError)));
    let mut stream = ByteStream::new(vec![0x01, 0x80]);
    assert!(matches!(LoginStart::read(&mut stream), Err(ProtocolError::EncodingError)));
}

#[test]
fn ping_pong_and_status_request() {
    let ping = PingPong { payload: 0x42 };
    assert_eq!(ping.write(), vec![0, 0, 0, 0, 0, 0, 0, 0x42]);
    let mut stream = ByteStream::new(ping.write());
    assert_eq!(PingPong::read(&mut stream), Ok(ping));
    let mut stream = ByteStream::new(vec![0; 3]);
    assert_eq!(PingPong::read(&mut stream), Err(ProtocolError::FramingError));

    assert_eq!(StatusRequest {}.write(), Vec::<u8>::new());
    let mut stream = ByteStream::new(vec![1, 2]);
    assert_eq!(StatusRequest::read(&mut stream), Ok(StatusRequest {}));
    assert_eq!(stream.pos, 0);
}

#[test]
fn header_counts_the_bytes_the_id_took() {
    // an id written with a byte more than it needs
    let mut stream = ByteStream::new(vec![0x03, 0x80, 0x00, 0x2a]);
    let header = read_packet_header(&mut stream).unwrap();
    assert_eq!(header, PacketHeader { length: 3, id: 0, id_size: 2 });
    assert_eq!(header.payload_len(), Some(1));
    stream.pos = 0;
    let packet = read_packet(&mut stream).unwrap();
    assert_eq!(packet.payload, vec![0x2a]);

    assert_eq!(PacketHeader { length: 1, id: 0, id_size: 2 }.payload_len(), None);
    assert_eq!(PacketHeader { length: -1, id: 0, id_size: 1 }.payload_len(), None);
    assert_eq!(PacketHeader { length: 2097151, id: 0, id_size: 1 }.payload_len(), Some(2097150));
    assert_eq!(PacketHeader { length: 2097152, id: 0, id_size: 1 }.payload_len(), None);
}

#[test]
fn frame_above_the_maximum_length_is_refused() {
    assert_eq!(MAX_FRAME_LENGTH, 2097151);
    let largest = vec![0u8; MAX_FRAME_LENGTH - 1];
    let frame = write_packet(0, &largest).unwrap();
    assert_eq!(&frame[..4], &[0xff, 0xff, 0x7f, 0x00]);
    assert_eq!(frame_status(&frame), FrameStatus::Ready(3 + MAX_FRAME_LENGTH));
    let mut stream = ByteStream::new(frame);
    assert_eq!(read_packet(&mut stream).unwrap().payload.len(), MAX_FRAME_LENGTH - 1);

    let too_large = vec![0u8; MAX_FRAME_LENGTH];
    assert_eq!(write_packet(0, &too_large), Err(ProtocolError::FramingError));

    // a length of 2097152 is known to be too much as soon as it is read
    assert_eq!(frame_status(&[0x80, 0x80, 0x80, 0x01]), FrameStatus::Invalid);
    assert_eq!(frame_status(&[0xff, 0xff, 0xff, 0xff, 0x07]), FrameStatus::Invalid);
    assert_eq!(frame_status(&[0xff, 0xff, 0x7f]), FrameStatus::Incomplete);
    let mut data = vec![0x80, 0x80, 0x80, 0x01, 0x00];
    data.extend_from_slice(&vec![0u8; 2097151]);
    let mut stream = ByteStream::new(data);
    assert!(matches!(read_packet(&mut stream), Err(ProtocolError::FramingError)));
    assert_eq!(stream.pos, 5);
}
