use composition::error::ProtocolError;
use composition::mctypes::fixed::encode_long;
use composition::net::{handshake_target, low_u16, may_follow, GameConnection, GameState};
use composition::packets::{Handshake, LoginStart, PingPong, StatusResponse};
use composition::protocol::{read_packet, write_packet};
use composition::server::{Server, ServerEvent};
use composition::status::{append_decimal, status_json, status_response};
use composition::stream::ByteStream;
use composition::Config;

fn handshake_frame(protocol_version: i32, next_state: i32) -> Vec<u8> {
    let payload = Handshake {
        protocol_version,
        server_address: "localhost".to_owned(),
        server_port: 25565,
        next_state,
    }
    .write()
    .unwrap();
    write_packet(0x00, &payload).unwrap()
}

fn after_handshake(protocol_version: i32, next_state: i32) -> GameConnection {
    let config = Config::default();
    let mut conn = GameConnection::new();
    let mut stream = ByteStream::new(handshake_frame(protocol_version, next_state));
    let reply = conn.receive(&mut stream, &config, 0, None).unwrap();
    assert!(reply.is_empty());
    assert_eq!(stream.available(), 0);
    conn
}

fn connection_in_play() -> GameConnection {
    let mut conn = after_handshake(578, 2);
    assert_eq!(conn.advance_to(GameState::Play), Ok(Some(ServerEvent::PlayerConnected)));
    conn
}

#[test]
fn new_connection_awaits_the_handshake() {
    let conn = GameConnection::new();
    assert_eq!(conn.state, GameState::Handshake);
    assert_eq!(conn.protocol_version, 0);
    assert_eq!(conn.history, vec![GameState::Handshake]);
    assert!(!conn.awaiting_ping);
}

#[test]
fn handshake_routing() {
    let conn = after_handshake(578, 1);
    assert_eq!(conn.state, GameState::Status);
    assert_eq!(conn.history, vec![GameState::Handshake, GameState::Status]);
    assert_eq!(conn.protocol_version, 578);

    let conn = after_handshake(578, 2);
    assert_eq!(conn.state, GameState::Login);
    assert_eq!(conn.history, vec![GameState::Handshake, GameState::Login]);

    let conn = after_handshake(577, 2);
    assert_eq!(conn.state, GameState::Closed);
    assert_eq!(conn.history, vec![GameState::Handshake, GameState::Closed]);
    assert_eq!(conn.protocol_version, 577);

    let conn = after_handshake(578, 99);
    assert_eq!(conn.state, GameState::Closed);

    // another version is no obstacle to a status query
    let conn = after_handshake(4, 1);
    assert_eq!(conn.state, GameState::Status);
    assert_eq!(conn.protocol_version, 4);

    let conn = after_handshake(578, 0);
    assert_eq!(conn.state, GameState::Closed);
    let conn = after_handshake(578, -1);
    assert_eq!(conn.state, GameState::Closed);
}

#[test]
fn handshake_target_by_value() {
    let make = |protocol_version: i32, next_state: i32| Handshake {
        protocol_version,
        server_address: String::new(),
        server_port: 0,
        next_state,
    };
    assert_eq!(handshake_target(&make(578, 1), 578), GameState::Status);
    assert_eq!(handshake_target(&make(578, 2), 578), GameState::Login);
    assert_eq!(handshake_target(&make(579, 2), 578), GameState::Closed);
    assert_eq!(handshake_target(&make(579, 1), 578), GameState::Status);
    assert_eq!(handshake_target(&make(578, 99), 578), GameState::Closed);
    assert_eq!(handshake_target(&make(578 + 65536, 2), 578), GameState::Closed);
    assert_eq!(handshake_target(&make(579, 3), 578), GameState::Closed);
}

#[test]
fn protocol_version_keeps_its_low_sixteen_bits() {
    assert_eq!(low_u16(0), 0);
    assert_eq!(low_u16(578), 578);
    assert_eq!(low_u16(65535), 65535);
    assert_eq!(low_u16(65536), 0);
    assert_eq!(low_u16(65536 + 578), 578);
    assert_eq!(low_u16(-1), 65535);
    assert_eq!(low_u16(i32::MIN), 0);
    assert_eq!(low_u16(i32::MAX), 65535);
    for v in [-70000i32, -65537, -65536, -2, 1, 40000, 70000, 123456789] {
        assert_eq!(low_u16(v), v as u16);
    }
    let conn = after_handshake(65536 + 7, 1);
    assert_eq!(conn.protocol_version, 7);
}

#[test]
fn status_end_to_end() {
    let config = Config::default();
    let mut conn = after_handshake(578, 1);

    let mut input = write_packet(0x00, &[]).unwrap();
    input.extend(write_packet(0x01, &encode_long(0x0000000000000042)).unwrap());
    let mut stream = ByteStream::new(input);

    let reply = conn.receive(&mut stream, &config, 0, None).unwrap();
    assert_eq!(conn.state, GameState::Status);
    assert!(conn.awaiting_ping);
    assert_eq!(stream.pos, 2);
    let mut reply_stream = ByteStream::new(reply);
    let packet = read_packet(&mut reply_stream).unwrap();
    assert_eq!(reply_stream.available(), 0);
    assert_eq!(packet.id, 0x00);
    let mut payload = ByteStream::new(packet.payload);
    let json = StatusResponse::read(&mut payload).unwrap().json;
    assert_eq!(payload.available(), 0);
    assert!(json.contains("\"protocol\":578"), "{}", json);
    assert!(json.contains("\"max\":250"), "{}", json);
    assert!(json.contains("\"online\":0"), "{}", json);
    assert!(json.contains("\"description\":{\"text\":\"Hello world!\"}"), "{}", json);
    assert!(json.contains("\"favicon\":\"data:image/png;base64,\""), "{}", json);
    assert_eq!(
        json,
        "{\"version\":{\"name\":\"Composition 1.15.2\",\"protocol\":578},\"players\":{\"max\":250,\"online\":0,\"sample\":[{\"name\":\"fumolover12\",\"id\":\"4566e69f-c907-48ee-8d71-d7ba5aa00d20\"}]},\"description\":{\"text\":\"Hello world!\"},\"favicon\":\"data:image/png;base64,\"}"
    );

    let reply = conn.receive(&mut stream, &config, 0, None).unwrap();
    assert_eq!(stream.available(), 0);
    assert_eq!(reply, vec![0x09, 0x01, 0, 0, 0, 0, 0, 0, 0, 0x42]);
    let mut reply_stream = ByteStream::new(reply);
    let packet = read_packet(&mut reply_stream).unwrap();
    assert_eq!(packet.id, 0x01);
    let mut payload = ByteStream::new(packet.payload);
    assert_eq!(PingPong::read(&mut payload), Ok(PingPong { payload: 0x42 }));
    assert_eq!(conn.state, GameState::Closed);
    assert!(!conn.awaiting_ping);
    assert_eq!(
        conn.history,
        vec![GameState::Handshake, GameState::Status, GameState::Closed]
    );
    assert_eq!(conn.close(), None);
}

#[test]
fn status_shows_the_player_count_and_the_favicon() {
    let config = Config {
        port: 1,
        protocol_version: 47,
        max_players: 4000000000,
        motd: "A \"quoted\" line".to_owned(),
        favicon: Some("icon.png".to_owned()),
    };
    let response = status_response(&config, 65535, Some(b"my message")).unwrap();
    assert_eq!(
        response.json,
        "{\"version\":{\"name\":\"Composition 1.15.2\",\"protocol\":47},\"players\":{\"max\":4000000000,\"online\":65535,\"sample\":[{\"name\":\"fumolover12\",\"id\":\"4566e69f-c907-48ee-8d71-d7ba5aa00d20\"}]},\"description\":{\"text\":\"A \"quoted\" line\"},\"favicon\":\"data:image/png;base64,bXkgbWVzc2FnZQ==\"}"
    );
    let response = status_response(&config, 3, Some(&[0x00, 0x10, 0x83])).unwrap();
    assert!(response.json.ends_with("\"favicon\":\"data:image/png;base64,ABCD\"}"));
    let response = status_response(&config, 3, Some(&[])).unwrap();
    assert!(response.json.ends_with("\"favicon\":\"data:image/png;base64,\"}"));
    let response = status_response(&config, 3, None).unwrap();
    assert!(response.json.ends_with("\"favicon\":\"data:image/png;base64,\"}"));
    assert!(response.json.contains("\"online\":3,"));
}

#[test]
fn status_with_a_favicon_through_a_connection() {
    let config = Config::default();
    let mut conn = after_handshake(578, 1);
    let mut stream = ByteStream::new(vec![0x01, 0x00]);
    let reply = conn.receive(&mut stream, &config, 12, Some(b"my message")).unwrap();
    let mut reply_stream = ByteStream::new(reply);
    let packet = read_packet(&mut reply_stream).unwrap();
    let mut payload = ByteStream::new(packet.payload);
    let json = StatusResponse::read(&mut payload).unwrap().json;
    assert!(json.contains("\"online\":12,"));
    assert!(json.ends_with("\"favicon\":\"data:image/png;base64,bXkgbWVzc2FnZQ==\"}"));
}

#[test]
fn status_with_a_favicon_too_large_is_a_framing_error() {
    let config = Config::default();
    let large = vec![0u8; 131069];
    assert!(matches!(
        status_response(&config, 0, Some(&large)),
        Err(ProtocolError::FramingError)
    ));
    // small enough to be encoded, too long for the string field
    let medium = vec![0u8; 131068];
    assert!(status_response(&config, 0, Some(&medium)).is_ok());
    let mut conn = after_handshake(578, 1);
    let mut stream = ByteStream::new(vec![0x01, 0x00]);
    assert_eq!(
        conn.receive(&mut stream, &config, 0, Some(&medium)),
        Err(ProtocolError::FramingError)
    );
    assert_eq!(conn.state, GameState::Status);
    assert!(!conn.awaiting_ping);
}

#[test]
fn decimal_text() {
    for (n, text) in [
        (0u64, "0"),
        (7, "7"),
        (10, "10"),
        (578, "578"),
        (65535, "65535"),
        (4294967295, "4294967295"),
        (u64::MAX, "18446744073709551615"),
    ] {
        let mut out = "n=".to_owned();
        append_decimal(&mut out, n);
        assert_eq!(out, format!("n={}", text));
    }
    assert_eq!(
        status_json(1, 2, 3, "m", "f"),
        "{\"version\":{\"name\":\"Composition 1.15.2\",\"protocol\":1},\"players\":{\"max\":2,\"online\":3,\"sample\":[{\"name\":\"fumolover12\",\"id\":\"4566e69f-c907-48ee-8d71-d7ba5aa00d20\"}]},\"description\":{\"text\":\"m\"},\"favicon\":\"data:image/png;base64,f\"}"
    );
}

#[test]
fn status_exchange_out_of_order_is_a_protocol_violation() {
    let config = Config::default();
    let mut conn = after_handshake(578, 1);
    let ping = write_packet(0x01, &encode_long(1)).unwrap();
    let mut stream = ByteStream::new(ping.clone());
    assert_eq!(
        conn.receive(&mut stream, &config, 0, None),
        Err(ProtocolError::ProtocolViolation)
    );
    // the header was read, the payload was not
    assert_eq!(stream.pos, 2);
    assert_eq!(stream.available(), 8);
    assert_eq!(conn.state, GameState::Status);

    let mut stream = ByteStream::new(vec![0x01, 0x00, 0x01, 0x00]);
    assert!(conn.receive(&mut stream, &config, 0, None).is_ok());
    assert_eq!(
        conn.receive(&mut stream, &config, 0, None),
        Err(ProtocolError::ProtocolViolation)
    );
    assert!(conn.awaiting_ping);
    assert_eq!(conn.history, vec![GameState::Handshake, GameState::Status]);
}

#[test]
fn unknown_packet_is_a_protocol_violation() {
    let config = Config::default();
    let mut conn = GameConnection::new();
    let mut stream = ByteStream::new(write_packet(0x05, &[1, 2, 3]).unwrap());
    assert_eq!(
        conn.receive(&mut stream, &config, 0, None),
        Err(ProtocolError::ProtocolViolation)
    );
    assert_eq!(conn.state, GameState::Handshake);
    assert_eq!(conn.history, vec![GameState::Handshake]);
    assert_eq!(stream.pos, 2);
    assert_eq!(stream.available(), 3);

    let mut conn = after_handshake(578, 1);
    let mut stream = ByteStream::new(write_packet(0x02, &[]).unwrap());
    assert_eq!(
        conn.receive(&mut stream, &config, 0, None),
        Err(ProtocolError::ProtocolViolation)
    );

    let mut conn = connection_in_play();
    let mut stream = ByteStream::new(write_packet(0x00, &[]).unwrap());
    assert_eq!(
        conn.receive(&mut stream, &config, 0, None),
        Err(ProtocolError::ProtocolViolation)
    );
    assert_eq!(conn.state, GameState::Play);

    let mut conn = after_handshake(578, 99);
    let mut stream = ByteStream::new(handshake_frame(578, 1));
    assert_eq!(
        conn.receive(&mut stream, &config, 0, None),
        Err(ProtocolError::ProtocolViolation)
    );
    assert_eq!(conn.state, GameState::Closed);
}

#[test]
fn malformed_packets_leave_the_connection_as_it_was() {
    let config = Config::default();
    // a handshake with a byte too many in its frame
    let mut payload = Handshake {
        protocol_version: 578,
        server_address: "h".to_owned(),
        server_port: 1,
        next_state: 1,
    }
    .write()
    .unwrap();
    payload.push(0);
    let mut conn = GameConnection::new();
    let mut stream = ByteStream::new(write_packet(0, &payload).unwrap());
    assert_eq!(conn.receive(&mut stream, &config, 0, None), Err(ProtocolError::FramingError));
    assert_eq!(conn.state, GameState::Handshake);
    assert_eq!(conn.protocol_version, 0);
    assert_eq!(conn.history, vec![GameState::Handshake]);

    // a handshake with a byte too few
    payload.pop();
    payload.pop();
    let mut stream = ByteStream::new(write_packet(0, &payload).unwrap());
    assert_eq!(conn.receive(&mut stream, &config, 0, None), Err(ProtocolError::FramingError));

    // a handshake whose address is not UTF-8
    let mut stream = ByteStream::new(
        write_packet(0, &[0x01, 0x01, 0xff, 0x00, 0x01, 0x01]).unwrap(),
    );
    assert_eq!(conn.receive(&mut stream, &config, 0, None), Err(ProtocolError::EncodingError));
    assert_eq!(conn.state, GameState::Handshake);

    // nothing at all, and a frame cut short
    let mut stream = ByteStream::new(vec![]);
    assert_eq!(conn.receive(&mut stream, &config, 0, None), Err(ProtocolError::FramingError));
    let mut stream = ByteStream::new(vec![0x10, 0x00, 0x01]);
    assert_eq!(conn.receive(&mut stream, &config, 0, None), Err(ProtocolError::FramingError));
    let mut stream = ByteStream::new(vec![0xff; 6]);
    assert_eq!(conn.receive(&mut stream, &config, 0, None), Err(ProtocolError::FramingError));

    // a status request that carries a payload, a ping that is too short
    let mut conn = after_handshake(578, 1);
    let mut stream = ByteStream::new(write_packet(0, &[0x00]).unwrap());
    assert_eq!(conn.receive(&mut stream, &config, 0, None), Err(ProtocolError::FramingError));
    assert!(!conn.awaiting_ping);
    let mut stream = ByteStream::new(vec![0x01, 0x00]);
    assert!(conn.receive(&mut stream, &config, 0, None).is_ok());
    let mut stream = ByteStream::new(write_packet(1, &[0; 7]).unwrap());
    assert_eq!(conn.receive(&mut stream, &config, 0, None), Err(ProtocolError::FramingError));
    let mut stream = ByteStream::new(write_packet(1, &[0; 9]).unwrap());
    assert_eq!(conn.receive(&mut stream, &config, 0, None), Err(ProtocolError::FramingError));
    assert_eq!(conn.state, GameState::Status);
    assert!(conn.awaiting_ping);
}

#[test]
fn login_start_is_read_and_changes_nothing() {
    let config = Config::default();
    let mut conn = after_handshake(578, 2);
    let payload = LoginStart { name: "Notch".to_owned() }.write().unwrap();
    let mut stream = ByteStream::new(write_packet(0, &payload).unwrap());
    let reply = conn.receive(&mut stream, &config, 0, None).unwrap();
    assert!(reply.is_empty());
    assert_eq!(stream.available(), 0);
    assert_eq!(conn.state, GameState::Login);
    assert_eq!(conn.protocol_version, 578);
    assert_eq!(conn.history, vec![GameState::Handshake, GameState::Login]);
    assert_eq!(conn.close(), None);
    assert_eq!(conn.state, GameState::Closed);
}

#[test]
fn transitions_follow_the_table() {
    let (handshake, status, login, play, closed) = (
        GameState::Handshake,
        GameState::Status,
        GameState::Login,
        GameState::Play,
        GameState::Closed,
    );
    let all = [handshake, status, login, play, closed];
    let allowed = [
        (handshake, status),
        (handshake, login),
        (handshake, closed),
        (status, closed),
        (login, play),
        (login, closed),
        (play, closed),
    ];
    for from in all {
        for to in all {
            assert_eq!(may_follow(from, to), allowed.contains(&(from, to)), "{:?} {:?}", from, to);
        }
    }
    let mut conn = GameConnection::new();
    assert_eq!(conn.advance_to(play), Err(ProtocolError::ProtocolViolation));
    assert_eq!(conn.advance_to(handshake), Err(ProtocolError::ProtocolViolation));
    assert_eq!(conn.state, handshake);
    assert_eq!(conn.history, vec![handshake]);
    assert_eq!(conn.advance_to(login), Ok(None));
    assert_eq!(conn.advance_to(status), Err(ProtocolError::ProtocolViolation));
    assert_eq!(conn.advance_to(play), Ok(Some(ServerEvent::PlayerConnected)));
    assert_eq!(conn.advance_to(play), Err(ProtocolError::ProtocolViolation));
    assert_eq!(conn.advance_to(closed), Ok(Some(ServerEvent::PlayerDisconnected)));
    assert_eq!(conn.advance_to(closed), Err(ProtocolError::ProtocolViolation));
    assert_eq!(conn.history, vec![handshake, login, play, closed]);
}

#[test]
fn player_accounting() {
    let mut server = Server::new();
    assert_eq!(server.num_players, 0);
    let mut playing: Vec<GameConnection> = Vec::new();
    for n in 1..=5u16 {
        let mut conn = after_handshake(578, 2);
        let event = conn.advance_to(GameState::Play).unwrap().unwrap();
        assert_eq!(event, ServerEvent::PlayerConnected);
        assert!(server.accepts(event));
        server.apply(event);
        assert_eq!(server.num_players, n);
        playing.push(conn);
    }
    // connections that close from Status, Login or the handshake say nothing
    let mut status = after_handshake(578, 1);
    assert_eq!(status.close(), None);
    let mut login = after_handshake(578, 2);
    assert_eq!(login.close(), None);
    let mut fresh = GameConnection::new();
    assert_eq!(fresh.close(), None);
    assert_eq!(fresh.history, vec![GameState::Handshake, GameState::Closed]);
    assert_eq!(server.num_players, 5);

    let mut left: u16 = 5;
    for conn in playing.iter_mut() {
        let event = conn.close().unwrap();
        assert_eq!(event, ServerEvent::PlayerDisconnected);
        assert!(server.accepts(event));
        server.apply(event);
        left -= 1;
        assert_eq!(server.num_players, left);
        // a second close is not a second disconnect
        assert_eq!(conn.close(), None);
        assert_eq!(conn.state, GameState::Closed);
    }
    assert_eq!(server.num_players, 0);
}

#[test]
fn server_count_stays_within_its_bounds() {
    let mut server = Server::new();
    assert!(!server.accepts(ServerEvent::PlayerDisconnected));
    assert!(server.accepts(ServerEvent::PlayerConnected));
    server.num_players = u16::MAX;
    assert!(!server.accepts(ServerEvent::PlayerConnected));
    assert!(server.accepts(ServerEvent::PlayerDisconnected));
    server.apply(ServerEvent::PlayerDisconnected);
    assert_eq!(server.num_players, 65534);
}

#[test]
fn default_configuration() {
    let config = Config::default();
    assert_eq!(config.port, 25565);
    assert_eq!(config.protocol_version, 578);
    assert_eq!(config.max_players, 250);
    assert_eq!(config.motd, "Hello world!");
    assert_eq!(config.favicon, None);

    let fallback = Config::loaded_or_default(None);
    assert_eq!(fallback.port, 25565);
    assert_eq!(fallback.motd, "Hello world!");
    let loaded = Config::loaded_or_default(Some(Config {
        port: 1234,
        protocol_version: 47,
        max_players: 3,
        motd: "hi".to_owned(),
        favicon: Some("icon.png".to_owned()),
    }));
    assert_eq!(loaded.port, 1234);
    assert_eq!(loaded.protocol_version, 47);
    assert_eq!(loaded.max_players, 3);
    assert_eq!(loaded.motd, "hi");
    assert_eq!(loaded.favicon, Some("icon.png".to_owned()));
}

#[test]
fn oversized_address_stops_the_handshake_where_it_is_found() {
    let config = Config::default();
    let mut conn = GameConnection::new();
    // length 10, id 0, version 578, an address that declares i32::MAX bytes
    let mut stream = ByteStream::new(vec![
        0x0a, 0x00, 0xc2, 0x04, 0xff, 0xff, 0xff, 0xff, 0x07, 0x61, 0x61,
    ]);
    assert_eq!(
        conn.receive(&mut stream, &config, 0, None),
        Err(ProtocolError::FramingError)
    );
    assert_eq!(stream.pos, 9);
    assert_eq!(&stream.data[stream.pos..], &[0x61, 0x61]);
    assert_eq!(conn.state, GameState::Handshake);
    assert_eq!(conn.protocol_version, 0);
    assert_eq!(conn.history, vec![GameState::Handshake]);
    assert_eq!(conn.close(), None);

    // the same for a name in a login start: length 131069 is one too many
    let mut conn = after_handshake(578, 2);
    let mut stream = ByteStream::new(vec![0x06, 0x00, 0xfd, 0xff, 0x07, 0x61, 0x61]);
    assert_eq!(
        conn.receive(&mut stream, &config, 0, None),
        Err(ProtocolError::FramingError)
    );
    assert_eq!(stream.pos, 5);
    assert_eq!(conn.state, GameState::Login);
}

#[test]
fn field_errors_leave_the_stream_where_the_field_stopped() {
    let config = Config::default();
    // a handshake whose address is not UTF-8: taken up to the end of the address
    let mut conn = GameConnection::new();
    let mut stream = ByteStream::new(
        write_packet(0, &[0x01, 0x01, 0xff, 0x00, 0x01, 0x01]).unwrap(),
    );
    assert_eq!(conn.receive(&mut stream, &config, 0, None), Err(ProtocolError::EncodingError));
    assert_eq!(stream.pos, 2 + 3);

    // a handshake that ends before its frame does: the last byte is left
    let mut payload = Handshake {
        protocol_version: 578,
        server_address: "h".to_owned(),
        server_port: 1,
        next_state: 1,
    }
    .write()
    .unwrap();
    payload.push(0x55);
    let frame = write_packet(0, &payload).unwrap();
    let len = frame.len();
    let mut stream = ByteStream::new(frame);
    assert_eq!(conn.receive(&mut stream, &config, 0, None), Err(ProtocolError::FramingError));
    assert_eq!(stream.pos, len - 1);
    assert_eq!(conn.state, GameState::Handshake);

    // a frame that declares less than its packet takes
    let mut stream = ByteStream::new(vec![0x03, 0x00, 0xc2, 0x04, 0x00, 0x00, 0x01, 0x01]);
    assert_eq!(conn.receive(&mut stream, &config, 0, None), Err(ProtocolError::FramingError));
    assert_eq!(stream.pos, 8);
    assert_eq!(conn.state, GameState::Handshake);

    // a length that cannot hold the id, and one above the maximum
    let mut stream = ByteStream::new(vec![0x00, 0x00, 0x01]);
    assert_eq!(conn.receive(&mut stream, &config, 0, None), Err(ProtocolError::FramingError));
    assert_eq!(stream.pos, 2);
    let mut stream = ByteStream::new(vec![0x80, 0x80, 0x80, 0x01, 0x00, 0x01]);
    assert_eq!(conn.receive(&mut stream, &config, 0, None), Err(ProtocolError::FramingError));
    assert_eq!(stream.pos, 5);

    // a status request that declares a payload: the payload is left
    let mut conn = after_handshake(578, 1);
    let mut stream = ByteStream::new(vec![0x02, 0x00, 0x07]);
    assert_eq!(conn.receive(&mut stream, &config, 0, None), Err(ProtocolError::FramingError));
    assert_eq!(stream.pos, 2);
}

#[test]
fn exchange_with_an_address_of_more_bytes_than_characters() {
    let config = Config::default();
    let address = "\u{e9}";
    assert_eq!(address.len(), 2);
    let payload = Handshake {
        protocol_version: 578,
        server_address: address.to_owned(),
        server_port: 25565,
        next_state: 1,
    }
    .write()
    .unwrap();
    assert_eq!(payload, vec![0xc2, 0x04, 0x02, 0xc3, 0xa9, 0x63, 0xdd, 0x01]);
    let mut input = write_packet(0, &payload).unwrap();
    input.extend_from_slice(&[0x01, 0x00]);
    input.extend(write_packet(1, &encode_long(0x1122334455667788)).unwrap());
    let total = input.len();
    let mut stream = ByteStream::new(input);

    let mut conn = GameConnection::new();
    assert!(!conn.answers_status_next());
    assert_eq!(conn.receive(&mut stream, &config, 0, None), Ok(vec![]));
    assert_eq!(stream.pos, 10);
    assert_eq!(conn.state, GameState::Status);
    assert_eq!(conn.protocol_version, 578);
    assert!(conn.answers_status_next());

    let reply = conn.receive(&mut stream, &config, 0, None).unwrap();
    assert_eq!(stream.pos, 12);
    assert!(!conn.answers_status_next());
    let mut reply_stream = ByteStream::new(reply);
    let packet = read_packet(&mut reply_stream).unwrap();
    assert_eq!(packet.id, 0);
    let mut body = ByteStream::new(packet.payload);
    let json = StatusResponse::read(&mut body).unwrap().json;
    assert!(json.contains("\"description\":{\"text\":\"Hello world!\"}"));

    let reply = conn.receive(&mut stream, &config, 0, None).unwrap();
    assert_eq!(
        reply,
        vec![0x09, 0x01, 0x11, 0x22, 0x33, 0x44, 0x55, 0x66, 0x77, 0x88]
    );
    assert_eq!(stream.pos, total);
    assert_eq!(conn.state, GameState::Closed);
    assert!(!conn.answers_status_next());

    // every address of one to four bytes a character is read back the same way
    for address in ["a", "\u{e9}\u{e9}", "\u{4e16}\u{754c}", "\u{1f600}", ""] {
        let payload = Handshake {
            protocol_version: 578,
            server_address: address.to_owned(),
            server_port: 25565,
            next_state: 2,
        }
        .write()
        .unwrap();
        let frame = write_packet(0, &payload).unwrap();
        let len = frame.len();
        let mut stream = ByteStream::new(frame);
        let mut conn = GameConnection::new();
        assert_eq!(conn.receive(&mut stream, &config, 0, None), Ok(vec![]));
        assert_eq!(stream.pos, len);
        assert_eq!(conn.state, GameState::Login);
    }
}
