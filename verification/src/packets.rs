//! The typed packets: what each holds, in which state and direction it
//! travels, and how its payload is laid out.

use vstd::prelude::*;
use crate::error::{Decoded, ProtocolError};
use crate::mctypes::fixed::{decode_long, decode_unsigned_short, encode_long, encode_unsigned_short};
use crate::mctypes::fixed::{lemma_long_roundtrip, lemma_unsigned_short_roundtrip};
use crate::mctypes::fixed::{spec_decode_long, spec_decode_unsigned_short};
use crate::mctypes::fixed::{spec_encode_long, spec_encode_unsigned_short};
use crate::mctypes::strings::{decode_string, encode_string, lemma_string_roundtrip};
use crate::mctypes::strings::{spec_decode_string, spec_encode_string, spec_string_fits};
use crate::mctypes::strings::MAX_STRING_BYTES;
use crate::mctypes::varint::{decode_varint, encode_varint, lemma_varint_roundtrip};
use crate::mctypes::varint::{spec_decode_varint, spec_encode_varint};
use crate::net::GameState;
use crate::stream::ByteStream;

verus! {

/// Which way a packet travels.
#[derive(Debug, Clone, Copy, PartialEq, Eq, Structural)]
pub enum Direction {
    /// From the client to the server.
    ServerBound,
    /// From the server to the client.
    ClientBound,
}

/// The packets this server knows.
#[derive(Debug, Clone, Copy, PartialEq, Eq, Structural)]
pub enum PacketKind {
    Handshake,
    StatusRequest,
    StatusResponse,
    Ping,
    Pong,
    LoginStart,
}

/// The packet that `id` names in the given state and direction, or a
/// protocol violation where it names none.
pub open spec fn spec_packet_kind(state: GameState, direction: Direction, id: i32) -> Result<
    PacketKind,
    ProtocolError,
> {
    match (state, direction) {
        (GameState::Handshake, Direction::ServerBound) => if id == 0 {
            Ok(PacketKind::Handshake)
        } else {
            Err(ProtocolError::ProtocolViolation)
        },
        (GameState::Status, Direction::ServerBound) => if id == 0 {
            Ok(PacketKind::StatusRequest)
        } else if id == 1 {
            Ok(PacketKind::Ping)
        } else {
            Err(ProtocolError::ProtocolViolation)
        },
        (GameState::Status, Direction::ClientBound) => if id == 0 {
            Ok(PacketKind::StatusResponse)
        } else if id == 1 {
            Ok(PacketKind::Pong)
        } else {
            Err(ProtocolError::ProtocolViolation)
        },
        (GameState::Login, Direction::ServerBound) => if id == 0 {
            Ok(PacketKind::LoginStart)
        } else {
            Err(ProtocolError::ProtocolViolation)
        },
        _ => Err(ProtocolError::ProtocolViolation),
    }
}

/// Looks a packet up by state, direction and id.
pub fn packet_kind(state: GameState, direction: Direction, id: i32) -> (r: Result<
    PacketKind,
    ProtocolError,
>)
    ensures
        r == spec_packet_kind(state, direction, id),
{
    match (state, direction) {
        (GameState::Handshake, Direction::ServerBound) => if id == 0 {
            Ok(PacketKind::Handshake)
        } else {
            Err(ProtocolError::ProtocolViolation)
        },
        (GameState::Status, Direction::ServerBound) => if id == 0 {
            Ok(PacketKind::StatusRequest)
        } else if id == 1 {
            Ok(PacketKind::Ping)
        } else {
            Err(ProtocolError::ProtocolViolation)
        },
        (GameState::Status, Direction::ClientBound) => if id == 0 {
            Ok(PacketKind::StatusResponse)
        } else if id == 1 {
            Ok(PacketKind::Pong)
        } else {
            Err(ProtocolError::ProtocolViolation)
        },
        (GameState::Login, Direction::ServerBound) => if id == 0 {
            Ok(PacketKind::LoginStart)
        } else {
            Err(ProtocolError::ProtocolViolation)
        },
        _ => Err(ProtocolError::ProtocolViolation),
    }
}

/// The first packet of every connection: what the client speaks and what it
/// wants next.
#[derive(Debug)]
pub struct Handshake {
    pub protocol_version: i32,
    pub server_address: String,
    pub server_port: u16,
    pub next_state: i32,
}

/// A handshake with its text as characters.
pub struct HandshakeView {
    pub protocol_version: i32,
    pub server_address: Seq<char>,
    pub server_port: u16,
    pub next_state: i32,
}

impl View for Handshake {
    type V = HandshakeView;

    open spec fn view(&self) -> HandshakeView {
        HandshakeView {
            protocol_version: self.protocol_version,
            server_address: self.server_address@,
            server_port: self.server_port,
            next_state: self.next_state,
        }
    }
}

/// A handshake payload at the front of `bytes`: protocol version, server
/// address, server port, next state. The first field that fails to decode
/// fails the packet, with what was taken up to and including that field.
pub open spec fn spec_decode_handshake(bytes: Seq<u8>) -> Decoded<HandshakeView> {
    let version = spec_decode_varint(bytes);
    let address = spec_decode_string(bytes.skip(version.consumed as int), MAX_STRING_BYTES as nat);
    let port = spec_decode_unsigned_short(
        bytes.skip((version.consumed + address.consumed) as int),
    );
    let next = spec_decode_varint(
        bytes.skip((version.consumed + address.consumed + port.consumed) as int),
    );
    match (version.outcome, address.outcome, port.outcome, next.outcome) {
        (Err(e), _, _, _) => Decoded { outcome: Err(e), consumed: version.consumed },
        (Ok(_), Err(e), _, _) => Decoded {
            outcome: Err(e),
            consumed: version.consumed + address.consumed,
        },
        (Ok(_), Ok(_), Err(e), _) => Decoded {
            outcome: Err(e),
            consumed: version.consumed + address.consumed + port.consumed,
        },
        (Ok(_), Ok(_), Ok(_), Err(e)) => Decoded {
            outcome: Err(e),
            consumed: version.consumed + address.consumed + port.consumed + next.consumed,
        },
        (Ok(protocol_version), Ok(server_address), Ok(server_port), Ok(next_state)) => Decoded {
            outcome: Ok(
                HandshakeView { protocol_version, server_address, server_port, next_state },
            ),
            consumed: version.consumed + address.consumed + port.consumed + next.consumed,
        },
    }
}

/// The payload of a handshake: its fields in order.
pub open spec fn spec_encode_handshake(h: HandshakeView) -> Seq<u8> {
    spec_encode_varint(h.protocol_version) + spec_encode_string(h.server_address)
        + spec_encode_unsigned_short(h.server_port) + spec_encode_varint(h.next_state)
}

/// The view of a reader's result, for comparison with the specification.
pub open spec fn spec_handshake_outcome(r: Result<Handshake, ProtocolError>) -> Result<
    HandshakeView,
    ProtocolError,
> {
    match r {
        Ok(h) => Ok(h@),
        Err(e) => Err(e),
    }
}

impl Handshake {
    /// Reads a handshake payload from the stream.
    pub fn read(stream: &mut ByteStream) -> (r: Result<Handshake, ProtocolError>)
        ensures
            final(stream).follows(
                *old(stream),
                spec_decode_handshake(old(stream).remaining()).consumed,
            ),
            spec_handshake_outcome(r) == spec_decode_handshake(old(stream).remaining()).outcome,
    {
        let ghost start = *stream;
        let ghost n1 = spec_decode_varint(start.remaining()).consumed;
        let protocol_version: i32 = match decode_varint(stream) {
            Ok(v) => v,
            Err(e) => {
                return Err(e);
            },
        };
        let ghost s1 = *stream;
        let ghost n2 = spec_decode_string(s1.remaining(), MAX_STRING_BYTES as nat).consumed;
        let address = decode_string(stream, MAX_STRING_BYTES);
        proof {
            stream.lemma_follows_twice(s1, start, n1, n2);
        }
        let server_address: String = match address {
            Ok(s) => s,
            Err(e) => {
                return Err(e);
            },
        };
        let ghost s2 = *stream;
        let ghost n3 = spec_decode_unsigned_short(s2.remaining()).consumed;
        let port = decode_unsigned_short(stream);
        proof {
            stream.lemma_follows_twice(s2, start, n1 + n2, n3);
        }
        let server_port: u16 = match port {
            Ok(p) => p,
            Err(e) => {
                return Err(e);
            },
        };
        let ghost s3 = *stream;
        let ghost n4 = spec_decode_varint(s3.remaining()).consumed;
        let next = decode_varint(stream);
        proof {
            stream.lemma_follows_twice(s3, start, n1 + n2 + n3, n4);
        }
        match next {
            Ok(next_state) => Ok(
                Handshake { protocol_version, server_address, server_port, next_state },
            ),
            Err(e) => Err(e),
        }
    }

    /// The payload of this handshake, if its address fits a string field.
    pub fn write(&self) -> (r: Result<Vec<u8>, ProtocolError>)
        ensures
            match r {
                Ok(out) => spec_string_fits(self.server_address@, MAX_STRING_BYTES as nat)
                    && out@ == spec_encode_handshake(self@),
                Err(e) => !spec_string_fits(self.server_address@, MAX_STRING_BYTES as nat) && e
                    == ProtocolError::FramingError,
            },
    {
        let mut out: Vec<u8> = encode_varint(self.protocol_version);
        let address: Vec<u8> = match encode_string(self.server_address.as_str(), MAX_STRING_BYTES) {
            Ok(bytes) => bytes,
            Err(e) => {
                return Err(e);
            },
        };
        let port: Vec<u8> = encode_unsigned_short(self.server_port);
        let next: Vec<u8> = encode_varint(self.next_state);
        let ghost head = out@;
        out.extend_from_slice(address.as_slice());
        out.extend_from_slice(port.as_slice());
        out.extend_from_slice(next.as_slice());
        assert(out@ =~= head + address@ + port@ + next@);
        Ok(out)
    }
}

/// A handshake whose address fits reads back as itself.
pub proof fn lemma_handshake_roundtrip(h: HandshakeView, suffix: Seq<u8>)
    requires
        spec_string_fits(h.server_address, MAX_STRING_BYTES as nat),
    ensures
        spec_decode_handshake(spec_encode_handshake(h) + suffix) == (Decoded {
            outcome: Ok::<HandshakeView, ProtocolError>(h),
            consumed: spec_encode_handshake(h).len(),
        }),
{
    let a = spec_encode_varint(h.protocol_version);
    let b = spec_encode_string(h.server_address);
    let c = spec_encode_unsigned_short(h.server_port);
    let d = spec_encode_varint(h.next_state);
    let wire = spec_encode_handshake(h) + suffix;
    assert(wire =~= a + (b + (c + (d + suffix))));
    lemma_varint_roundtrip(h.protocol_version, b + (c + (d + suffix)));
    assert(wire.skip(a.len() as int) =~= b + (c + (d + suffix)));
    lemma_string_roundtrip(h.server_address, MAX_STRING_BYTES as nat, c + (d + suffix));
    assert(wire.skip((a.len() + b.len()) as int) =~= c + (d + suffix));
    lemma_unsigned_short_roundtrip(h.server_port, d + suffix);
    assert(wire.skip((a.len() + b.len() + c.len()) as int) =~= d + suffix);
    lemma_varint_roundtrip(h.next_state, suffix);
}

/// The packet that opens a login: the name the player asks for.
#[derive(Debug)]
pub struct LoginStart {
    pub name: String,
}

impl View for LoginStart {
    type V = Seq<char>;

    /// The requested name.
    open spec fn view(&self) -> Seq<char> {
        self.name@
    }
}

/// The view of a reader's result, for comparison with the specification.
pub open spec fn spec_login_start_outcome(r: Result<LoginStart, ProtocolError>) -> Result<
    Seq<char>,
    ProtocolError,
> {
    match r {
        Ok(p) => Ok(p@),
        Err(e) => Err(e),
    }
}

impl LoginStart {
    /// Reads a login start payload, which is one string, from the stream.
    pub fn read(stream: &mut ByteStream) -> (r: Result<LoginStart, ProtocolError>)
        ensures
            final(stream).follows(
                *old(stream),
                spec_decode_string(old(stream).remaining(), MAX_STRING_BYTES as nat).consumed,
            ),
            spec_login_start_outcome(r) == spec_decode_string(
                old(stream).remaining(),
                MAX_STRING_BYTES as nat,
            ).outcome,
    {
        match decode_string(stream, MAX_STRING_BYTES) {
            Ok(name) => Ok(LoginStart { name }),
            Err(e) => Err(e),
        }
    }

    /// The payload of this packet, if the name fits a string field.
    pub fn write(&self) -> (r: Result<Vec<u8>, ProtocolError>)
        ensures
            match r {
                Ok(out) => spec_string_fits(self@, MAX_STRING_BYTES as nat) && out@
                    == spec_encode_string(self@),
                Err(e) => !spec_string_fits(self@, MAX_STRING_BYTES as nat) && e
                    == ProtocolError::FramingError,
            },
    {
        encode_string(self.name.as_str(), MAX_STRING_BYTES)
    }
}

/// The request for the server's status. It has no fields.
#[derive(Debug, Clone, Copy, PartialEq, Eq, Structural)]
pub struct StatusRequest {}

impl StatusRequest {
    /// Reads a status request payload, which is empty: nothing is taken.
    pub fn read(stream: &mut ByteStream) -> (r: Result<StatusRequest, ProtocolError>)
        ensures
            final(stream).follows(*old(stream), 0),
            r == Ok::<StatusRequest, ProtocolError>(StatusRequest {  }),
    {
        proof {
            stream.lemma_follows(*old(stream), 0);
        }
        Ok(StatusRequest {  })
    }

    /// The payload of this packet: no bytes.
    pub fn write(&self) -> (out: Vec<u8>)
        ensures
            out@ == Seq::<u8>::empty(),
    {
        Vec::new()
    }
}

/// The answer to a status request: a JSON text.
#[derive(Debug)]
pub struct StatusResponse {
    pub json: String,
}

impl View for StatusResponse {
    type V = Seq<char>;

    /// The JSON text.
    open spec fn view(&self) -> Seq<char> {
        self.json@
    }
}

/// The view of a reader's result, for comparison with the specification.
pub open spec fn spec_status_response_outcome(r: Result<StatusResponse, ProtocolError>) -> Result<
    Seq<char>,
    ProtocolError,
> {
    match r {
        Ok(p) => Ok(p@),
        Err(e) => Err(e),
    }
}

impl StatusResponse {
    /// Reads a status response payload, which is one string, from the
    /// stream.
    pub fn read(stream: &mut ByteStream) -> (r: Result<StatusResponse, ProtocolError>)
        ensures
            final(stream).follows(
                *old(stream),
                spec_decode_string(old(stream).remaining(), MAX_STRING_BYTES as nat).consumed,
            ),
            spec_status_response_outcome(r) == spec_decode_string(
                old(stream).remaining(),
                MAX_STRING_BYTES as nat,
            ).outcome,
    {
        match decode_string(stream, MAX_STRING_BYTES) {
            Ok(json) => Ok(StatusResponse { json }),
            Err(e) => Err(e),
        }
    }

    /// The payload of this packet, if the text fits a string field.
    pub fn write(&self) -> (r: Result<Vec<u8>, ProtocolError>)
        ensures
            match r {
                Ok(out) => spec_string_fits(self@, MAX_STRING_BYTES as nat) && out@
                    == spec_encode_string(self@),
                Err(e) => !spec_string_fits(self@, MAX_STRING_BYTES as nat) && e
                    == ProtocolError::FramingError,
            },
    {
        encode_string(self.json.as_str(), MAX_STRING_BYTES)
    }
}

/// A ping, or the pong that answers it: eight bytes that come back as they
/// went.
#[derive(Debug, Clone, Copy, PartialEq, Eq, Structural)]
pub struct PingPong {
    pub payload: i64,
}

/// A ping or pong payload at the front of `bytes`: one long.
pub open spec fn spec_decode_ping_pong(bytes: Seq<u8>) -> Decoded<PingPong> {
    let long = spec_decode_long(bytes);
    Decoded {
        outcome: match long.outcome {
            Ok(payload) => Ok(PingPong { payload }),
            Err(e) => Err(e),
        },
        consumed: long.consumed,
    }
}

impl PingPong {
    /// Reads a ping or pong payload from the stream.
    pub fn read(stream: &mut ByteStream) -> (r: Result<PingPong, ProtocolError>)
        ensures
            final(stream).follows(
                *old(stream),
                spec_decode_ping_pong(old(stream).remaining()).consumed,
            ),
            r == spec_decode_ping_pong(old(stream).remaining()).outcome,
    {
        match decode_long(stream) {
            Ok(payload) => Ok(PingPong { payload }),
            Err(e) => Err(e),
        }
    }

    /// The payload of this packet: its eight bytes.
    pub fn write(&self) -> (out: Vec<u8>)
        ensures
            out@ == spec_encode_long(self.payload),
            out@.len() == 8,
    {
        encode_long(self.payload)
    }
}

/// A ping or pong reads back as itself.
pub proof fn lemma_ping_pong_roundtrip(p: PingPong, suffix: Seq<u8>)
    ensures
        spec_decode_ping_pong(spec_encode_long(p.payload) + suffix) == (Decoded {
            outcome: Ok::<PingPong, ProtocolError>(p),
            consumed: 8,
        }),
{
    lemma_long_roundtrip(p.payload, suffix);
}

} // verus!
