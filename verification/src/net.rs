//! The life of one connection: its states and what moves it between them.

use vstd::prelude::*;
use crate::config::Config;
use crate::error::{Decoded, ProtocolError};
use crate::mctypes::strings::{spec_decode_string, spec_encode_string, spec_string_fits};
use crate::mctypes::strings::MAX_STRING_BYTES;
use crate::mctypes::fixed::{lemma_long_roundtrip, spec_encode_long};
use crate::mctypes::varint::{lemma_base128_consumed, lemma_varint_roundtrip, spec_decode_varint};
use crate::packets::{packet_kind, spec_packet_kind, Direction, PacketKind};
use crate::packets::{lemma_handshake_roundtrip, lemma_ping_pong_roundtrip};
use crate::packets::{spec_decode_handshake, spec_decode_ping_pong, spec_encode_handshake};
use crate::packets::HandshakeView;
use crate::packets::{Handshake, LoginStart, PingPong, StatusRequest};
use crate::protocol::{read_packet_header, spec_frame, spec_read_packet_header, write_packet};
use crate::protocol::{lemma_frame_roundtrip, spec_frame_length, spec_frame_status};
use crate::protocol::{FrameStatus, PacketHeader, MAX_FRAME_LENGTH};
use crate::server::{spec_count_after_all, ServerEvent};
use crate::status::{spec_favicon_bytes, spec_favicon_fits, spec_favicon_text};
use crate::status::{spec_status_json, status_response};
use crate::stream::ByteStream;

verus! {

/// Where a connection stands in the protocol.
#[derive(Debug, Clone, Copy, PartialEq, Eq, Structural)]
pub enum GameState {
    Handshake,
    Status,
    Login,
    Play,
    Closed,
}

/// Whether a connection may go from `from` straight to `to`.
pub open spec fn spec_may_follow(from: GameState, to: GameState) -> bool {
    match from {
        GameState::Handshake => to == GameState::Status || to == GameState::Login || to
            == GameState::Closed,
        GameState::Status => to == GameState::Closed,
        GameState::Login => to == GameState::Play || to == GameState::Closed,
        GameState::Play => to == GameState::Closed,
        GameState::Closed => false,
    }
}

/// What the main loop hears of a step from `from` to `to`: that a player is
/// there once Play is entered, and that the player is gone once Play is
/// left.
pub open spec fn spec_transition_event(from: GameState, to: GameState) -> Option<ServerEvent> {
    if to == GameState::Play {
        Some(ServerEvent::PlayerConnected)
    } else if from == GameState::Play && to == GameState::Closed {
        Some(ServerEvent::PlayerDisconnected)
    } else {
        None
    }
}

/// Tells whether a connection may go from `from` straight to `to`.
#[verifier::when_used_as_spec(spec_may_follow)]
pub fn may_follow(from: GameState, to: GameState) -> (ok: bool)
    ensures
        ok == spec_may_follow(from, to),
{
    match from {
        GameState::Handshake => to == GameState::Status || to == GameState::Login || to
            == GameState::Closed,
        GameState::Status => to == GameState::Closed,
        GameState::Login => to == GameState::Play || to == GameState::Closed,
        GameState::Play => to == GameState::Closed,
        GameState::Closed => false,
    }
}

/// Whether `history` is a way a connection can have gone: it starts with
/// the handshake, and every state may follow the one before it.
pub open spec fn spec_valid_history(history: Seq<GameState>) -> bool {
    &&& history.len() > 0
    &&& history[0] == GameState::Handshake
    &&& forall|i: int|
        0 <= i < history.len() - 1 ==> spec_may_follow(#[trigger] history[i], history[i + 1])
}

/// The low sixteen bits of a protocol version, which is what a connection
/// keeps of it.
pub open spec fn spec_low_u16(v: i32) -> u16 {
    (v as int % 0x1_0000) as u16
}

/// Where a handshake sends the connection: a login with another protocol
/// version than the server's is turned away; otherwise 1 asks for the
/// status, 2 for a login, and anything else closes the connection.
pub open spec fn spec_handshake_target(
    protocol_version: i32,
    next_state: i32,
    configured_version: u16,
) -> GameState {
    if next_state == 2 && protocol_version != configured_version {
        GameState::Closed
    } else if next_state == 1 {
        GameState::Status
    } else if next_state == 2 {
        GameState::Login
    } else {
        GameState::Closed
    }
}

/// What a packet's fields decode to when they have to take exactly the
/// `declared` bytes of payload: a packet that ends before its frame does, or
/// behind it, is a framing error.
pub open spec fn spec_fields<T>(fields: Decoded<T>, declared: int) -> Result<T, ProtocolError> {
    match fields.outcome {
        Ok(value) => if fields.consumed == declared {
            Ok(value)
        } else {
            Err(ProtocolError::FramingError)
        },
        Err(e) => Err(e),
    }
}

/// The text of the status response that a server would give, or nothing
/// where its favicon does not fit.
pub open spec fn spec_status_text(
    protocol_version: u16,
    max_players: u32,
    motd: Seq<char>,
    online: u16,
    favicon: Option<Seq<u8>>,
) -> Option<Seq<char>> {
    if spec_favicon_fits(favicon) {
        Some(
            spec_status_json(
                protocol_version as nat,
                max_players as nat,
                online as nat,
                motd,
                spec_favicon_text(favicon),
            ),
        )
    } else {
        None
    }
}

/// What a packet does to a connection: where the connection stands
/// afterwards, and what is sent back.
pub struct Reaction {
    pub state: GameState,
    pub protocol_version: u16,
    pub awaiting_ping: bool,
    pub reply: Seq<u8>,
}

/// How a connection reacts to a handshake whose fields open `body`: it
/// takes the protocol version and goes where the handshake sends it.
/// Nothing is sent back. The fields are taken from the stream as far as
/// they decode.
pub open spec fn spec_on_handshake(body: Seq<u8>, declared: int, configured_version: u16) -> Decoded<
    Reaction,
> {
    let fields = spec_decode_handshake(body);
    Decoded {
        outcome: match spec_fields(fields, declared) {
            Err(e) => Err(e),
            Ok(h) => Ok(
                Reaction {
                    state: spec_handshake_target(
                        h.protocol_version,
                        h.next_state,
                        configured_version,
                    ),
                    protocol_version: spec_low_u16(h.protocol_version),
                    awaiting_ping: false,
                    reply: Seq::empty(),
                },
            ),
        },
        consumed: fields.consumed,
    }
}

/// How a connection reacts to a status request: unless it has answered one
/// already, it sends the status text in a status response and awaits the
/// ping. A request that declares a payload, and a text that does not fit a
/// string field, are framing errors. Nothing is taken from the stream.
pub open spec fn spec_on_status_request(
    state: GameState,
    protocol_version: u16,
    awaiting_ping: bool,
    declared: int,
    status_text: Option<Seq<char>>,
) -> Decoded<Reaction> {
    Decoded {
        outcome: if awaiting_ping {
            Err(ProtocolError::ProtocolViolation)
        } else if declared != 0 {
            Err(ProtocolError::FramingError)
        } else {
            match status_text {
                Some(text) if spec_string_fits(text, MAX_STRING_BYTES as nat) => Ok(
                    Reaction {
                        state,
                        protocol_version,
                        awaiting_ping: true,
                        reply: spec_frame(0, spec_encode_string(text)),
                    },
                ),
                _ => Err(ProtocolError::FramingError),
            }
        },
        consumed: 0,
    }
}

/// How a connection reacts to a ping whose payload opens `body`: once the
/// status has been given, it sends the payload back in a pong and closes.
/// Before that the ping is a protocol violation, and its payload is left in
/// the stream.
pub open spec fn spec_on_ping(
    protocol_version: u16,
    awaiting_ping: bool,
    body: Seq<u8>,
    declared: int,
) -> Decoded<Reaction> {
    if !awaiting_ping {
        Decoded { outcome: Err(ProtocolError::ProtocolViolation), consumed: 0 }
    } else {
        let fields = spec_decode_ping_pong(body);
        Decoded {
            outcome: match spec_fields(fields, declared) {
                Err(e) => Err(e),
                Ok(ping) => Ok(
                    Reaction {
                        state: GameState::Closed,
                        protocol_version,
                        awaiting_ping: false,
                        reply: spec_frame(1, spec_encode_long(ping.payload)),
                    },
                ),
            },
            consumed: fields.consumed,
        }
    }
}

/// How a connection reacts to a login start whose name opens `body`: the
/// packet is read, and nothing changes or is sent back.
pub open spec fn spec_on_login_start(
    state: GameState,
    protocol_version: u16,
    awaiting_ping: bool,
    body: Seq<u8>,
    declared: int,
) -> Decoded<Reaction> {
    let fields = spec_decode_string(body, MAX_STRING_BYTES as nat);
    Decoded {
        outcome: match spec_fields(fields, declared) {
            Err(e) => Err(e),
            Ok(_) => Ok(Reaction { state, protocol_version, awaiting_ping, reply: Seq::empty() }),
        },
        consumed: fields.consumed,
    }
}

/// How a connection reacts to the packet that `header` announces, its
/// payload opening `body`.
///
/// A length that cannot be is a framing error, and a packet that the state
/// does not know a protocol violation; either is found with nothing of the
/// payload taken. Otherwise the packet's fields are read from the stream,
/// each where the one before it ended, and reading stops at the first that
/// fails. Fields that take fewer or more bytes than the header declared are
/// a framing error.
pub open spec fn spec_react(
    state: GameState,
    protocol_version: u16,
    awaiting_ping: bool,
    header: PacketHeader,
    body: Seq<u8>,
    configured_version: u16,
    status_text: Option<Seq<char>>,
) -> Decoded<Reaction> {
    let declared = header.spec_payload_len();
    if !header.spec_length_ok() {
        Decoded { outcome: Err(ProtocolError::FramingError), consumed: 0 }
    } else {
        match spec_packet_kind(state, Direction::ServerBound, header.id) {
            Err(e) => Decoded { outcome: Err(e), consumed: 0 },
            Ok(PacketKind::Handshake) => spec_on_handshake(body, declared, configured_version),
            Ok(PacketKind::StatusRequest) => spec_on_status_request(
                state,
                protocol_version,
                awaiting_ping,
                declared,
                status_text,
            ),
            Ok(PacketKind::Ping) => spec_on_ping(protocol_version, awaiting_ping, body, declared),
            Ok(PacketKind::LoginStart) => spec_on_login_start(
                state,
                protocol_version,
                awaiting_ping,
                body,
                declared,
            ),
            Ok(_) => Decoded { outcome: Err(ProtocolError::ProtocolViolation), consumed: 0 },
        }
    }
}

/// How a connection reacts to the bytes that a stream holds next: the
/// header of a frame is read, and then the packet it announces. Where the
/// header cannot be read, that is the error.
pub open spec fn spec_receive(
    state: GameState,
    protocol_version: u16,
    awaiting_ping: bool,
    bytes: Seq<u8>,
    configured_version: u16,
    status_text: Option<Seq<char>>,
) -> Decoded<Reaction> {
    let header = spec_read_packet_header(bytes);
    match header.outcome {
        Err(e) => Decoded { outcome: Err(e), consumed: header.consumed },
        Ok(h) => {
            let step = spec_react(
                state,
                protocol_version,
                awaiting_ping,
                h,
                bytes.skip(header.consumed as int),
                configured_version,
                status_text,
            );
            Decoded { outcome: step.outcome, consumed: header.consumed + step.consumed }
        },
    }
}

/// One client's connection, as far as the protocol is concerned.
#[derive(Debug)]
pub struct GameConnection {
    pub state: GameState,
    /// The protocol version the client gave in its handshake.
    pub protocol_version: u16,
    /// Every state the connection has been in, the current one last.
    pub history: Vec<GameState>,
    /// Whether the status was given and the ping is still to come.
    pub awaiting_ping: bool,
}

/// Where a handshake sends the connection.
pub fn handshake_target(handshake: &Handshake, configured_version: u16) -> (target: GameState)
    ensures
        target == spec_handshake_target(
            handshake.protocol_version,
            handshake.next_state,
            configured_version,
        ),
{
    if handshake.next_state == 2 && handshake.protocol_version != configured_version as i32 {
        GameState::Closed
    } else if handshake.next_state == 1 {
        GameState::Status
    } else if handshake.next_state == 2 {
        GameState::Login
    } else {
        GameState::Closed
    }
}

/// The low sixteen bits of `v`.
pub fn low_u16(v: i32) -> (low: u16)
    ensures
        low == spec_low_u16(v),
{
    if v >= 0 {
        (v % 0x1_0000) as u16
    } else {
        ((v as i64 + 0x1_0000_0000) % 0x1_0000) as u16
    }
}

impl GameConnection {
    /// Whether the connection's record of itself hangs together: its
    /// history is a way it can have gone and ends where it stands, and a
    /// ping is awaited only during a status exchange.
    pub open spec fn wf(&self) -> bool {
        &&& spec_valid_history(self.history@)
        &&& self.history@.last() == self.state
        &&& self.awaiting_ping ==> self.state == GameState::Status
    }

    /// A connection that has just been accepted.
    pub fn new() -> (conn: GameConnection)
        ensures
            conn.wf(),
            conn.state == GameState::Handshake,
            conn.protocol_version == 0,
            conn.history@ == seq![GameState::Handshake],
            !conn.awaiting_ping,
    {
        let mut history: Vec<GameState> = Vec::new();
        history.push(GameState::Handshake);
        GameConnection {
            state: GameState::Handshake,
            protocol_version: 0,
            history,
            awaiting_ping: false,
        }
    }

    /// Moves the connection to `next`, if that state may follow the current
    /// one, and says what the main loop is to hear of it. A step that the
    /// protocol does not have is a protocol violation and changes nothing.
    pub fn advance_to(&mut self, next: GameState) -> (r: Result<
        Option<ServerEvent>,
        ProtocolError,
    >)
        ensures
            old(self).wf() ==> final(self).wf(),
            final(self).protocol_version == old(self).protocol_version,
            spec_may_follow(old(self).state, next) ==> {
                &&& r == Ok::<Option<ServerEvent>, ProtocolError>(
                    spec_transition_event(old(self).state, next),
                )
                &&& final(self).state == next
                &&& final(self).history@ == old(self).history@.push(next)
                &&& !final(self).awaiting_ping
            },
            !spec_may_follow(old(self).state, next) ==> {
                &&& r == Err::<Option<ServerEvent>, ProtocolError>(
                    ProtocolError::ProtocolViolation,
                )
                &&& *final(self) == *old(self)
            },
    {
        if !may_follow(self.state, next) {
            return Err(ProtocolError::ProtocolViolation);
        }
        let event: Option<ServerEvent> = if next == GameState::Play {
            Some(ServerEvent::PlayerConnected)
        } else if self.state == GameState::Play && next == GameState::Closed {
            Some(ServerEvent::PlayerDisconnected)
        } else {
            None
        };
        self.history.push(next);
        self.state = next;
        self.awaiting_ping = false;
        Ok(event)
    }

    /// Ends the connection, whatever state it is in, and says what the main
    /// loop is to hear of it: that a player is gone, if the connection was
    /// in play. Closing a closed connection does nothing.
    pub fn close(&mut self) -> (event: Option<ServerEvent>)
        ensures
            old(self).wf() ==> final(self).wf(),
            final(self).state == GameState::Closed,
            final(self).protocol_version == old(self).protocol_version,
            old(self).state == GameState::Closed ==> event == None::<ServerEvent> && *final(self)
                == *old(self),
            old(self).state != GameState::Closed ==> {
                &&& event == spec_transition_event(old(self).state, GameState::Closed)
                &&& final(self).history@ == old(self).history@.push(GameState::Closed)
                &&& !final(self).awaiting_ping
            },
    {
        match self.advance_to(GameState::Closed) {
            Ok(event) => event,
            Err(_) => None,
        }
    }

    /// Whether this connection is `before` after `expected`: changed as the
    /// reaction says, with `r` holding the reply, or unchanged, with `r`
    /// holding the error.
    pub open spec fn answers(
        &self,
        before: GameConnection,
        r: Result<Vec<u8>, ProtocolError>,
        expected: Result<Reaction, ProtocolError>,
    ) -> bool {
        match expected {
            Err(e) => r == Err::<Vec<u8>, ProtocolError>(e) && *self == before,
            Ok(reaction) => {
                &&& r matches Ok(reply) && reply@ == reaction.reply
                &&& self.state == reaction.state
                &&& self.protocol_version == reaction.protocol_version
                &&& self.awaiting_ping == reaction.awaiting_ping
                &&& self.history@ == if reaction.state == before.state {
                    before.history@
                } else {
                    before.history@.push(reaction.state)
                }
            },
        }
    }

    /// Whether this connection is waiting for the status request, which
    /// is when the player count and the favicon are looked at.
    pub fn answers_status_next(&self) -> (yes: bool)
        ensures
            yes == (self.state == GameState::Status && !self.awaiting_ping),
    {
        self.state == GameState::Status && !self.awaiting_ping
    }

    fn on_handshake(&mut self, stream: &mut ByteStream, declared: usize, configured_version: u16) -> (r:
        Result<Vec<u8>, ProtocolError>)
        requires
            old(self).state == GameState::Handshake,
        ensures
            old(self).wf() ==> final(self).wf(),
            final(stream).follows(
                *old(stream),
                spec_on_handshake(
                    old(stream).remaining(),
                    declared as int,
                    configured_version,
                ).consumed,
            ),
            final(self).answers(
                *old(self),
                r,
                spec_on_handshake(
                    old(stream).remaining(),
                    declared as int,
                    configured_version,
                ).outcome,
            ),
    {
        let start: usize = stream.pos;
        let handshake: Handshake = match Handshake::read(stream) {
            Ok(handshake) => handshake,
            Err(e) => {
                return Err(e);
            },
        };
        if stream.pos - start != declared {
            return Err(ProtocolError::FramingError);
        }
        let target: GameState = handshake_target(&handshake, configured_version);
        self.protocol_version = low_u16(handshake.protocol_version);
        let _ = self.advance_to(target);
        Ok(Vec::new())
    }

    fn on_status_request(
        &mut self,
        stream: &mut ByteStream,
        declared: usize,
        config: &Config,
        online: u16,
        favicon: Option<&[u8]>,
    ) -> (r: Result<Vec<u8>, ProtocolError>)
        ensures
            old(self).wf() && old(self).state == GameState::Status ==> final(self).wf(),
            final(stream).follows(*old(stream), 0),
            final(self).answers(
                *old(self),
                r,
                spec_on_status_request(
                    old(self).state,
                    old(self).protocol_version,
                    old(self).awaiting_ping,
                    declared as int,
                    spec_status_text(
                        config.protocol_version,
                        config.max_players,
                        config.motd@,
                        online,
                        spec_favicon_bytes(favicon),
                    ),
                ).outcome,
            ),
    {
        if self.awaiting_ping {
            proof {
                stream.lemma_follows(*old(stream), 0);
            }
            return Err(ProtocolError::ProtocolViolation);
        }
        let start: usize = stream.pos;
        let _ = StatusRequest::read(stream);
        if stream.pos - start != declared {
            return Err(ProtocolError::FramingError);
        }
        let response = match status_response(config, online, favicon) {
            Ok(response) => response,
            Err(e) => {
                return Err(e);
            },
        };
        let body: Vec<u8> = match response.write() {
            Ok(body) => body,
            Err(e) => {
                return Err(e);
            },
        };
        proof {
            lemma_varint_roundtrip(0, Seq::empty());
            lemma_varint_roundtrip(vstd::utf8::encode_utf8(response@).len() as i32, Seq::empty());
        }
        let frame: Vec<u8> = match write_packet(0, body.as_slice()) {
            Ok(frame) => frame,
            Err(e) => {
                return Err(e);
            },
        };
        self.awaiting_ping = true;
        Ok(frame)
    }

    fn on_ping(&mut self, stream: &mut ByteStream, declared: usize) -> (r: Result<
        Vec<u8>,
        ProtocolError,
    >)
        requires
            old(self).state == GameState::Status,
        ensures
            old(self).wf() ==> final(self).wf(),
            final(stream).follows(
                *old(stream),
                spec_on_ping(
                    old(self).protocol_version,
                    old(self).awaiting_ping,
                    old(stream).remaining(),
                    declared as int,
                ).consumed,
            ),
            final(self).answers(
                *old(self),
                r,
                spec_on_ping(
                    old(self).protocol_version,
                    old(self).awaiting_ping,
                    old(stream).remaining(),
                    declared as int,
                ).outcome,
            ),
    {
        if !self.awaiting_ping {
            proof {
                stream.lemma_follows(*old(stream), 0);
            }
            return Err(ProtocolError::ProtocolViolation);
        }
        let start: usize = stream.pos;
        let ping: PingPong = match PingPong::read(stream) {
            Ok(ping) => ping,
            Err(e) => {
                return Err(e);
            },
        };
        if stream.pos - start != declared {
            return Err(ProtocolError::FramingError);
        }
        let body: Vec<u8> = ping.write();
        proof {
            lemma_varint_roundtrip(1, Seq::empty());
        }
        let frame: Vec<u8> = match write_packet(1, body.as_slice()) {
            Ok(frame) => frame,
            Err(e) => {
                return Err(e);
            },
        };
        let _ = self.advance_to(GameState::Closed);
        Ok(frame)
    }

    fn on_login_start(&mut self, stream: &mut ByteStream, declared: usize) -> (r: Result<
        Vec<u8>,
        ProtocolError,
    >)
        ensures
            *final(self) == *old(self),
            final(stream).follows(
                *old(stream),
                spec_on_login_start(
                    old(self).state,
                    old(self).protocol_version,
                    old(self).awaiting_ping,
                    old(stream).remaining(),
                    declared as int,
                ).consumed,
            ),
            final(self).answers(
                *old(self),
                r,
                spec_on_login_start(
                    old(self).state,
                    old(self).protocol_version,
                    old(self).awaiting_ping,
                    old(stream).remaining(),
                    declared as int,
                ).outcome,
            ),
    {
        let start: usize = stream.pos;
        let _ = match LoginStart::read(stream) {
            Ok(login) => login,
            Err(e) => {
                return Err(e);
            },
        };
        if stream.pos - start != declared {
            return Err(ProtocolError::FramingError);
        }
        Ok(Vec::new())
    }

    /// Reacts to the packet that `header` announces, reading its fields from
    /// the stream: the connection moves on as the packet says, and the bytes
    /// to send back are returned. The stream is left where the last field
    /// read ended. An error leaves the connection as it was.
    pub fn react(
        &mut self,
        header: PacketHeader,
        stream: &mut ByteStream,
        config: &Config,
        online: u16,
        favicon: Option<&[u8]>,
    ) -> (r: Result<Vec<u8>, ProtocolError>)
        ensures
            old(self).wf() ==> final(self).wf(),
            final(stream).follows(
                *old(stream),
                spec_react(
                    old(self).state,
                    old(self).protocol_version,
                    old(self).awaiting_ping,
                    header,
                    old(stream).remaining(),
                    config.protocol_version,
                    spec_status_text(
                        config.protocol_version,
                        config.max_players,
                        config.motd@,
                        online,
                        spec_favicon_bytes(favicon),
                    ),
                ).consumed,
            ),
            final(self).answers(
                *old(self),
                r,
                spec_react(
                    old(self).state,
                    old(self).protocol_version,
                    old(self).awaiting_ping,
                    header,
                    old(stream).remaining(),
                    config.protocol_version,
                    spec_status_text(
                        config.protocol_version,
                        config.max_players,
                        config.motd@,
                        online,
                        spec_favicon_bytes(favicon),
                    ),
                ).outcome,
            ),
    {
        proof {
            stream.lemma_follows(*old(stream), 0);
        }
        let declared: usize = match header.payload_len() {
            Some(n) => n,
            None => {
                return Err(ProtocolError::FramingError);
            },
        };
        let kind: PacketKind = match packet_kind(self.state, Direction::ServerBound, header.id) {
            Ok(kind) => kind,
            Err(e) => {
                return Err(e);
            },
        };
        match kind {
            PacketKind::Handshake => self.on_handshake(stream, declared, config.protocol_version),
            PacketKind::StatusRequest => self.on_status_request(
                stream,
                declared,
                config,
                online,
                favicon,
            ),
            PacketKind::Ping => self.on_ping(stream, declared),
            PacketKind::LoginStart => self.on_login_start(stream, declared),
            _ => Err(ProtocolError::ProtocolViolation),
        }
    }

    /// Takes the next packet from the stream and reacts to it: the header is
    /// read, and then the fields of the packet it announces, from the same
    /// stream. The stream is left where reading stopped: behind the frame
    /// when all went well, and behind the field that failed when one did. An
    /// error leaves the connection as it was.
    pub fn receive(
        &mut self,
        stream: &mut ByteStream,
        config: &Config,
        online: u16,
        favicon: Option<&[u8]>,
    ) -> (r: Result<Vec<u8>, ProtocolError>)
        ensures
            old(self).wf() ==> final(self).wf(),
            final(stream).follows(
                *old(stream),
                spec_receive(
                    old(self).state,
                    old(self).protocol_version,
                    old(self).awaiting_ping,
                    old(stream).remaining(),
                    config.protocol_version,
                    spec_status_text(
                        config.protocol_version,
                        config.max_players,
                        config.motd@,
                        online,
                        spec_favicon_bytes(favicon),
                    ),
                ).consumed,
            ),
            final(self).answers(
                *old(self),
                r,
                spec_receive(
                    old(self).state,
                    old(self).protocol_version,
                    old(self).awaiting_ping,
                    old(stream).remaining(),
                    config.protocol_version,
                    spec_status_text(
                        config.protocol_version,
                        config.max_players,
                        config.motd@,
                        online,
                        spec_favicon_bytes(favicon),
                    ),
                ).outcome,
            ),
    {
        let header: PacketHeader = match read_packet_header(stream) {
            Ok(header) => header,
            Err(e) => {
                return Err(e);
            },
        };
        let ghost middle = *stream;
        let r = self.react(header, stream, config, online, favicon);
        proof {
            let status_text = spec_status_text(
                config.protocol_version,
                config.max_players,
                config.motd@,
                online,
                spec_favicon_bytes(favicon),
            );
            stream.lemma_follows_twice(
                middle,
                *old(stream),
                spec_read_packet_header(old(stream).remaining()).consumed,
                spec_react(
                    old(self).state,
                    old(self).protocol_version,
                    old(self).awaiting_ping,
                    header,
                    middle.remaining(),
                    config.protocol_version,
                    status_text,
                ).consumed,
            );
        }
        r
    }
}

/// A frame that is ready is taken whole by a step that succeeds: the
/// stream then stands behind exactly the bytes the frame announced.
pub proof fn lemma_received_frame_is_whole(
    state: GameState,
    protocol_version: u16,
    awaiting_ping: bool,
    bytes: Seq<u8>,
    total: usize,
    configured_version: u16,
    status_text: Option<Seq<char>>,
)
    requires
        bytes.len() <= usize::MAX,
        spec_frame_status(bytes) == FrameStatus::Ready(total),
    ensures
        spec_receive(
            state,
            protocol_version,
            awaiting_ping,
            bytes,
            configured_version,
            status_text,
        ).outcome is Ok ==> spec_receive(
            state,
            protocol_version,
            awaiting_ping,
            bytes,
            configured_version,
            status_text,
        ).consumed == total,
{
    lemma_base128_consumed(bytes.skip(spec_decode_varint(bytes).consumed as int), 5);
}

/// A string length above the limit stops a handshake where it is found: the
/// step fails with a framing error, and the stream stands behind the header,
/// the protocol version and the length itself, with all that follows
/// unread.
pub proof fn lemma_oversized_address_received(
    protocol_version: u16,
    awaiting_ping: bool,
    bytes: Seq<u8>,
    configured_version: u16,
    status_text: Option<Seq<char>>,
)
    requires
        spec_read_packet_header(bytes).outcome matches Ok(h) && h.spec_length_ok() && h.id == 0,
        spec_decode_varint(bytes.skip(spec_read_packet_header(bytes).consumed as int)).outcome
            is Ok,
        spec_decode_varint(
            bytes.skip(spec_read_packet_header(bytes).consumed as int).skip(
                spec_decode_varint(
                    bytes.skip(spec_read_packet_header(bytes).consumed as int),
                ).consumed as int,
            ),
        ).outcome matches Ok(len) && len > MAX_STRING_BYTES,
    ensures
        spec_receive(
            GameState::Handshake,
            protocol_version,
            awaiting_ping,
            bytes,
            configured_version,
            status_text,
        ) == ({
            let header = spec_read_packet_header(bytes);
            let body = bytes.skip(header.consumed as int);
            let version = spec_decode_varint(body);
            let length = spec_decode_varint(body.skip(version.consumed as int));
            Decoded {
                outcome: Err::<Reaction, ProtocolError>(ProtocolError::FramingError),
                consumed: header.consumed + version.consumed + length.consumed,
            }
        }),
{
}

/// A handshake whose address fits a string field is read back whole by the
/// connection that receives its frame: whatever the address, the fields
/// behind it are found in their places, the connection takes the version
/// and goes where the handshake sends it, and the stream stands behind the
/// frame.
pub proof fn lemma_handshake_received(
    h: HandshakeView,
    suffix: Seq<u8>,
    protocol_version: u16,
    awaiting_ping: bool,
    configured_version: u16,
    status_text: Option<Seq<char>>,
)
    requires
        spec_string_fits(h.server_address, MAX_STRING_BYTES as nat),
    ensures
        spec_frame_length(0, spec_encode_handshake(h)) <= MAX_FRAME_LENGTH,
        spec_receive(
            GameState::Handshake,
            protocol_version,
            awaiting_ping,
            spec_frame(0, spec_encode_handshake(h)) + suffix,
            configured_version,
            status_text,
        ) == (Decoded {
            outcome: Ok::<Reaction, ProtocolError>(
                Reaction {
                    state: spec_handshake_target(
                        h.protocol_version,
                        h.next_state,
                        configured_version,
                    ),
                    protocol_version: spec_low_u16(h.protocol_version),
                    awaiting_ping: false,
                    reply: Seq::empty(),
                },
            ),
            consumed: spec_frame(0, spec_encode_handshake(h)).len(),
        }),
{
    let payload = spec_encode_handshake(h);
    lemma_varint_roundtrip(h.protocol_version, Seq::empty());
    lemma_varint_roundtrip(h.next_state, Seq::empty());
    lemma_varint_roundtrip(vstd::utf8::encode_utf8(h.server_address).len() as i32, Seq::empty());
    lemma_varint_roundtrip(0, Seq::empty());
    lemma_frame_roundtrip(0, payload, suffix);
    lemma_handshake_roundtrip(h, suffix);
}

/// A status request is answered with the status text, whatever text that
/// is, as long as it fits a string field; the connection then awaits the
/// ping.
pub proof fn lemma_status_request_received(
    text: Seq<char>,
    suffix: Seq<u8>,
    protocol_version: u16,
    configured_version: u16,
)
    requires
        spec_string_fits(text, MAX_STRING_BYTES as nat),
    ensures
        spec_receive(
            GameState::Status,
            protocol_version,
            false,
            spec_frame(0, Seq::empty()) + suffix,
            configured_version,
            Some(text),
        ) == (Decoded {
            outcome: Ok::<Reaction, ProtocolError>(
                Reaction {
                    state: GameState::Status,
                    protocol_version,
                    awaiting_ping: true,
                    reply: spec_frame(0, spec_encode_string(text)),
                },
            ),
            consumed: spec_frame(0, Seq::empty()).len(),
        }),
{
    lemma_varint_roundtrip(0, Seq::empty());
    lemma_frame_roundtrip(0, Seq::empty(), suffix);
}

/// The ping that follows the status is answered with a pong of the same
/// payload, whatever the payload, and the connection is closed.
pub proof fn lemma_ping_received(
    ping: PingPong,
    suffix: Seq<u8>,
    protocol_version: u16,
    configured_version: u16,
    status_text: Option<Seq<char>>,
)
    ensures
        spec_receive(
            GameState::Status,
            protocol_version,
            true,
            spec_frame(1, spec_encode_long(ping.payload)) + suffix,
            configured_version,
            status_text,
        ) == (Decoded {
            outcome: Ok::<Reaction, ProtocolError>(
                Reaction {
                    state: GameState::Closed,
                    protocol_version,
                    awaiting_ping: false,
                    reply: spec_frame(1, spec_encode_long(ping.payload)),
                },
            ),
            consumed: spec_frame(1, spec_encode_long(ping.payload)).len(),
        }),
{
    lemma_varint_roundtrip(1, Seq::empty());
    lemma_long_roundtrip(ping.payload, Seq::empty());
    lemma_frame_roundtrip(1, spec_encode_long(ping.payload), suffix);
    lemma_ping_pong_roundtrip(ping, suffix);
}

/// The events that a connection with this history has sent to the main
/// loop, in order.
pub open spec fn spec_history_events(history: Seq<GameState>) -> Seq<ServerEvent>
    decreases history.len(),
{
    if history.len() < 2 {
        Seq::empty()
    } else {
        let earlier = spec_history_events(history.drop_last());
        match spec_transition_event(history[history.len() - 2], history.last()) {
            Some(event) => earlier.push(event),
            None => earlier,
        }
    }
}

/// The events of several connections, one connection after the other.
pub open spec fn spec_all_events(histories: Seq<Seq<GameState>>) -> Seq<ServerEvent>
    decreases histories.len(),
{
    if histories.len() == 0 {
        Seq::empty()
    } else {
        spec_all_events(histories.drop_last()) + spec_history_events(histories.last())
    }
}

/// How many of the connections are in play.
pub open spec fn spec_in_play(histories: Seq<Seq<GameState>>) -> nat
    decreases histories.len(),
{
    if histories.len() == 0 {
        0
    } else {
        spec_in_play(histories.drop_last()) + if histories.last().last() == GameState::Play {
            1nat
        } else {
            0nat
        }
    }
}

/// A connection reports a player when it enters Play and takes the report
/// back when it leaves: one that is in play has sent a single connect, one
/// that was in play a connect and then a disconnect, and one that never was
/// has sent nothing.
pub proof fn lemma_connection_events(history: Seq<GameState>)
    requires
        spec_valid_history(history),
    ensures
        history.last() == GameState::Play ==> spec_history_events(history) == seq![
            ServerEvent::PlayerConnected,
        ],
        history.last() != GameState::Play && history.contains(GameState::Play)
            ==> history.last() == GameState::Closed && spec_history_events(history) == seq![
            ServerEvent::PlayerConnected,
            ServerEvent::PlayerDisconnected,
        ],
        !history.contains(GameState::Play) ==> spec_history_events(history) == Seq::<
            ServerEvent,
        >::empty(),
    decreases history.len(),
{
    if history.len() >= 2 {
        let earlier = history.drop_last();
        let n = history.len() - 2;
        assert(earlier.last() == history[n]);
        assert(spec_may_follow(history[n], history[n + 1]));
        assert forall|i: int| 0 <= i < earlier.len() - 1 implies spec_may_follow(
            #[trigger] earlier[i],
            earlier[i + 1],
        ) by {
            assert(spec_may_follow(history[i], history[i + 1]));
        }
        lemma_connection_events(earlier);
        if history.contains(GameState::Play) && history.last() != GameState::Play {
            let k = choose|k: int| 0 <= k < history.len() && history[k] == GameState::Play;
            assert(earlier[k] == GameState::Play);
        }
        if !history.contains(GameState::Play) {
            assert forall|k: int| 0 <= k < earlier.len() implies earlier[k]
                != GameState::Play by {
                assert(history[k] == earlier[k]);
            }
        }
        if earlier.contains(GameState::Play) {
            let k = choose|k: int| 0 <= k < earlier.len() && earlier[k] == GameState::Play;
            assert(history[k] == GameState::Play);
        }
        assert(spec_history_events(earlier).push(ServerEvent::PlayerConnected).len() >= 1);
    } else {
        assert(history.last() == history[0]);
        assert forall|k: int| 0 <= k < history.len() implies history[k] != GameState::Play by {}
    }
}

/// Counting a run of events is counting its first part and then its second.
pub proof fn lemma_count_after_concat(count: int, first: Seq<ServerEvent>, second: Seq<ServerEvent>)
    ensures
        spec_count_after_all(count, first + second) == spec_count_after_all(
            spec_count_after_all(count, first),
            second,
        ),
    decreases second.len(),
{
    if second.len() == 0 {
        assert(first + second =~= first);
    } else {
        assert((first + second).drop_last() =~= first + second.drop_last());
        lemma_count_after_concat(count, first, second.drop_last());
    }
}

/// Player accounting: once the main loop has counted the events of a set of
/// connections, the player count has grown by the number of those that are
/// in play. A connection that closed again, from Play or from any other
/// state, and one that never reached Play, leave the count as it was.
pub proof fn lemma_player_accounting(count: int, histories: Seq<Seq<GameState>>)
    requires
        forall|i: int| 0 <= i < histories.len() ==> spec_valid_history(#[trigger] histories[i]),
    ensures
        spec_count_after_all(count, spec_all_events(histories)) == count + spec_in_play(histories),
    decreases histories.len(),
{
    if histories.len() > 0 {
        let earlier = histories.drop_last();
        let last = histories.last();
        assert forall|i: int| 0 <= i < earlier.len() implies spec_valid_history(
            #[trigger] earlier[i],
        ) by {
            assert(earlier[i] == histories[i]);
        }
        lemma_player_accounting(count, earlier);
        lemma_count_after_concat(count, spec_all_events(earlier), spec_history_events(last));
        lemma_connection_events(last);
        let before = spec_count_after_all(count, spec_all_events(earlier));
        let events = spec_history_events(last);
        reveal_with_fuel(spec_count_after_all, 3);
        if last.last() == GameState::Play {
            assert(events.drop_last() =~= Seq::<ServerEvent>::empty());
            assert(spec_count_after_all(before, events) == before + 1);
        } else if last.contains(GameState::Play) {
            assert(events.drop_last() =~= seq![ServerEvent::PlayerConnected]);
            assert(events.drop_last().drop_last() =~= Seq::<ServerEvent>::empty());
            assert(spec_count_after_all(before, events.drop_last()) == before + 1);
            assert(spec_count_after_all(before, events) == before);
        } else {
            assert(spec_count_after_all(before, events) == before);
        }
    }
}

} // verus!
