//! The envelope around every packet: a VarInt length, a VarInt packet id,
//! and the payload.

use vstd::prelude::*;
use vstd::slice::{slice_subrange, slice_to_vec};
use crate::error::{Decoded, ProtocolError};
use crate::mctypes::varint::{decode_varint, encode_varint, lemma_varint_roundtrip};
use crate::mctypes::varint::{lemma_base128_consumed, spec_decode_varint, spec_encode_varint};
use crate::stream::ByteStream;

verus! {

/// The largest length a frame may declare: what three bytes of VarInt can
/// say. A peer that announces more is not waited for.
pub const MAX_FRAME_LENGTH: usize = 2097151;

/// What stands in front of a payload.
#[derive(Debug, Clone, Copy, PartialEq, Eq, Structural)]
pub struct PacketHeader {
    /// How many bytes the id and the payload take together.
    pub length: i32,
    pub id: i32,
    /// How many bytes the id took on the wire.
    pub id_size: usize,
}

impl PacketHeader {
    /// Whether the declared length can be: it holds the id at least, and is
    /// not above the maximum.
    pub open spec fn spec_length_ok(&self) -> bool {
        self.id_size <= self.length <= MAX_FRAME_LENGTH
    }

    /// How many bytes of payload the header announces: the length less the
    /// bytes of the id.
    pub open spec fn spec_payload_len(&self) -> int {
        self.length - self.id_size
    }

    /// The number of payload bytes that the header announces, where its
    /// length can be.
    pub fn payload_len(&self) -> (r: Option<usize>)
        ensures
            match r {
                Some(n) => self.spec_length_ok() && n == self.spec_payload_len(),
                None => !self.spec_length_ok(),
            },
    {
        if self.length < 0 || self.length as usize > MAX_FRAME_LENGTH || (self.length as usize)
            < self.id_size {
            None
        } else {
            Some(self.length as usize - self.id_size)
        }
    }
}

/// A packet as it came off the wire, its payload not yet interpreted.
#[derive(Debug)]
pub struct RawPacket {
    pub id: i32,
    pub payload: Vec<u8>,
}

/// A header at the front of `bytes`: the length, then the id.
pub open spec fn spec_read_packet_header(bytes: Seq<u8>) -> Decoded<PacketHeader> {
    let length = spec_decode_varint(bytes);
    match length.outcome {
        Err(e) => Decoded { outcome: Err(e), consumed: length.consumed },
        Ok(len) => {
            let id = spec_decode_varint(bytes.skip(length.consumed as int));
            Decoded {
                outcome: match id.outcome {
                    Err(e) => Err(e),
                    Ok(value) => Ok(
                        PacketHeader { length: len, id: value, id_size: id.consumed as usize },
                    ),
                },
                consumed: length.consumed + id.consumed,
            }
        },
    }
}

/// A whole frame at the front of `bytes`: its id and its payload, which is
/// what the declared length leaves once the id's own bytes are taken off.
/// A length too small to hold the id, above the maximum, or larger than what
/// is there, is a framing error found with only the header taken.
pub open spec fn spec_read_packet(bytes: Seq<u8>) -> Decoded<(i32, Seq<u8>)> {
    let header = spec_read_packet_header(bytes);
    match header.outcome {
        Err(e) => Decoded { outcome: Err(e), consumed: header.consumed },
        Ok(h) => {
            let body = bytes.skip(header.consumed as int);
            let payload_len = h.spec_payload_len();
            if !h.spec_length_ok() || payload_len > body.len() {
                Decoded { outcome: Err(ProtocolError::FramingError), consumed: header.consumed }
            } else {
                Decoded {
                    outcome: Ok((h.id, body.take(payload_len))),
                    consumed: header.consumed + payload_len as nat,
                }
            }
        },
    }
}

/// The length that the frame of `id` and `payload` declares.
pub open spec fn spec_frame_length(id: i32, payload: Seq<u8>) -> nat {
    spec_encode_varint(id).len() + payload.len()
}

/// How many bytes stand in front of the payload in the frame of `id` and
/// `payload`.
pub open spec fn spec_header_len(id: i32, payload: Seq<u8>) -> nat {
    spec_encode_varint(spec_frame_length(id, payload) as i32).len() + spec_encode_varint(id).len()
}

/// The frame around `payload`: the length of what follows it, the id, the
/// payload.
pub open spec fn spec_frame(id: i32, payload: Seq<u8>) -> Seq<u8> {
    spec_encode_varint(spec_frame_length(id, payload) as i32) + spec_encode_varint(id) + payload
}

/// Reads the length and the id of the next packet, leaving its payload in
/// the stream.
pub fn read_packet_header(stream: &mut ByteStream) -> (r: Result<PacketHeader, ProtocolError>)
    ensures
        final(stream).follows(
            *old(stream),
            spec_read_packet_header(old(stream).remaining()).consumed,
        ),
        r == spec_read_packet_header(old(stream).remaining()).outcome,
{
    let length: i32 = match decode_varint(stream) {
        Ok(n) => n,
        Err(e) => {
            return Err(e);
        },
    };
    let ghost middle = *stream;
    let before_id: usize = stream.pos;
    let r = decode_varint(stream);
    proof {
        stream.lemma_follows_twice(
            middle,
            *old(stream),
            spec_decode_varint(old(stream).remaining()).consumed,
            spec_decode_varint(middle.remaining()).consumed,
        );
    }
    match r {
        Ok(id) => Ok(PacketHeader { length, id, id_size: stream.pos - before_id }),
        Err(e) => Err(e),
    }
}

/// Reads the next packet whole: header and payload.
pub fn read_packet(stream: &mut ByteStream) -> (r: Result<RawPacket, ProtocolError>)
    ensures
        final(stream).follows(*old(stream), spec_read_packet(old(stream).remaining()).consumed),
        match r {
            Ok(packet) => spec_read_packet(old(stream).remaining()).outcome == Ok::<
                (i32, Seq<u8>),
                ProtocolError,
            >((packet.id, packet.payload@)),
            Err(e) => spec_read_packet(old(stream).remaining()).outcome == Err::<
                (i32, Seq<u8>),
                ProtocolError,
            >(e),
        },
{
    let ghost start = stream.remaining();
    let header: PacketHeader = match read_packet_header(stream) {
        Ok(header) => header,
        Err(e) => {
            return Err(e);
        },
    };
    let ghost after_header = *stream;
    let payload_len: usize = match header.payload_len() {
        Some(n) => n,
        None => {
            return Err(ProtocolError::FramingError);
        },
    };
    if payload_len > stream.available() {
        return Err(ProtocolError::FramingError);
    }
    let at: usize = stream.pos;
    assert(at + payload_len <= stream.data@.len());
    let payload: Vec<u8> = slice_to_vec(
        slice_subrange(stream.data.as_slice(), at, at + payload_len),
    );
    proof {
        assert(payload@ =~= after_header.remaining().take(payload_len as int));
    }
    stream.pos = at + payload_len;
    proof {
        stream.lemma_follows(after_header, payload_len as nat);
        stream.lemma_follows_twice(
            after_header,
            *old(stream),
            spec_read_packet_header(start).consumed,
            payload_len as nat,
        );
    }
    Ok(RawPacket { id: header.id, payload })
}

/// Wraps `payload` in a frame with the given id. A payload that would take
/// the frame's length above the maximum is a framing error.
pub fn write_packet(id: i32, payload: &[u8]) -> (r: Result<Vec<u8>, ProtocolError>)
    ensures
        match r {
            Ok(frame) => spec_frame_length(id, payload@) <= MAX_FRAME_LENGTH && frame@
                == spec_frame(id, payload@),
            Err(e) => spec_frame_length(id, payload@) > MAX_FRAME_LENGTH && e
                == ProtocolError::FramingError,
        },
{
    let id_bytes: Vec<u8> = encode_varint(id);
    if payload.len() > MAX_FRAME_LENGTH - id_bytes.len() {
        return Err(ProtocolError::FramingError);
    }
    let length: usize = id_bytes.len() + payload.len();
    let mut frame: Vec<u8> = encode_varint(length as i32);
    let ghost head = frame@;
    frame.extend_from_slice(id_bytes.as_slice());
    frame.extend_from_slice(payload);
    assert(frame@ =~= head + id_bytes@ + payload@);
    Ok(frame)
}

/// A frame reads back as the id and the payload it was made of, and reading
/// it takes exactly the frame, whatever follows it.
pub proof fn lemma_frame_roundtrip(id: i32, payload: Seq<u8>, suffix: Seq<u8>)
    requires
        spec_frame_length(id, payload) <= MAX_FRAME_LENGTH,
    ensures
        spec_read_packet_header(spec_frame(id, payload) + suffix) == (Decoded {
            outcome: Ok::<PacketHeader, ProtocolError>(
                PacketHeader {
                    length: spec_frame_length(id, payload) as i32,
                    id,
                    id_size: spec_encode_varint(id).len() as usize,
                },
            ),
            consumed: spec_header_len(id, payload),
        }),
        (spec_frame(id, payload) + suffix).skip(spec_header_len(id, payload) as int) == payload
            + suffix,
        spec_read_packet(spec_frame(id, payload) + suffix) == (Decoded {
            outcome: Ok::<(i32, Seq<u8>), ProtocolError>((id, payload)),
            consumed: spec_frame(id, payload).len(),
        }),
{
    let length = spec_frame_length(id, payload) as i32;
    let head = spec_encode_varint(length);
    let id_bytes = spec_encode_varint(id);
    let wire = spec_frame(id, payload) + suffix;
    assert(wire =~= head + (id_bytes + (payload + suffix)));
    lemma_varint_roundtrip(length, id_bytes + (payload + suffix));
    assert(wire.skip(head.len() as int) =~= id_bytes + (payload + suffix));
    lemma_varint_roundtrip(id, payload + suffix);
    assert(wire.skip((head.len() + id_bytes.len()) as int) =~= payload + suffix);
    assert((payload + suffix).take(payload.len() as int) =~= payload);
}

/// How far the bytes received so far go towards one frame.
#[derive(Debug, Clone, Copy, PartialEq, Eq, Structural)]
pub enum FrameStatus {
    /// More bytes are needed before anything can be said.
    Incomplete,
    /// A whole frame is there, and it is this many bytes long.
    Ready(usize),
    /// No frame can start like this.
    Invalid,
}

/// Whether `bytes` open with a whole frame. The length field decides: while
/// it is cut short, or announces more than has arrived, the frame is
/// incomplete; a length field of five bytes that still continues, a length
/// that leaves no room for an id, and a length above the maximum are
/// invalid.
pub open spec fn spec_frame_status(bytes: Seq<u8>) -> FrameStatus {
    let length = spec_decode_varint(bytes);
    match length.outcome {
        Err(_) => if length.consumed < 5 {
            FrameStatus::Incomplete
        } else {
            FrameStatus::Invalid
        },
        Ok(len) => if len < 1 || len > MAX_FRAME_LENGTH {
            FrameStatus::Invalid
        } else if bytes.len() < length.consumed + len {
            FrameStatus::Incomplete
        } else {
            FrameStatus::Ready((length.consumed + len) as usize)
        },
    }
}

/// Tells whether the bytes received so far open with a whole frame.
pub fn frame_status(bytes: &[u8]) -> (status: FrameStatus)
    ensures
        status == spec_frame_status(bytes@),
{
    let mut stream = ByteStream::new(slice_to_vec(bytes));
    match decode_varint(&mut stream) {
        Err(_) => if stream.pos < 5 {
            FrameStatus::Incomplete
        } else {
            FrameStatus::Invalid
        },
        Ok(len) => if len < 1 || len as usize > MAX_FRAME_LENGTH {
            FrameStatus::Invalid
        } else if stream.available() < len as usize {
            FrameStatus::Incomplete
        } else {
            FrameStatus::Ready(stream.pos + len as usize)
        },
    }
}

/// A frame that is ready is there in full, and a packet read from it takes
/// exactly the bytes announced.
pub proof fn lemma_ready_frame_is_whole(bytes: Seq<u8>, total: usize)
    requires
        bytes.len() <= usize::MAX,
        spec_frame_status(bytes) == FrameStatus::Ready(total),
    ensures
        total <= bytes.len(),
        spec_read_packet(bytes).outcome is Ok ==> spec_read_packet(bytes).consumed == total,
{
    lemma_base128_consumed(bytes.skip(spec_decode_varint(bytes).consumed as int), 5);
}

/// The frame that `write_packet` makes is ready, whatever follows it.
pub proof fn lemma_written_frame_is_ready(id: i32, payload: Seq<u8>, suffix: Seq<u8>)
    requires
        spec_frame_length(id, payload) <= MAX_FRAME_LENGTH,
    ensures
        spec_frame_status(spec_frame(id, payload) + suffix) == FrameStatus::Ready(
            spec_frame(id, payload).len() as usize,
        ),
{
    let length = spec_frame_length(id, payload) as i32;
    lemma_varint_roundtrip(length, spec_encode_varint(id) + payload + suffix);
    lemma_varint_roundtrip(id, Seq::empty());
    assert(spec_frame(id, payload) + suffix =~= spec_encode_varint(length) + (spec_encode_varint(
        id,
    ) + payload + suffix));
}

} // verus!
