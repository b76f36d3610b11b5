//! Length-prefixed UTF-8 strings.

use vstd::prelude::*;
use vstd::slice::slice_subrange;
use vstd::string::StringSliceAdditionalSpecFns;
use vstd::utf8::{decode_utf8, encode_utf8, valid_utf8};
use vstd::utf8::{encode_utf8_decode_utf8, encode_utf8_valid_utf8};
use crate::error::{Decoded, ProtocolError};
use crate::mctypes::varint::{decode_varint, encode_varint, lemma_varint_roundtrip};
use crate::mctypes::varint::{spec_decode_varint, spec_encode_varint};
use crate::stream::ByteStream;

verus! {

/// The most bytes a string field of a packet may hold: what 32767
/// characters can take in UTF-8.
pub const MAX_STRING_BYTES: usize = 131068;

/// A string at the front of `bytes`: a VarInt byte count, then that many
/// bytes of UTF-8. A count that is negative or above `max_len`, or larger
/// than what is left, is a framing error found once the count has been read,
/// with none of the bytes behind it taken. Bytes that are not well-formed
/// UTF-8 are an encoding error.
pub open spec fn spec_decode_string(bytes: Seq<u8>, max_len: nat) -> Decoded<Seq<char>> {
    let prefix = spec_decode_varint(bytes);
    match prefix.outcome {
        Err(e) => Decoded { outcome: Err(e), consumed: prefix.consumed },
        Ok(len) => {
            let body = bytes.skip(prefix.consumed as int);
            if len < 0 || len > max_len || len > body.len() {
                Decoded { outcome: Err(ProtocolError::FramingError), consumed: prefix.consumed }
            } else if !valid_utf8(body.take(len as int)) {
                Decoded {
                    outcome: Err(ProtocolError::EncodingError),
                    consumed: prefix.consumed + len as nat,
                }
            } else {
                Decoded {
                    outcome: Ok(decode_utf8(body.take(len as int))),
                    consumed: prefix.consumed + len as nat,
                }
            }
        },
    }
}

/// The wire form of a string: the count of its UTF-8 bytes as a VarInt, then
/// those bytes.
pub open spec fn spec_encode_string(chars: Seq<char>) -> Seq<u8> {
    spec_encode_varint(encode_utf8(chars).len() as i32) + encode_utf8(chars)
}

/// Whether a string of these characters may be written under the limit
/// `max_len`: its UTF-8 form is no longer than the limit, and its length fits
/// the VarInt in front of it.
pub open spec fn spec_string_fits(chars: Seq<char>, max_len: nat) -> bool {
    encode_utf8(chars).len() <= max_len && encode_utf8(chars).len() <= i32::MAX
}

/// The view of a decoder's result, for comparison with the specification.
pub open spec fn spec_string_outcome(r: Result<String, ProtocolError>) -> Result<
    Seq<char>,
    ProtocolError,
> {
    match r {
        Ok(s) => Ok(s@),
        Err(e) => Err(e),
    }
}

/// `String::from_utf8` of std: the string that the bytes spell, if they are
/// well-formed UTF-8, and nothing if they are not.
#[verifier::external_body]
fn string_from_utf8(bytes: Vec<u8>) -> (r: Option<String>)
    ensures
        r.is_some() == valid_utf8(bytes@),
        r matches Some(s) ==> s@ == decode_utf8(bytes@),
{
    match String::from_utf8(bytes) {
        Ok(s) => Some(s),
        Err(_) => None,
    }
}

/// Reads one string of at most `max_len` bytes from the stream.
pub fn decode_string(stream: &mut ByteStream, max_len: usize) -> (r: Result<String, ProtocolError>)
    ensures
        final(stream).follows(
            *old(stream),
            spec_decode_string(old(stream).remaining(), max_len as nat).consumed,
        ),
        spec_string_outcome(r) == spec_decode_string(
            old(stream).remaining(),
            max_len as nat,
        ).outcome,
{
    let ghost start = stream.remaining();
    let declared: i32 = match decode_varint(stream) {
        Ok(n) => n,
        Err(e) => {
            return Err(e);
        },
    };
    let ghost prefix = spec_decode_varint(start).consumed;
    if declared < 0 {
        return Err(ProtocolError::FramingError);
    }
    let len: usize = declared as usize;
    if len > max_len || len > stream.available() {
        return Err(ProtocolError::FramingError);
    }
    let at: usize = stream.pos;
    assert(at + len <= stream.data@.len());
    let raw: Vec<u8> = vstd::slice::slice_to_vec(
        slice_subrange(stream.data.as_slice(), at, at + len),
    );
    proof {
        let body = start.skip(spec_decode_varint(start).consumed as int);
        assert(stream.remaining() =~= body);
        assert(raw@ =~= body.take(len as int));
    }
    stream.pos = at + len;
    proof {
        stream.lemma_follows(*old(stream), prefix + len as nat);
    }
    match string_from_utf8(raw) {
        Some(s) => Ok(s),
        None => Err(ProtocolError::EncodingError),
    }
}

/// Writes `s` in wire form, if it fits under `max_len`.
pub fn encode_string(s: &str, max_len: usize) -> (r: Result<Vec<u8>, ProtocolError>)
    ensures
        match r {
            Ok(out) => spec_string_fits(s@, max_len as nat) && out@ == spec_encode_string(s@),
            Err(e) => !spec_string_fits(s@, max_len as nat) && e == ProtocolError::FramingError,
        },
{
    let bytes = s.as_bytes();
    let len: usize = bytes.len();
    if len > max_len || len > 0x7fff_ffff {
        return Err(ProtocolError::FramingError);
    }
    let mut out: Vec<u8> = encode_varint(len as i32);
    let ghost head = out@;
    out.extend_from_slice(bytes);
    assert(out@ =~= head + s.spec_bytes());
    Ok(out)
}

/// A string that fits under the limit reads back as itself, and reading it
/// takes exactly the bytes that were written, whatever follows them.
pub proof fn lemma_string_roundtrip(chars: Seq<char>, max_len: nat, suffix: Seq<u8>)
    requires
        spec_string_fits(chars, max_len),
    ensures
        spec_decode_string(spec_encode_string(chars) + suffix, max_len) == (Decoded {
            outcome: Ok::<Seq<char>, ProtocolError>(chars),
            consumed: spec_encode_string(chars).len(),
        }),
{
    let body = encode_utf8(chars);
    let len = body.len() as i32;
    let head = spec_encode_varint(len);
    let wire = spec_encode_string(chars) + suffix;
    assert(wire =~= head + (body + suffix));
    lemma_varint_roundtrip(len, body + suffix);
    assert(wire.skip(head.len() as int) =~= body + suffix);
    assert((body + suffix).take(len as int) =~= body);
    encode_utf8_valid_utf8(chars);
    encode_utf8_decode_utf8(chars);
}

/// A declared length above the limit is a framing error, and only the bytes
/// of the length itself have been taken when it is found.
pub proof fn lemma_string_oversized(bytes: Seq<u8>, max_len: nat)
    requires
        spec_decode_varint(bytes).outcome matches Ok(len) && len > max_len,
    ensures
        spec_decode_string(bytes, max_len) == (Decoded {
            outcome: Err::<Seq<char>, ProtocolError>(ProtocolError::FramingError),
            consumed: spec_decode_varint(bytes).consumed,
        }),
{
}

} // verus!
