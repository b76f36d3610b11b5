//! Fixed-width wire types: big-endian integers, single bytes, booleans.

use vstd::prelude::*;
use crate::error::{Decoded, ProtocolError};
use crate::mctypes::varint::{spec_i64_bits, spec_i64_from_bits};
use crate::stream::ByteStream;

verus! {

/// The number that `bytes` spell in base 256, most significant byte first.
pub open spec fn spec_be_value(bytes: Seq<u8>) -> nat
    decreases bytes.len(),
{
    if bytes.len() == 0 {
        0
    } else {
        spec_be_value(bytes.drop_last()) * 256 + bytes.last() as nat
    }
}

/// The `width` bytes that spell `value` in base 256, most significant byte
/// first.
pub open spec fn spec_be_bytes(value: nat, width: nat) -> Seq<u8>
    decreases width,
{
    if width == 0 {
        Seq::empty()
    } else {
        spec_be_bytes(value / 256, (width - 1) as nat).push((value % 256) as u8)
    }
}

/// 256 to the power `n`.
pub open spec fn pow256(n: nat) -> nat
    decreases n,
{
    if n == 0 {
        1
    } else {
        256 * pow256((n - 1) as nat)
    }
}

/// An unsigned short: two bytes, big-endian. With fewer than two bytes left
/// it is a framing error and nothing is taken.
pub open spec fn spec_decode_unsigned_short(bytes: Seq<u8>) -> Decoded<u16> {
    if bytes.len() < 2 {
        Decoded { outcome: Err(ProtocolError::FramingError), consumed: 0 }
    } else {
        Decoded { outcome: Ok((bytes[0] * 256 + bytes[1]) as u16), consumed: 2 }
    }
}

/// The two bytes of `v`, the high one first.
pub open spec fn spec_encode_unsigned_short(v: u16) -> Seq<u8> {
    seq![(v / 256) as u8, (v % 256) as u8]
}

/// A long: eight bytes, big-endian, two's complement. With fewer than eight
/// bytes left it is a framing error and nothing is taken.
pub open spec fn spec_decode_long(bytes: Seq<u8>) -> Decoded<i64> {
    if bytes.len() < 8 {
        Decoded { outcome: Err(ProtocolError::FramingError), consumed: 0 }
    } else {
        Decoded { outcome: Ok(spec_i64_from_bits(spec_be_value(bytes.take(8)))), consumed: 8 }
    }
}

/// The eight bytes of the bit pattern of `v`, most significant first.
pub open spec fn spec_encode_long(v: i64) -> Seq<u8> {
    spec_be_bytes(spec_i64_bits(v), 8)
}

/// An unsigned byte, as it stands.
pub open spec fn spec_decode_unsigned_byte(bytes: Seq<u8>) -> Decoded<u8> {
    if bytes.len() < 1 {
        Decoded { outcome: Err(ProtocolError::FramingError), consumed: 0 }
    } else {
        Decoded { outcome: Ok(bytes[0]), consumed: 1 }
    }
}

/// The byte itself.
pub open spec fn spec_encode_unsigned_byte(v: u8) -> Seq<u8> {
    seq![v]
}

/// A signed byte, two's complement.
pub open spec fn spec_decode_byte(bytes: Seq<u8>) -> Decoded<i8> {
    if bytes.len() < 1 {
        Decoded { outcome: Err(ProtocolError::FramingError), consumed: 0 }
    } else {
        Decoded {
            outcome: Ok(
                if bytes[0] < 128 {
                    bytes[0] as i8
                } else {
                    (bytes[0] - 256) as i8
                },
            ),
            consumed: 1,
        }
    }
}

/// The bit pattern of `v` as one byte.
pub open spec fn spec_encode_byte(v: i8) -> Seq<u8> {
    seq![if v >= 0 {
        v as u8
    } else {
        (v + 256) as u8
    }]
}

/// A boolean: one byte, zero for false and anything else for true.
pub open spec fn spec_decode_boolean(bytes: Seq<u8>) -> Decoded<bool> {
    if bytes.len() < 1 {
        Decoded { outcome: Err(ProtocolError::FramingError), consumed: 0 }
    } else {
        Decoded { outcome: Ok(bytes[0] != 0), consumed: 1 }
    }
}

/// True is written as one, false as zero.
pub open spec fn spec_encode_boolean(v: bool) -> Seq<u8> {
    seq![if v {
        1u8
    } else {
        0u8
    }]
}

/// Reads one unsigned short from the stream.
pub fn decode_unsigned_short(stream: &mut ByteStream) -> (r: Result<u16, ProtocolError>)
    ensures
        final(stream).follows(
            *old(stream),
            spec_decode_unsigned_short(old(stream).remaining()).consumed,
        ),
        r == spec_decode_unsigned_short(old(stream).remaining()).outcome,
{
    if stream.available() < 2 {
        proof {
            stream.lemma_follows(*old(stream), 0);
        }
        return Err(ProtocolError::FramingError);
    }
    let at: usize = stream.pos;
    let high: u16 = stream.data[at] as u16;
    let low: u16 = stream.data[at + 1] as u16;
    stream.pos = at + 2;
    proof {
        stream.lemma_follows(*old(stream), 2);
    }
    Ok(high * 256 + low)
}

/// Writes `v` as two bytes, big-endian.
pub fn encode_unsigned_short(v: u16) -> (out: Vec<u8>)
    ensures
        out@ == spec_encode_unsigned_short(v),
{
    let mut out: Vec<u8> = Vec::new();
    out.push((v / 256) as u8);
    out.push((v % 256) as u8);
    out
}

/// Reads one long from the stream.
pub fn decode_long(stream: &mut ByteStream) -> (r: Result<i64, ProtocolError>)
    ensures
        final(stream).follows(
            *old(stream),
            spec_decode_long(old(stream).remaining()).consumed,
        ),
        r == spec_decode_long(old(stream).remaining()).outcome,
{
    if stream.available() < 8 {
        proof {
            stream.lemma_follows(*old(stream), 0);
        }
        return Err(ProtocolError::FramingError);
    }
    let ghost field = stream.remaining().take(8);
    let at: usize = stream.pos;
    let mut bits: u64 = 0;
    let mut i: usize = 0;
    proof {
        lemma_pow256_values();
    }
    while i < 8
        invariant
            i <= 8,
            at + 8 <= stream.data.len(),
            field == stream.data@.subrange(at as int, at + 8),
            bits == spec_be_value(field.take(i as int)),
            bits < pow256(i as nat),
        decreases 8 - i,
    {
        proof {
            lemma_pow256_monotonic((i + 1) as nat, 8);
            lemma_pow256_values();
            assert(field.take(i + 1).drop_last() =~= field.take(i as int));
        }
        bits = bits * 256 + stream.data[at + i] as u64;
        i = i + 1;
    }
    proof {
        assert(field.take(8) =~= field);
    }
    stream.pos = at + 8;
    proof {
        stream.lemma_follows(*old(stream), 8);
    }
    if bits < 0x8000_0000_0000_0000 {
        Ok(bits as i64)
    } else {
        Ok((bits as i128 - 0x1_0000_0000_0000_0000) as i64)
    }
}

/// Writes `v` as eight bytes, big-endian.
pub fn encode_long(v: i64) -> (out: Vec<u8>)
    ensures
        out@ == spec_encode_long(v),
        out@.len() == 8,
{
    let bits: u64 = if v >= 0 {
        v as u64
    } else {
        (v as i128 + 0x1_0000_0000_0000_0000) as u64
    };
    let mut out: Vec<u8> = Vec::new();
    let mut i: usize = 0;
    while i < 8
        invariant
            i <= 8,
            out@.len() == i,
        decreases 8 - i,
    {
        out.push(0);
        i = i + 1;
    }
    let mut rest: u64 = bits;
    let mut done: usize = 0;
    proof {
        assert(out@.subrange(8, 8) =~= Seq::<u8>::empty());
        assert(spec_be_bytes(bits as nat, 8) + Seq::<u8>::empty() =~= spec_be_bytes(
            bits as nat,
            8,
        ));
    }
    while done < 8
        invariant
            done <= 8,
            out@.len() == 8,
            spec_be_bytes(bits as nat, 8) == spec_be_bytes(rest as nat, (8 - done) as nat)
                + out@.subrange(8 - done, 8),
        decreases 8 - done,
    {
        let ghost before = out@;
        let digit: u8 = (rest % 256) as u8;
        out.set(7 - done, digit);
        proof {
            let shorter = spec_be_bytes((rest / 256) as nat, (7 - done) as nat);
            assert(out@.subrange(7 - done, 8) =~= seq![digit] + before.subrange(8 - done, 8));
            assert(shorter.push(digit) + before.subrange(8 - done, 8) =~= shorter + (seq![digit]
                + before.subrange(8 - done, 8)));
        }
        rest = rest / 256;
        done = done + 1;
    }
    proof {
        assert(out@.subrange(0, 8) =~= out@);
        assert(Seq::<u8>::empty() + out@ =~= out@);
    }
    out
}

/// Reads one unsigned byte from the stream.
pub fn decode_unsigned_byte(stream: &mut ByteStream) -> (r: Result<u8, ProtocolError>)
    ensures
        final(stream).follows(
            *old(stream),
            spec_decode_unsigned_byte(old(stream).remaining()).consumed,
        ),
        r == spec_decode_unsigned_byte(old(stream).remaining()).outcome,
{
    stream.read_byte()
}

/// Writes `v` as one byte.
pub fn encode_unsigned_byte(v: u8) -> (out: Vec<u8>)
    ensures
        out@ == spec_encode_unsigned_byte(v),
{
    let mut out: Vec<u8> = Vec::new();
    out.push(v);
    out
}

/// Reads one signed byte from the stream.
pub fn decode_byte(stream: &mut ByteStream) -> (r: Result<i8, ProtocolError>)
    ensures
        final(stream).follows(
            *old(stream),
            spec_decode_byte(old(stream).remaining()).consumed,
        ),
        r == spec_decode_byte(old(stream).remaining()).outcome,
{
    match stream.read_byte() {
        Ok(b) => if b < 128 {
            Ok(b as i8)
        } else {
            Ok((b as i16 - 256) as i8)
        },
        Err(e) => Err(e),
    }
}

/// Writes `v` as one byte.
pub fn encode_byte(v: i8) -> (out: Vec<u8>)
    ensures
        out@ == spec_encode_byte(v),
{
    let mut out: Vec<u8> = Vec::new();
    if v >= 0 {
        out.push(v as u8);
    } else {
        out.push((v as i16 + 256) as u8);
    }
    out
}

/// Reads one boolean from the stream.
pub fn decode_boolean(stream: &mut ByteStream) -> (r: Result<bool, ProtocolError>)
    ensures
        final(stream).follows(
            *old(stream),
            spec_decode_boolean(old(stream).remaining()).consumed,
        ),
        r == spec_decode_boolean(old(stream).remaining()).outcome,
{
    match stream.read_byte() {
        Ok(b) => Ok(b != 0),
        Err(e) => Err(e),
    }
}

/// Writes `v` as one byte.
pub fn encode_boolean(v: bool) -> (out: Vec<u8>)
    ensures
        out@ == spec_encode_boolean(v),
{
    let mut out: Vec<u8> = Vec::new();
    if v {
        out.push(1);
    } else {
        out.push(0);
    }
    out
}

/// Reading back what `encode_unsigned_short` wrote gives the same number.
pub proof fn lemma_unsigned_short_roundtrip(v: u16, suffix: Seq<u8>)
    ensures
        spec_decode_unsigned_short(spec_encode_unsigned_short(v) + suffix) == (Decoded {
            outcome: Ok::<u16, ProtocolError>(v),
            consumed: 2,
        }),
{
}

proof fn lemma_pow256_values()
    ensures
        pow256(0) == 1,
        pow256(8) == 0x1_0000_0000_0000_0000,
{
    reveal_with_fuel(pow256, 9);
}

proof fn lemma_pow256_monotonic(i: nat, j: nat)
    requires
        i <= j,
    ensures
        0 < pow256(i) <= pow256(j),
    decreases j,
{
    if j > 0 {
        if i < j {
            lemma_pow256_monotonic(i, (j - 1) as nat);
        } else {
            lemma_pow256_monotonic((i - 1) as nat, (j - 1) as nat);
        }
    }
}

/// A number below 256 to the power `width` is the number that its `width`
/// bytes spell.
pub proof fn lemma_be_roundtrip(value: nat, width: nat)
    requires
        value < pow256(width),
    ensures
        spec_be_bytes(value, width).len() == width,
        spec_be_value(spec_be_bytes(value, width)) == value,
    decreases width,
{
    if width > 0 {
        let shorter = spec_be_bytes(value / 256, (width - 1) as nat);
        lemma_be_roundtrip(value / 256, (width - 1) as nat);
        assert(spec_be_bytes(value, width).drop_last() =~= shorter);
    }
}

/// Reading back what `encode_long` wrote gives the same number.
pub proof fn lemma_long_roundtrip(v: i64, suffix: Seq<u8>)
    ensures
        spec_encode_long(v).len() == 8,
        spec_decode_long(spec_encode_long(v) + suffix) == (Decoded {
            outcome: Ok::<i64, ProtocolError>(v),
            consumed: 8,
        }),
{
    let bits = spec_i64_bits(v);
    let wire = spec_encode_long(v) + suffix;
    lemma_pow256_values();
    lemma_be_roundtrip(bits, 8);
    assert(wire.take(8) =~= spec_be_bytes(bits, 8));
}

/// Reading back what `encode_byte`, `encode_unsigned_byte` or
/// `encode_boolean` wrote gives the same value.
pub proof fn lemma_single_byte_roundtrip(signed: i8, unsigned: u8, flag: bool, suffix: Seq<u8>)
    ensures
        spec_decode_byte(spec_encode_byte(signed) + suffix) == (Decoded {
            outcome: Ok::<i8, ProtocolError>(signed),
            consumed: 1,
        }),
        spec_decode_unsigned_byte(spec_encode_unsigned_byte(unsigned) + suffix) == (Decoded {
            outcome: Ok::<u8, ProtocolError>(unsigned),
            consumed: 1,
        }),
        spec_decode_boolean(spec_encode_boolean(flag) + suffix) == (Decoded {
            outcome: Ok::<bool, ProtocolError>(flag),
            consumed: 1,
        }),
{
}

} // verus!
