//! Variable-length integers: seven bits per byte, least significant group
//! first, the high bit of a byte saying that another byte follows.

use vstd::prelude::*;
use crate::error::{Decoded, ProtocolError};
use crate::stream::ByteStream;

verus! {

/// The most bytes a VarInt may occupy.
pub const VARINT_MAX_BYTES: usize = 5;

/// The most bytes a VarLong may occupy.
pub const VARLONG_MAX_BYTES: usize = 10;

/// 128 to the power `n`.
pub open spec fn pow128(n: nat) -> nat
    decreases n,
{
    if n == 0 {
        1
    } else {
        128 * pow128((n - 1) as nat)
    }
}

/// Reads a base-128 number from the front of `bytes`, taking at most `limit`
/// bytes: the number, if a byte without the continuation bit was found in
/// time, and the count of bytes taken either way.
pub open spec fn spec_decode_base128(bytes: Seq<u8>, limit: nat) -> (Option<nat>, nat)
    decreases limit,
{
    if limit == 0 || bytes.len() == 0 {
        (None, 0)
    } else if bytes[0] < 128 {
        (Some(bytes[0] as nat), 1)
    } else {
        let rest = spec_decode_base128(bytes.skip(1), (limit - 1) as nat);
        (
            match rest.0 {
                Some(high) => Some(((bytes[0] - 128) + 128 * high) as nat),
                None => None,
            },
            rest.1 + 1,
        )
    }
}

/// The shortest base-128 form of `value`.
pub open spec fn spec_encode_base128(value: nat) -> Seq<u8>
    decreases value,
{
    if value < 128 {
        seq![value as u8]
    } else {
        seq![(value % 128 + 128) as u8] + spec_encode_base128(value / 128)
    }
}

/// The two's-complement bit pattern of `v`, read as an unsigned number.
pub open spec fn spec_i32_bits(v: i32) -> nat {
    if v >= 0 {
        v as nat
    } else {
        (v + 0x1_0000_0000) as nat
    }
}

/// The signed number whose bit pattern is the low 32 bits of `n`.
pub open spec fn spec_i32_from_bits(n: nat) -> i32 {
    let low = n % 0x1_0000_0000;
    if low < 0x8000_0000 {
        low as i32
    } else {
        (low - 0x1_0000_0000) as i32
    }
}

/// The two's-complement bit pattern of `v`, read as an unsigned number.
pub open spec fn spec_i64_bits(v: i64) -> nat {
    if v >= 0 {
        v as nat
    } else {
        (v + 0x1_0000_0000_0000_0000) as nat
    }
}

/// The signed number whose bit pattern is the low 64 bits of `n`.
pub open spec fn spec_i64_from_bits(n: nat) -> i64 {
    let low = n % 0x1_0000_0000_0000_0000;
    if low < 0x8000_0000_0000_0000 {
        low as i64
    } else {
        (low - 0x1_0000_0000_0000_0000) as i64
    }
}

/// The VarInt form of `v`: its bit pattern in base 128, shortest form.
pub open spec fn spec_encode_varint(v: i32) -> Seq<u8> {
    spec_encode_base128(spec_i32_bits(v))
}

/// A VarInt at the front of `bytes`. It fails with a framing error when the
/// bytes end before the value does, or when five bytes in a row announce
/// another one. Bits beyond the thirty-second are dropped.
pub open spec fn spec_decode_varint(bytes: Seq<u8>) -> Decoded<i32> {
    let raw = spec_decode_base128(bytes, 5);
    Decoded {
        outcome: match raw.0 {
            Some(n) => Ok(spec_i32_from_bits(n)),
            None => Err(ProtocolError::FramingError),
        },
        consumed: raw.1,
    }
}

/// The VarLong form of `v`: its bit pattern in base 128, shortest form.
pub open spec fn spec_encode_varlong(v: i64) -> Seq<u8> {
    spec_encode_base128(spec_i64_bits(v))
}

/// A VarLong at the front of `bytes`: as a VarInt, with ten bytes and
/// sixty-four bits.
pub open spec fn spec_decode_varlong(bytes: Seq<u8>) -> Decoded<i64> {
    let raw = spec_decode_base128(bytes, 10);
    Decoded {
        outcome: match raw.0 {
            Some(n) => Ok(spec_i64_from_bits(n)),
            None => Err(ProtocolError::FramingError),
        },
        consumed: raw.1,
    }
}

proof fn lemma_pow128_values()
    ensures
        pow128(0) == 1,
        pow128(1) == 128,
        pow128(5) == 0x8_0000_0000,
        pow128(10) == 0x40_0000_0000_0000_0000,
{
    reveal_with_fuel(pow128, 11);
}

proof fn lemma_pow128_monotonic(i: nat, j: nat)
    requires
        i <= j,
    ensures
        0 < pow128(i) <= pow128(j),
    decreases j,
{
    if j > 0 {
        if i < j {
            lemma_pow128_monotonic(i, (j - 1) as nat);
        } else {
            lemma_pow128_monotonic((i - 1) as nat, (j - 1) as nat);
        }
    }
}

/// What a decoder that has taken `taken` bytes worth `acc`, the next byte
/// counting `scale`-fold, will return once the rest has yielded `rest`.
spec fn resume(acc: nat, scale: nat, taken: nat, rest: (Option<nat>, nat)) -> (Option<nat>, nat) {
    (
        match rest.0 {
            Some(high) => Some(acc + scale * high),
            None => None,
        },
        taken + rest.1,
    )
}

proof fn lemma_resume_step(acc: nat, scale: nat, taken: nat, low: nat, rest: (Option<nat>, nat))
    ensures
        resume(
            acc,
            scale,
            taken,
            (
                match rest.0 {
                    Some(high) => Some(low + 128 * high),
                    None => None,
                },
                rest.1 + 1,
            ),
        ) == resume(acc + scale * low, scale * 128, taken + 1, rest),
{
    match rest.0 {
        Some(high) => {
            assert(acc + scale * (low + 128 * high) == (acc + scale * low) + (scale * 128) * high)
                by (nonlinear_arith);
        },
        None => {},
    }
}

/// No decoder takes more bytes than there are, nor more than its limit.
pub proof fn lemma_base128_consumed(bytes: Seq<u8>, limit: nat)
    ensures
        spec_decode_base128(bytes, limit).1 <= bytes.len(),
        spec_decode_base128(bytes, limit).1 <= limit,
        spec_decode_base128(bytes, limit).0 is Some ==> spec_decode_base128(bytes, limit).1 >= 1,
    decreases limit,
{
    if limit > 0 && bytes.len() > 0 && bytes[0] >= 128 {
        lemma_base128_consumed(bytes.skip(1), (limit - 1) as nat);
    }
}

/// Reads a base-128 number of at most `limit` bytes from the stream.
fn decode_base128(stream: &mut ByteStream, limit: usize) -> (r: Option<u128>)
    requires
        limit <= 10,
    ensures
        final(stream).follows(
            *old(stream),
            spec_decode_base128(old(stream).remaining(), limit as nat).1,
        ),
        match r {
            Some(v) => spec_decode_base128(old(stream).remaining(), limit as nat).0 == Some(
                v as nat,
            ),
            None => spec_decode_base128(old(stream).remaining(), limit as nat).0 is None,
        },
{
    let ghost start = stream.remaining();
    proof {
        lemma_base128_consumed(start, limit as nat);
    }
    let mut acc: u128 = 0;
    let mut scale: u128 = 1;
    let mut taken: usize = 0;
    proof {
        assert(start.skip(0) == start);
        lemma_pow128_values();
    }
    loop
        invariant
            taken <= limit <= 10,
            stream.data == old(stream).data,
            stream.pos == old(stream).pos + taken,
            taken <= start.len(),
            start == old(stream).remaining(),
            stream.remaining() == start.skip(taken as int),
            scale == pow128(taken as nat),
            acc < scale,
            spec_decode_base128(start, limit as nat) == resume(
                acc as nat,
                scale as nat,
                taken as nat,
                spec_decode_base128(start.skip(taken as int), (limit - taken) as nat),
            ),
        decreases limit - taken,
    {
        if taken >= limit {
            proof {
                stream.lemma_follows(*old(stream), taken as nat);
            }
            return None;
        }
        let ghost here = stream.remaining();
        match stream.read_byte() {
            Err(_) => {
                proof {
                    stream.lemma_follows(*old(stream), taken as nat);
                }
                return None;
            },
            Ok(b) => {
                proof {
                    lemma_pow128_monotonic(taken as nat, 9);
                    lemma_pow128_monotonic((taken + 1) as nat, 10);
                    lemma_pow128_values();
                    assert(pow128((taken + 1) as nat) == 128 * pow128(taken as nat));
                }
                if b < 128 {
                    assert(b * scale <= 127 * scale) by (nonlinear_arith)
                        requires
                            b <= 127,
                            scale >= 0,
                    ;
                    assert(scale * b == b * scale) by (nonlinear_arith);
                    proof {
                        stream.lemma_follows(*old(stream), (taken + 1) as nat);
                    }
                    return Some(acc + (b as u128) * scale);
                }
                let low: u128 = (b - 128) as u128;
                assert(low * scale <= 127 * scale) by (nonlinear_arith)
                    requires
                        low <= 127,
                        scale >= 0,
                ;
                proof {
                    let rest = spec_decode_base128(
                        here.skip(1),
                        (limit - taken - 1) as nat,
                    );
                    lemma_resume_step(acc as nat, scale as nat, taken as nat, low as nat, rest);
                    assert(here.skip(1) == start.skip(taken + 1));
                    assert(stream.remaining() == start.skip(taken + 1));
                    assert(scale * low == low * scale) by (nonlinear_arith);
                }
                acc = acc + low * scale;
                scale = scale * 128;
                taken = taken + 1;
            },
        }
    }
}

/// Reads one VarInt from the stream: the bytes up to and including the first
/// one without the continuation bit, five at most.
pub fn decode_varint(stream: &mut ByteStream) -> (r: Result<i32, ProtocolError>)
    ensures
        final(stream).follows(
            *old(stream),
            spec_decode_varint(old(stream).remaining()).consumed,
        ),
        r == spec_decode_varint(old(stream).remaining()).outcome,
{
    match decode_base128(stream, VARINT_MAX_BYTES) {
        Some(n) => {
            let low: u128 = n % 0x1_0000_0000;
            if low < 0x8000_0000 {
                Ok(low as i32)
            } else {
                Ok((low as i64 - 0x1_0000_0000) as i32)
            }
        },
        None => Err(ProtocolError::FramingError),
    }
}

/// Reads one VarLong from the stream: the bytes up to and including the first
/// one without the continuation bit, ten at most.
pub fn decode_varlong(stream: &mut ByteStream) -> (r: Result<i64, ProtocolError>)
    ensures
        final(stream).follows(
            *old(stream),
            spec_decode_varlong(old(stream).remaining()).consumed,
        ),
        r == spec_decode_varlong(old(stream).remaining()).outcome,
{
    match decode_base128(stream, VARLONG_MAX_BYTES) {
        Some(n) => {
            let low: u128 = n % 0x1_0000_0000_0000_0000;
            if low < 0x8000_0000_0000_0000 {
                Ok(low as i64)
            } else {
                Ok((low as i128 - 0x1_0000_0000_0000_0000) as i64)
            }
        },
        None => Err(ProtocolError::FramingError),
    }
}

/// Writes `value` in base 128, shortest form.
fn encode_base128(value: u64) -> (out: Vec<u8>)
    ensures
        out@ == spec_encode_base128(value as nat),
{
    let mut out: Vec<u8> = Vec::new();
    let mut rest: u64 = value;
    while rest >= 128
        invariant
            spec_encode_base128(value as nat) == out@ + spec_encode_base128(rest as nat),
        decreases rest,
    {
        let byte: u8 = (rest % 128 + 128) as u8;
        proof {
            assert(out@.push(byte) + spec_encode_base128((rest / 128) as nat) =~= out@ + (seq![byte]
                + spec_encode_base128((rest / 128) as nat)));
        }
        out.push(byte);
        rest = rest / 128;
    }
    proof {
        assert(out@.push(rest as u8) =~= out@ + seq![rest as u8]);
    }
    out.push(rest as u8);
    out
}

/// The VarInt form of `v`: one to five bytes.
pub fn encode_varint(v: i32) -> (out: Vec<u8>)
    ensures
        out@ == spec_encode_varint(v),
        1 <= out@.len() <= 5,
{
    proof {
        lemma_varint_roundtrip(v, Seq::empty());
    }
    if v >= 0 {
        encode_base128(v as u64)
    } else {
        encode_base128((v as i64 + 0x1_0000_0000) as u64)
    }
}

/// The VarLong form of `v`: one to ten bytes.
pub fn encode_varlong(v: i64) -> (out: Vec<u8>)
    ensures
        out@ == spec_encode_varlong(v),
        1 <= out@.len() <= 10,
{
    proof {
        lemma_varlong_roundtrip(v, Seq::empty());
    }
    if v >= 0 {
        encode_base128(v as u64)
    } else {
        encode_base128((v as i128 + 0x1_0000_0000_0000_0000) as u64)
    }
}

proof fn lemma_encode_base128_len(value: nat, digits: nat)
    requires
        digits >= 1,
        value < pow128(digits),
    ensures
        1 <= spec_encode_base128(value).len() <= digits,
    decreases value,
{
    if value >= 128 {
        lemma_pow128_values();
        assert(digits >= 2);
        assert(pow128(digits) == 128 * pow128((digits - 1) as nat));
        lemma_encode_base128_len(value / 128, (digits - 1) as nat);
    }
}

proof fn lemma_base128_roundtrip(value: nat, suffix: Seq<u8>, limit: nat)
    requires
        spec_encode_base128(value).len() <= limit,
    ensures
        spec_decode_base128(spec_encode_base128(value) + suffix, limit) == (
            Some(value),
            spec_encode_base128(value).len(),
        ),
    decreases value,
{
    let wire = spec_encode_base128(value) + suffix;
    if value >= 128 {
        assert(wire.skip(1) =~= spec_encode_base128(value / 128) + suffix);
        lemma_base128_roundtrip(value / 128, suffix, (limit - 1) as nat);
    }
}

/// Reading back what `encode_varint` wrote gives the same number and takes
/// exactly the bytes written, whatever follows them; and no VarInt is longer
/// than five bytes.
pub proof fn lemma_varint_roundtrip(v: i32, suffix: Seq<u8>)
    ensures
        1 <= spec_encode_varint(v).len() <= 5,
        spec_decode_varint(spec_encode_varint(v) + suffix) == (Decoded {
            outcome: Ok::<i32, ProtocolError>(v),
            consumed: spec_encode_varint(v).len(),
        }),
{
    lemma_pow128_values();
    lemma_encode_base128_len(spec_i32_bits(v), 5);
    lemma_base128_roundtrip(spec_i32_bits(v), suffix, 5);
}

/// Reading back what `encode_varlong` wrote gives the same number and takes
/// exactly the bytes written, whatever follows them; and no VarLong is longer
/// than ten bytes.
pub proof fn lemma_varlong_roundtrip(v: i64, suffix: Seq<u8>)
    ensures
        1 <= spec_encode_varlong(v).len() <= 10,
        spec_decode_varlong(spec_encode_varlong(v) + suffix) == (Decoded {
            outcome: Ok::<i64, ProtocolError>(v),
            consumed: spec_encode_varlong(v).len(),
        }),
{
    lemma_pow128_values();
    lemma_encode_base128_len(spec_i64_bits(v), 10);
    lemma_base128_roundtrip(spec_i64_bits(v), suffix, 10);
}

/// Input that opens with `limit` bytes, each announcing another, holds no
/// number of at most `limit` bytes.
proof fn lemma_base128_overlong(bytes: Seq<u8>, limit: nat)
    requires
        bytes.len() >= limit,
        forall|i: int| 0 <= i < limit ==> bytes[i] >= 128,
    ensures
        spec_decode_base128(bytes, limit) == (None::<nat>, limit),
    decreases limit,
{
    if limit > 0 {
        let tail = bytes.skip(1);
        assert forall|i: int| 0 <= i < limit - 1 implies tail[i] >= 128 by {
            assert(tail[i] == bytes[i + 1]);
        }
        lemma_base128_overlong(tail, (limit - 1) as nat);
    }
}

/// Five bytes in a row with the continuation bit set are a framing error,
/// found after those five bytes and no later.
pub proof fn lemma_varint_overlong(bytes: Seq<u8>)
    requires
        bytes.len() >= 5,
        forall|i: int| 0 <= i < 5 ==> bytes[i] >= 128,
    ensures
        spec_decode_varint(bytes) == (Decoded {
            outcome: Err::<i32, ProtocolError>(ProtocolError::FramingError),
            consumed: 5,
        }),
{
    lemma_base128_overlong(bytes, 5);
}

/// Ten bytes in a row with the continuation bit set are a framing error,
/// found after those ten bytes and no later.
pub proof fn lemma_varlong_overlong(bytes: Seq<u8>)
    requires
        bytes.len() >= 10,
        forall|i: int| 0 <= i < 10 ==> bytes[i] >= 128,
    ensures
        spec_decode_varlong(bytes) == (Decoded {
            outcome: Err::<i64, ProtocolError>(ProtocolError::FramingError),
            consumed: 10,
        }),
{
    lemma_base128_overlong(bytes, 10);
}

} // verus!
