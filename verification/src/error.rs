//! The ways in which a client's bytes can be wrong.

use vstd::prelude::*;

verus! {

/// Why a connection's input was rejected. Each of these is fatal to the
/// connection it occurred on and to nothing else.
#[derive(Debug, Clone, Copy, PartialEq, Eq, Structural)]
pub enum ProtocolError {
    /// A malformed variable-length integer, a declared length that is
    /// negative, oversized or at odds with the bytes that follow, or a value
    /// cut short by the end of the input.
    FramingError,
    /// A string field whose bytes are not well-formed UTF-8.
    EncodingError,
    /// A packet that the current connection state does not know.
    ProtocolViolation,
}

/// What a decoder makes of the bytes in front of it: the value it yields or
/// the error it fails with, and how many bytes it takes from the stream in
/// doing so.
pub struct Decoded<T> {
    pub outcome: Result<T, ProtocolError>,
    pub consumed: nat,
}

} // verus!
