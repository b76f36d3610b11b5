//! An in-memory byte stream with a read position.

use vstd::prelude::*;
use crate::error::ProtocolError;

verus! {

/// Bytes received from a peer, together with how many of them have been
/// consumed already. Decoders advance `pos` and never touch `data`.
#[derive(Debug)]
pub struct ByteStream {
    pub data: Vec<u8>,
    pub pos: usize,
}

impl ByteStream {
    /// The bytes that have not been consumed yet. A position past the end
    /// leaves nothing to read.
    pub open spec fn remaining(&self) -> Seq<u8> {
        if self.pos <= self.data@.len() {
            self.data@.skip(self.pos as int)
        } else {
            Seq::empty()
        }
    }

    /// Whether this stream is `before` with its first `n` unread bytes
    /// consumed and nothing else changed.
    pub open spec fn follows(&self, before: ByteStream, n: nat) -> bool {
        &&& self.data == before.data
        &&& self.pos == before.pos + n
        &&& n <= before.remaining().len()
        &&& self.remaining() == before.remaining().skip(n as int)
    }

    /// Moving the position forward over unread bytes is all it takes to
    /// follow.
    pub proof fn lemma_follows(self, before: ByteStream, n: nat)
        requires
            self.data == before.data,
            self.pos == before.pos + n,
            n <= before.remaining().len(),
        ensures
            self.follows(before, n),
    {
        assert(self.remaining() =~= before.remaining().skip(n as int));
    }

    /// Following in two steps is following by the sum.
    pub proof fn lemma_follows_twice(self, middle: ByteStream, before: ByteStream, n: nat, m: nat)
        requires
            middle.follows(before, n),
            self.follows(middle, m),
        ensures
            self.follows(before, n + m),
            before.remaining().skip(n as int).skip(m as int) == before.remaining().skip(
                (n + m) as int,
            ),
    {
        assert(before.remaining().skip(n as int).skip(m as int) =~= before.remaining().skip(
            (n + m) as int,
        ));
    }

    /// A stream positioned at the first byte of `data`.
    pub fn new(data: Vec<u8>) -> (stream: ByteStream)
        ensures
            stream.data == data,
            stream.pos == 0,
            stream.remaining() == data@,
    {
        ByteStream { data, pos: 0 }
    }

    /// How many bytes are left to read.
    pub fn available(&self) -> (n: usize)
        ensures
            n == self.remaining().len(),
            n == if self.pos <= self.data.len() {
                self.data.len() - self.pos
            } else {
                0
            },
    {
        if self.pos <= self.data.len() {
            self.data.len() - self.pos
        } else {
            0
        }
    }

    /// Consumes one byte; fails, consuming nothing, at the end of the input.
    pub fn read_byte(&mut self) -> (r: Result<u8, ProtocolError>)
        ensures
            old(self).remaining().len() == 0 ==> r == Err::<u8, ProtocolError>(
                ProtocolError::FramingError,
            ) && final(self).follows(*old(self), 0),
            old(self).remaining().len() > 0 ==> r == Ok::<u8, ProtocolError>(
                old(self).remaining()[0],
            ) && final(self).follows(*old(self), 1),
    {
        assert(self.remaining().skip(0) =~= self.remaining());
        if self.pos < self.data.len() {
            assert(self.data@.skip(self.pos + 1) =~= self.remaining().skip(1));
            let b = self.data[self.pos];
            self.pos = self.pos + 1;
            Ok(b)
        } else {
            Err(ProtocolError::FramingError)
        }
    }
}

} // verus!
