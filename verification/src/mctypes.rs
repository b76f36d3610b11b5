//! The protocol's scalar wire types: how each is written to bytes and read
//! back from a stream.

pub mod fixed;
pub mod strings;
pub mod varint;
