//! The chunk stream layer of RTMP: the handshake, chunk header codecs, and a
//! framing engine that splits outbound messages into chunks and reassembles
//! inbound chunks into messages.
use vstd::prelude::*;

pub mod basic;
pub mod bytes;
pub mod clock;
pub mod control;
pub mod error;
pub mod handshake;
pub mod header;
pub mod message;
pub mod stream;
pub mod stream_map;

verus! {

} // verus!
