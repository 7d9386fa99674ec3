//! The unit that the layers above exchange with the chunk stream.
use vstd::prelude::*;

verus! {

/// A message: its type, the message stream it belongs to, its timestamp and
/// its payload, which the chunk stream does not interpret.
#[derive(Debug, Clone, PartialEq, Eq)]
pub struct Message {
    pub type_id: u8,
    pub stream_id: u32,
    pub timestamp: u32,
    pub payload: Vec<u8>,
}

impl Message {
    pub fn new(type_id: u8, stream_id: u32, timestamp: u32, payload: Vec<u8>) -> (r: Message)
        ensures
            r.type_id == type_id,
            r.stream_id == stream_id,
            r.timestamp == timestamp,
            r.payload@ == payload@,
    {
        Message { type_id, stream_id, timestamp, payload }
    }
}

} // verus!
