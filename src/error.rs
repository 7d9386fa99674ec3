//! Error kinds of the chunk stream layer.
use vstd::prelude::*;

verus! {

/// Why a number cannot be used as a chunk stream id.
#[derive(Debug, Clone, Copy, PartialEq, Eq, Structural)]
pub enum ChunkStreamIdTryFromError {
    /// 0 and 1 are reserved: they mark the 2- and 3-byte forms of the basic header.
    Reserved,
    /// The largest chunk stream id is 65599.
    TooBig,
}

/// Why a chunk header cannot be built from the given fields.
#[derive(Debug, Clone, Copy, PartialEq, Eq, Structural)]
pub enum ChunkHeaderError {
    ChunkStreamIdError(ChunkStreamIdTryFromError),
    /// The message length field is three bytes wide.
    MessageTooLong,
}

/// The failures of a connection. All are terminal except `ReservedCsid`,
/// `CsidTooLarge` and `MessageTooLong`, which `send` returns without touching
/// the connection's state.
#[derive(Debug, Clone, Copy, PartialEq, Eq, Structural)]
pub enum RatmapError {
    /// The transport failed to read or write.
    TransportIo,
    /// The transport ended in the middle of a chunk.
    ConnectionClosed,
    /// The peer asked for an RTMP version other than 3.
    UnsupportedVersion,
    /// The peer's handshake packets did not carry the expected values.
    BadHandshake,
    /// A malformed chunk, compression without prior state, or a bad control message.
    ProtocolError,
    /// An outbound message named chunk stream 0 or 1.
    ReservedCsid,
    /// An outbound message named a chunk stream above 65599.
    CsidTooLarge,
    /// An outbound message longer than 0xFFFFFF bytes.
    MessageTooLong,
}

impl RatmapError {
    /// The error that a chunk header constructor's failure stands for.
    pub fn from_header_error(e: ChunkHeaderError) -> (r: RatmapError)
        ensures
            r == header_error_kind(e),
    {
        match e {
            ChunkHeaderError::ChunkStreamIdError(ChunkStreamIdTryFromError::Reserved) => {
                RatmapError::ReservedCsid
            },
            ChunkHeaderError::ChunkStreamIdError(ChunkStreamIdTryFromError::TooBig) => {
                RatmapError::CsidTooLarge
            },
            ChunkHeaderError::MessageTooLong => RatmapError::MessageTooLong,
        }
    }

    /// A short description of the error.
    pub fn message(&self) -> (r: String) {
        match self {
            RatmapError::TransportIo => String::from_str("transport error"),
            RatmapError::ConnectionClosed => String::from_str("connection closed mid-chunk"),
            RatmapError::UnsupportedVersion => String::from_str("unsupported RTMP version"),
            RatmapError::BadHandshake => String::from_str("bad handshake"),
            RatmapError::ProtocolError => String::from_str("protocol error"),
            RatmapError::ReservedCsid => String::from_str("reserved chunk stream id"),
            RatmapError::CsidTooLarge => String::from_str("chunk stream id exceeds 65599"),
            RatmapError::MessageTooLong => String::from_str("message longer than 0xFFFFFF bytes"),
        }
    }
}

pub open spec fn header_error_kind(e: ChunkHeaderError) -> RatmapError {
    match e {
        ChunkHeaderError::ChunkStreamIdError(ChunkStreamIdTryFromError::Reserved) => {
            RatmapError::ReservedCsid
        },
        ChunkHeaderError::ChunkStreamIdError(ChunkStreamIdTryFromError::TooBig) => {
            RatmapError::CsidTooLarge
        },
        ChunkHeaderError::MessageTooLong => RatmapError::MessageTooLong,
    }
}

} // verus!
