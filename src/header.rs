//! Chunk headers: the basic header, one of four message headers, and the
//! optional extended timestamp.
use vstd::prelude::*;

use crate::basic::{basic_bytes, basic_of, parse_basic, BasicHeader, ChunkStreamId};
use crate::bytes::{
    be24, be32, get_be24, get_be32, get_le32, le32, lemma_be24_round_trip, lemma_be32_round_trip,
    lemma_le32_round_trip, push_be24, push_be32, push_le32, read_be24, read_be32, read_le32,
};
use crate::error::{ChunkHeaderError, ChunkStreamIdTryFromError};

verus! {

/// The value of a 3-byte timestamp field that announces an extended timestamp.
pub const EXTENDED_TIMESTAMP_MARKER: u32 = 0xFFFFFF;

/// The largest message length that the 3-byte length field can carry.
pub const MAX_MESSAGE_LENGTH: u32 = 0xFFFFFF;

/// The message header; its variant is the chunk type of the basic header.
#[derive(Debug, Clone, Copy, PartialEq, Eq, Structural)]
pub enum MessageHeader {
    /// Type 0, 11 bytes: starts a chunk stream, or rewinds its timestamp.
    BeginOrRewindStream {
        timestamp: u32,
        message_length: u32,
        message_type_id: u8,
        message_stream_id: u32,
    },
    /// Type 1, 7 bytes: a new message on the same message stream.
    BeginVariableLengthMessage { timestamp_delta: u32, message_length: u32, message_type_id: u8 },
    /// Type 2, 3 bytes: a new message with the previous length and type.
    BeginConstantLengthMessage { timestamp_delta: u32 },
    /// Type 3, no bytes: everything as in the previous chunk of the stream.
    ContinueMessage,
}

impl MessageHeader {
    pub open spec fn chunk_type(self) -> u8 {
        match self {
            MessageHeader::BeginOrRewindStream { .. } => 0,
            MessageHeader::BeginVariableLengthMessage { .. } => 1,
            MessageHeader::BeginConstantLengthMessage { .. } => 2,
            MessageHeader::ContinueMessage => 3,
        }
    }

    /// The 3-byte timestamp or delta field, where the type has one.
    pub open spec fn time_field(self) -> Option<u32> {
        match self {
            MessageHeader::BeginOrRewindStream { timestamp, .. } => Some(timestamp),
            MessageHeader::BeginVariableLengthMessage { timestamp_delta, .. } => Some(
                timestamp_delta,
            ),
            MessageHeader::BeginConstantLengthMessage { timestamp_delta } => Some(timestamp_delta),
            MessageHeader::ContinueMessage => None,
        }
    }

    /// Every field fits its width on the wire.
    pub open spec fn wf(self) -> bool {
        match self {
            MessageHeader::BeginOrRewindStream { timestamp, message_length, .. } => timestamp
                <= 0xFFFFFF && message_length <= 0xFFFFFF,
            MessageHeader::BeginVariableLengthMessage { timestamp_delta, message_length, .. } => {
                timestamp_delta <= 0xFFFFFF && message_length <= 0xFFFFFF
            },
            MessageHeader::BeginConstantLengthMessage { timestamp_delta } => timestamp_delta
                <= 0xFFFFFF,
            MessageHeader::ContinueMessage => true,
        }
    }

    pub open spec fn spec_size(self) -> nat {
        match self {
            MessageHeader::BeginOrRewindStream { .. } => 11,
            MessageHeader::BeginVariableLengthMessage { .. } => 7,
            MessageHeader::BeginConstantLengthMessage { .. } => 3,
            MessageHeader::ContinueMessage => 0,
        }
    }

    /// An extended timestamp follows: for types 0 to 2 when the time field
    /// holds the marker, for type 3 when the previous header of the chunk
    /// stream had one.
    pub open spec fn spec_has_extended_timestamp(self, extended_in_effect: bool) -> bool {
        match self.time_field() {
            Some(t) => t == 0xFFFFFF,
            None => extended_in_effect,
        }
    }

    /// The number of bytes of this message header.
    pub fn size(&self) -> (r: usize)
        ensures
            r == self.spec_size(),
    {
        match self {
            MessageHeader::BeginOrRewindStream { .. } => 11,
            MessageHeader::BeginVariableLengthMessage { .. } => 7,
            MessageHeader::BeginConstantLengthMessage { .. } => 3,
            MessageHeader::ContinueMessage => 0,
        }
    }

    /// This is a type-3 header.
    pub fn is_continue(&self) -> (r: bool)
        ensures
            r == self is ContinueMessage,
    {
        match self {
            MessageHeader::ContinueMessage => true,
            _ => false,
        }
    }

    /// Whether an extended timestamp follows this message header, given
    /// whether the previous header of the chunk stream carried one.
    pub fn has_extended_timestamp(&self, extended_in_effect: bool) -> (r: bool)
        ensures
            r == self.spec_has_extended_timestamp(extended_in_effect),
    {
        match *self {
            MessageHeader::BeginOrRewindStream { timestamp, .. } => timestamp == 0xFFFFFF,
            MessageHeader::BeginVariableLengthMessage { timestamp_delta, .. } => timestamp_delta
                == 0xFFFFFF,
            MessageHeader::BeginConstantLengthMessage { timestamp_delta } => timestamp_delta
                == 0xFFFFFF,
            MessageHeader::ContinueMessage => extended_in_effect,
        }
    }

    /// Appends the message header's bytes.
    pub fn write(&self, out: &mut Vec<u8>)
        requires
            self.wf(),
        ensures
            final(out)@ == old(out)@ + message_bytes(*self),
    {
        match *self {
            MessageHeader::BeginOrRewindStream {
                timestamp,
                message_length,
                message_type_id,
                message_stream_id,
            } => {
                push_be24(out, timestamp);
                push_be24(out, message_length);
                out.push(message_type_id);
                push_le32(out, message_stream_id);
            },
            MessageHeader::BeginVariableLengthMessage {
                timestamp_delta,
                message_length,
                message_type_id,
            } => {
                push_be24(out, timestamp_delta);
                push_be24(out, message_length);
                out.push(message_type_id);
            },
            MessageHeader::BeginConstantLengthMessage { timestamp_delta } => {
                push_be24(out, timestamp_delta);
            },
            MessageHeader::ContinueMessage => {},
        }
        assert(final(out)@ =~= old(out)@ + message_bytes(*self));
    }

    /// Reads a message header of the given chunk type from `input` at `at`.
    pub fn read(input: &[u8], at: usize, chunk_type: u8) -> (r: Option<(MessageHeader, usize)>)
        requires
            at <= input@.len(),
            chunk_type <= 3,
        ensures
            r matches Some((m, n)) ==> parse_message(input@, at as int, chunk_type) == Some(
                (m, n as nat),
            ),
            r is None ==> parse_message(input@, at as int, chunk_type) is None,
            r matches Some((m, n)) ==> at + n <= input@.len() && n == m.spec_size()
                && m.chunk_type() == chunk_type,
    {
        reveal(parse_message);
        let avail = input.len() - at;
        if chunk_type == 0 {
            if avail < 11 {
                return None;
            }
            Some(
                (
                    MessageHeader::BeginOrRewindStream {
                        timestamp: read_be24(input, at),
                        message_length: read_be24(input, at + 3),
                        message_type_id: input[at + 6],
                        message_stream_id: read_le32(input, at + 7),
                    },
                    11,
                ),
            )
        } else if chunk_type == 1 {
            if avail < 7 {
                return None;
            }
            Some(
                (
                    MessageHeader::BeginVariableLengthMessage {
                        timestamp_delta: read_be24(input, at),
                        message_length: read_be24(input, at + 3),
                        message_type_id: input[at + 6],
                    },
                    7,
                ),
            )
        } else if chunk_type == 2 {
            if avail < 3 {
                return None;
            }
            Some((MessageHeader::BeginConstantLengthMessage { timestamp_delta: read_be24(input, at) }, 3))
        } else {
            Some((MessageHeader::ContinueMessage, 0))
        }
    }
}

/// The bytes of a message header.
pub open spec fn message_bytes(m: MessageHeader) -> Seq<u8> {
    match m {
        MessageHeader::BeginOrRewindStream {
            timestamp,
            message_length,
            message_type_id,
            message_stream_id,
        } => be24(timestamp as int) + be24(message_length as int) + seq![message_type_id] + le32(
            message_stream_id as int,
        ),
        MessageHeader::BeginVariableLengthMessage {
            timestamp_delta,
            message_length,
            message_type_id,
        } => be24(timestamp_delta as int) + be24(message_length as int) + seq![message_type_id],
        MessageHeader::BeginConstantLengthMessage { timestamp_delta } => be24(
            timestamp_delta as int,
        ),
        MessageHeader::ContinueMessage => seq![],
    }
}

/// The message header of type `chunk_type` in `s` at `at`, with its length;
/// `None` where `s` ends before it does.
#[verifier::opaque]
pub open spec fn parse_message(s: Seq<u8>, at: int, chunk_type: u8) -> Option<(MessageHeader, nat)> {
    if chunk_type == 0 {
        if s.len() < at + 11 {
            None
        } else {
            Some(
                (
                    MessageHeader::BeginOrRewindStream {
                        timestamp: get_be24(s, at) as u32,
                        message_length: get_be24(s, at + 3) as u32,
                        message_type_id: s[at + 6],
                        message_stream_id: get_le32(s, at + 7) as u32,
                    },
                    11,
                ),
            )
        }
    } else if chunk_type == 1 {
        if s.len() < at + 7 {
            None
        } else {
            Some(
                (
                    MessageHeader::BeginVariableLengthMessage {
                        timestamp_delta: get_be24(s, at) as u32,
                        message_length: get_be24(s, at + 3) as u32,
                        message_type_id: s[at + 6],
                    },
                    7,
                ),
            )
        }
    } else if chunk_type == 2 {
        if s.len() < at + 3 {
            None
        } else {
            Some(
                (MessageHeader::BeginConstantLengthMessage { timestamp_delta: get_be24(s, at) as u32 }, 3),
            )
        }
    } else {
        Some((MessageHeader::ContinueMessage, 0))
    }
}


/// The bytes of an optional extended timestamp.
pub open spec fn extended_bytes(e: Option<u32>) -> Seq<u8> {
    match e {
        Some(v) => be32(v as int),
        None => seq![],
    }
}

/// A complete chunk header.
#[derive(Debug, Clone, Copy, PartialEq, Eq, Structural)]
pub struct Header {
    pub basic_header: BasicHeader,
    pub message_header: MessageHeader,
    /// The full 32-bit timestamp or delta, where the 3-byte field could not
    /// hold it; repeated on type-3 chunks of a stream that uses one.
    pub extended_timestamp: Option<u32>,
}

/// Another name for a chunk header.
pub type ChunkHeader = Header;

/// The 3-byte field and the extended timestamp that carry `t`.
pub open spec fn split_time(t: u32) -> (u32, Option<u32>) {
    if t >= 0xFFFFFF {
        (0xFFFFFF, Some(t))
    } else {
        (t, None)
    }
}

/// The bytes of a chunk header.
pub open spec fn header_bytes(h: Header) -> Seq<u8> {
    basic_bytes(h.basic_header) + message_bytes(h.message_header) + extended_bytes(
        h.extended_timestamp,
    )
}

/// The chunk header at the front of `s`, with its length, where the chunk
/// stream's previous header did (or did not) carry an extended timestamp;
/// `None` where `s` ends before the header does.
pub open spec fn parse_header(s: Seq<u8>, extended_in_effect: bool) -> Option<(Header, nat)> {
    match parse_basic(s) {
        None => None,
        Some((b, n)) => match parse_message(s, n as int, b.chunk_type) {
            None => None,
            Some((m, k)) => if m.spec_has_extended_timestamp(extended_in_effect) {
                if s.len() < n + k + 4 {
                    None
                } else {
                    Some(
                        (
                            Header {
                                basic_header: b,
                                message_header: m,
                                extended_timestamp: Some(get_be32(s, (n + k) as int) as u32),
                            },
                            n + k + 4,
                        ),
                    )
                }
            } else {
                Some((Header { basic_header: b, message_header: m, extended_timestamp: None }, n + k))
            },
        },
    }
}

/// A chunk's timestamp: absolute for type 0, a delta on the previous message
/// of the chunk stream otherwise.
#[derive(Debug, Clone, Copy, PartialEq, Eq, Structural)]
pub enum Timestamp {
    Delta(u32),
    Absolute(u32),
}

impl Timestamp {
    pub open spec fn into_inner_spec(self) -> u32 {
        match self {
            Timestamp::Delta(v) => v,
            Timestamp::Absolute(v) => v,
        }
    }

    pub fn into_inner(self) -> (r: u32)
        ensures
            r == match self {
                Timestamp::Delta(v) => v,
                Timestamp::Absolute(v) => v,
            },
    {
        match self {
            Timestamp::Delta(v) => v,
            Timestamp::Absolute(v) => v,
        }
    }
}

/// Adds a delta to a timestamp, modulo 2^32.
pub fn advance_timestamp(last: u32, delta: u32) -> (r: u32)
    ensures
        r as int == (last as int + delta as int) % 0x1_0000_0000,
{
    last.wrapping_add(delta)
}

impl Header {
    pub open spec fn wf(self) -> bool {
        &&& self.basic_header.wf()
        &&& self.message_header.wf()
        &&& self.basic_header.chunk_type == self.message_header.chunk_type()
        &&& (self.message_header.time_field() matches Some(t) ==> (self.extended_timestamp is Some
            <==> t == 0xFFFFFF))
    }

    pub open spec fn spec_size(self) -> nat {
        self.basic_header.chunk_stream_id.spec_size() + self.message_header.spec_size() + if self.extended_timestamp is Some {
            4nat
        } else {
            0nat
        }
    }

    /// The timestamp or delta that this header carries, where the
    /// extended field replaces the marker; for type 3, the delta `last_delta`
    /// of the chunk stream's previous message.
    pub open spec fn spec_timestamp(self, last_delta: u32) -> Timestamp {
        let full = |t: u32|
            if t == 0xFFFFFF && self.extended_timestamp is Some {
                self.extended_timestamp->Some_0
            } else {
                t
            };
        match self.message_header {
            MessageHeader::BeginOrRewindStream { timestamp, .. } => Timestamp::Absolute(
                full(timestamp),
            ),
            MessageHeader::BeginVariableLengthMessage { timestamp_delta, .. } => Timestamp::Delta(
                full(timestamp_delta),
            ),
            MessageHeader::BeginConstantLengthMessage { timestamp_delta } => Timestamp::Delta(
                full(timestamp_delta),
            ),
            MessageHeader::ContinueMessage => Timestamp::Delta(last_delta),
        }
    }

    /// The number of bytes of this header on the wire.
    pub fn size(&self) -> (r: usize)
        ensures
            r == self.spec_size(),
    {
        self.basic_header.size() + self.message_header.size() + if self.extended_timestamp.is_some() {
            4
        } else {
            0
        }
    }

    /// The id of the chunk stream that this chunk belongs to.
    pub fn chunk_stream_id(&self) -> (r: u32)
        ensures
            r == self.basic_header.chunk_stream_id.value(),
    {
        self.basic_header.chunk_stream_id()
    }

    /// The chunk's timestamp, given the delta of the chunk stream's previous
    /// message (which type 3 repeats).
    pub fn timestamp(&self, last_delta: u32) -> (r: Timestamp)
        ensures
            r == self.spec_timestamp(last_delta),
    {
        let ext = self.extended_timestamp;
        match self.message_header {
            MessageHeader::BeginOrRewindStream { timestamp, .. } => Timestamp::Absolute(
                if timestamp == 0xFFFFFF && ext.is_some() {
                    ext.unwrap()
                } else {
                    timestamp
                },
            ),
            MessageHeader::BeginVariableLengthMessage { timestamp_delta, .. } => Timestamp::Delta(
                if timestamp_delta == 0xFFFFFF && ext.is_some() {
                    ext.unwrap()
                } else {
                    timestamp_delta
                },
            ),
            MessageHeader::BeginConstantLengthMessage { timestamp_delta } => Timestamp::Delta(
                if timestamp_delta == 0xFFFFFF && ext.is_some() {
                    ext.unwrap()
                } else {
                    timestamp_delta
                },
            ),
            MessageHeader::ContinueMessage => Timestamp::Delta(last_delta),
        }
    }

    /// The length of the message that this chunk begins; `None` for types 2
    /// and 3, which keep the previous one.
    pub fn message_length(&self) -> (r: Option<u32>)
        ensures
            r == match self.message_header {
                MessageHeader::BeginOrRewindStream { message_length, .. } => Some(message_length),
                MessageHeader::BeginVariableLengthMessage { message_length, .. } => Some(
                    message_length,
                ),
                _ => None,
            },
    {
        match self.message_header {
            MessageHeader::BeginOrRewindStream { message_length, .. } => Some(message_length),
            MessageHeader::BeginVariableLengthMessage { message_length, .. } => Some(message_length),
            _ => None,
        }
    }

    /// The type id of the message that this chunk begins; `None` for types 2
    /// and 3.
    pub fn message_type_id(&self) -> (r: Option<u8>)
        ensures
            r == match self.message_header {
                MessageHeader::BeginOrRewindStream { message_type_id, .. } => Some(message_type_id),
                MessageHeader::BeginVariableLengthMessage { message_type_id, .. } => Some(
                    message_type_id,
                ),
                _ => None,
            },
    {
        match self.message_header {
            MessageHeader::BeginOrRewindStream { message_type_id, .. } => Some(message_type_id),
            MessageHeader::BeginVariableLengthMessage { message_type_id, .. } => Some(
                message_type_id,
            ),
            _ => None,
        }
    }

    /// The message stream id, which only type 0 carries.
    pub fn message_stream_id(&self) -> (r: Option<u32>)
        ensures
            r == match self.message_header {
                MessageHeader::BeginOrRewindStream { message_stream_id, .. } => Some(
                    message_stream_id,
                ),
                _ => None,
            },
    {
        match self.message_header {
            MessageHeader::BeginOrRewindStream { message_stream_id, .. } => Some(message_stream_id),
            _ => None,
        }
    }

    /// A type-0 header: the first chunk of a chunk stream, or one whose
    /// timestamp goes backward.
    pub fn begin_or_rewind_stream(
        chunk_stream_id: u32,
        timestamp: u32,
        message_length: u32,
        message_type_id: u8,
        message_stream_id: u32,
    ) -> (r: Result<Header, ChunkHeaderError>)
        ensures
            r == header_type0(
                chunk_stream_id,
                timestamp,
                message_length,
                message_type_id,
                message_stream_id,
            ),
    {
        if message_length > MAX_MESSAGE_LENGTH {
            return Err(ChunkHeaderError::MessageTooLong);
        }
        let basic_header = match BasicHeader::begin_or_rewind_stream(chunk_stream_id) {
            Ok(b) => b,
            Err(e) => {
                return Err(ChunkHeaderError::ChunkStreamIdError(e));
            },
        };
        let (field, extended_timestamp) = split_timestamp(timestamp);
        Ok(
            Header {
                basic_header,
                message_header: MessageHeader::BeginOrRewindStream {
                    timestamp: field,
                    message_length,
                    message_type_id,
                    message_stream_id,
                },
                extended_timestamp,
            },
        )
    }

    /// A type-1 header: a new message whose length or type differs from the
    /// previous one on the chunk stream.
    pub fn begin_variable_length_message(
        chunk_stream_id: u32,
        timestamp_delta: u32,
        message_length: u32,
        message_type_id: u8,
    ) -> (r: Result<Header, ChunkHeaderError>)
        ensures
            r == header_type1(chunk_stream_id, timestamp_delta, message_length, message_type_id),
    {
        if message_length > MAX_MESSAGE_LENGTH {
            return Err(ChunkHeaderError::MessageTooLong);
        }
        let basic_header = match BasicHeader::begin_variable_length_message(chunk_stream_id) {
            Ok(b) => b,
            Err(e) => {
                return Err(ChunkHeaderError::ChunkStreamIdError(e));
            },
        };
        let (field, extended_timestamp) = split_timestamp(timestamp_delta);
        Ok(
            Header {
                basic_header,
                message_header: MessageHeader::BeginVariableLengthMessage {
                    timestamp_delta: field,
                    message_length,
                    message_type_id,
                },
                extended_timestamp,
            },
        )
    }

    /// A type-2 header: a new message with the previous length and type.
    pub fn begin_constant_length_message(chunk_stream_id: u32, timestamp_delta: u32) -> (r: Result<
        Header,
        ChunkHeaderError,
    >)
        ensures
            r == header_type2(chunk_stream_id, timestamp_delta),
    {
        let basic_header = match BasicHeader::begin_constant_length_message(chunk_stream_id) {
            Ok(b) => b,
            Err(e) => {
                return Err(ChunkHeaderError::ChunkStreamIdError(e));
            },
        };
        let (field, extended_timestamp) = split_timestamp(timestamp_delta);
        Ok(
            Header {
                basic_header,
                message_header: MessageHeader::BeginConstantLengthMessage { timestamp_delta: field },
                extended_timestamp,
            },
        )
    }

    /// A type-3 header of a chunk stream whose previous header carried no
    /// extended timestamp.
    pub fn continue_message(chunk_stream_id: u32) -> (r: Result<Header, ChunkHeaderError>)
        ensures
            r == header_type3(chunk_stream_id, None),
    {
        Self::continue_with(chunk_stream_id, None)
    }

    /// A type-3 header that repeats the extended timestamp `extended`, as a
    /// chunk stream whose previous header carried one requires.
    pub fn continue_extended_message(chunk_stream_id: u32, extended: u32) -> (r: Result<
        Header,
        ChunkHeaderError,
    >)
        ensures
            r == header_type3(chunk_stream_id, Some(extended)),
    {
        Self::continue_with(chunk_stream_id, Some(extended))
    }

    fn continue_with(chunk_stream_id: u32, extended_timestamp: Option<u32>) -> (r: Result<
        Header,
        ChunkHeaderError,
    >)
        ensures
            r == header_type3(chunk_stream_id, extended_timestamp),
    {
        match BasicHeader::continue_message(chunk_stream_id) {
            Ok(basic_header) => Ok(
                Header {
                    basic_header,
                    message_header: MessageHeader::ContinueMessage,
                    extended_timestamp,
                },
            ),
            Err(e) => Err(ChunkHeaderError::ChunkStreamIdError(e)),
        }
    }

    /// Appends the header's bytes.
    pub fn write(&self, out: &mut Vec<u8>)
        requires
            self.wf(),
        ensures
            final(out)@ == old(out)@ + header_bytes(*self),
    {
        self.basic_header.write(out);
        self.message_header.write(out);
        match self.extended_timestamp {
            Some(v) => push_be32(out, v),
            None => {},
        }
        assert(final(out)@ =~= old(out)@ + header_bytes(*self));
    }

    /// The header's bytes.
    pub fn to_bytes(&self) -> (r: Vec<u8>)
        requires
            self.wf(),
        ensures
            r@ == header_bytes(*self),
    {
        let mut out: Vec<u8> = Vec::new();
        self.write(&mut out);
        assert(out@ =~= header_bytes(*self));
        out
    }

    /// Reads the chunk header at the front of `input`, where the chunk
    /// stream's previous header did (or did not) carry an extended timestamp.
    /// `None` where `input` ends before the header does.
    pub fn read(input: &[u8], extended_in_effect: bool) -> (r: Option<(Header, usize)>)
        ensures
            r matches Some((h, n)) ==> parse_header(input@, extended_in_effect) == Some(
                (h, n as nat),
            ),
            r is None ==> parse_header(input@, extended_in_effect) is None,
            r matches Some((h, n)) ==> n == h.spec_size() && n <= input@.len(),
    {
        let (basic_header, n) = match BasicHeader::read(input) {
            Some(p) => p,
            None => {
                return None;
            },
        };
        let (message_header, k) = match MessageHeader::read(input, n, basic_header.chunk_type) {
            Some(p) => p,
            None => {
                return None;
            },
        };
        let at = n + k;
        if message_header.has_extended_timestamp(extended_in_effect) {
            if input.len() < at + 4 {
                None
            } else {
                let h = Header {
                    basic_header,
                    message_header,
                    extended_timestamp: Some(read_be32(input, at)),
                };
                Some((h, at + 4))
            }
        } else {
            Some((Header { basic_header, message_header, extended_timestamp: None }, at))
        }
    }
}

/// The 3-byte field and the extended timestamp that carry `t`.
fn split_timestamp(t: u32) -> (r: (u32, Option<u32>))
    ensures
        r == split_time(t),
{
    if t >= EXTENDED_TIMESTAMP_MARKER {
        (EXTENDED_TIMESTAMP_MARKER, Some(t))
    } else {
        (t, None)
    }
}

pub open spec fn header_type0(
    chunk_stream_id: u32,
    timestamp: u32,
    message_length: u32,
    message_type_id: u8,
    message_stream_id: u32,
) -> Result<Header, ChunkHeaderError> {
    if message_length > 0xFFFFFF {
        Err(ChunkHeaderError::MessageTooLong)
    } else {
        match basic_of(0, chunk_stream_id) {
            Err(e) => Err(ChunkHeaderError::ChunkStreamIdError(e)),
            Ok(b) => Ok(
                Header {
                    basic_header: b,
                    message_header: MessageHeader::BeginOrRewindStream {
                        timestamp: split_time(timestamp).0,
                        message_length,
                        message_type_id,
                        message_stream_id,
                    },
                    extended_timestamp: split_time(timestamp).1,
                },
            ),
        }
    }
}

pub open spec fn header_type1(
    chunk_stream_id: u32,
    timestamp_delta: u32,
    message_length: u32,
    message_type_id: u8,
) -> Result<Header, ChunkHeaderError> {
    if message_length > 0xFFFFFF {
        Err(ChunkHeaderError::MessageTooLong)
    } else {
        match basic_of(1, chunk_stream_id) {
            Err(e) => Err(ChunkHeaderError::ChunkStreamIdError(e)),
            Ok(b) => Ok(
                Header {
                    basic_header: b,
                    message_header: MessageHeader::BeginVariableLengthMessage {
                        timestamp_delta: split_time(timestamp_delta).0,
                        message_length,
                        message_type_id,
                    },
                    extended_timestamp: split_time(timestamp_delta).1,
                },
            ),
        }
    }
}

pub open spec fn header_type2(chunk_stream_id: u32, timestamp_delta: u32) -> Result<
    Header,
    ChunkHeaderError,
> {
    match basic_of(2, chunk_stream_id) {
        Err(e) => Err(ChunkHeaderError::ChunkStreamIdError(e)),
        Ok(b) => Ok(
            Header {
                basic_header: b,
                message_header: MessageHeader::BeginConstantLengthMessage {
                    timestamp_delta: split_time(timestamp_delta).0,
                },
                extended_timestamp: split_time(timestamp_delta).1,
            },
        ),
    }
}

pub open spec fn header_type3(chunk_stream_id: u32, extended_timestamp: Option<u32>) -> Result<
    Header,
    ChunkHeaderError,
> {
    match basic_of(3, chunk_stream_id) {
        Err(e) => Err(ChunkHeaderError::ChunkStreamIdError(e)),
        Ok(b) => Ok(
            Header { basic_header: b, message_header: MessageHeader::ContinueMessage, extended_timestamp },
        ),
    }
}

/// Every header that a constructor returns is well formed.
pub proof fn lemma_constructors_wf(
    chunk_stream_id: u32,
    t: u32,
    message_length: u32,
    message_type_id: u8,
    message_stream_id: u32,
    extended: Option<u32>,
)
    ensures
        header_type0(chunk_stream_id, t, message_length, message_type_id, message_stream_id) matches Ok(h) ==> h.wf(),
        header_type1(chunk_stream_id, t, message_length, message_type_id) matches Ok(h) ==> h.wf(),
        header_type2(chunk_stream_id, t) matches Ok(h) ==> h.wf(),
        header_type3(chunk_stream_id, extended) matches Ok(h) ==> h.wf(),
{
}

/// Reading a well-formed message header's bytes at `n` gives it back.
pub proof fn lemma_message_round_trip(m: MessageHeader, s: Seq<u8>, n: int)
    requires
        m.wf(),
        0 <= n,
        n + message_bytes(m).len() <= s.len(),
        s.subrange(n, n + message_bytes(m).len()) == message_bytes(m),
    ensures
        parse_message(s, n, m.chunk_type()) == Some((m, m.spec_size())),
        message_bytes(m).len() == m.spec_size(),
{
    reveal(parse_message);
    let mb = message_bytes(m);
    match m {
        MessageHeader::BeginOrRewindStream {
            timestamp,
            message_length,
            message_type_id,
            message_stream_id,
        } => {
            assert(mb.subrange(0, 3) =~= be24(timestamp as int));
            assert(mb.subrange(3, 6) =~= be24(message_length as int));
            assert(mb.subrange(7, 11) =~= le32(message_stream_id as int));
            assert(s.subrange(n, n + 3) =~= mb.subrange(0, 3));
            lemma_be24_round_trip(timestamp as int, s, n);
            assert(s.subrange(n + 3, n + 6) =~= mb.subrange(3, 6));
            lemma_be24_round_trip(message_length as int, s, n + 3);
            assert(s[n + 6] == mb[6]);
            assert(s.subrange(n + 7, n + 11) =~= mb.subrange(7, 11));
            lemma_le32_round_trip(message_stream_id as int, s, n + 7);
        },
        MessageHeader::BeginVariableLengthMessage {
            timestamp_delta,
            message_length,
            message_type_id,
        } => {
            assert(mb.subrange(0, 3) =~= be24(timestamp_delta as int));
            assert(mb.subrange(3, 6) =~= be24(message_length as int));
            assert(s.subrange(n, n + 3) =~= mb.subrange(0, 3));
            lemma_be24_round_trip(timestamp_delta as int, s, n);
            assert(s.subrange(n + 3, n + 6) =~= mb.subrange(3, 6));
            lemma_be24_round_trip(message_length as int, s, n + 3);
            assert(s[n + 6] == mb[6]);
        },
        MessageHeader::BeginConstantLengthMessage { timestamp_delta } => {
            assert(s.subrange(n, n + 3) =~= mb);
            lemma_be24_round_trip(timestamp_delta as int, s, n);
        },
        MessageHeader::ContinueMessage => {},
    }
}

/// Reading the bytes of a well-formed header, followed by anything, gives the
/// header back, with its size; for type 3 the chunk stream's state must
/// announce the extended timestamp exactly when the header carries one.
pub proof fn lemma_header_round_trip(h: Header, extended_in_effect: bool, rest: Seq<u8>)
    requires
        h.wf(),
        h.message_header is ContinueMessage ==> (extended_in_effect == h.extended_timestamp is Some),
    ensures
        parse_header(header_bytes(h) + rest, extended_in_effect) == Some((h, h.spec_size())),
{
    let s = header_bytes(h) + rest;
    let bb = basic_bytes(h.basic_header);
    let mb = message_bytes(h.message_header);
    let eb = extended_bytes(h.extended_timestamp);
    let n = bb.len() as int;
    let k = mb.len() as int;
    assert(s =~= bb + (mb + eb + rest));
    crate::basic::lemma_basic_round_trip(h.basic_header, mb + eb + rest);
    assert(parse_basic(s) == Some((h.basic_header, n as nat)));
    assert(s.subrange(n, n + k) =~= mb);
    lemma_message_round_trip(h.message_header, s, n);
    assert(parse_message(s, n, h.basic_header.chunk_type) == Some((h.message_header, k as nat)));
    match h.extended_timestamp {
        Some(v) => {
            assert(s.subrange(n + k, n + k + 4) =~= be32(v as int));
            lemma_be32_round_trip(v as int, s, n + k);
            assert(h.message_header.spec_has_extended_timestamp(extended_in_effect));
        },
        None => {
            assert(!h.message_header.spec_has_extended_timestamp(extended_in_effect));
        },
    }
}

/// The bytes of a well-formed header number exactly its size, which lies
/// between 1 and 18; with a one-byte basic header and no extended timestamp
/// repeated by type 3, the size is one of 1, 4, 8, 12 and 16.
pub proof fn lemma_size_law(h: Header)
    requires
        h.wf(),
    ensures
        header_bytes(h).len() == h.spec_size(),
        1 <= h.spec_size() <= 18,
        (h.basic_header.chunk_stream_id is OneByte && !(h.message_header is ContinueMessage
            && h.extended_timestamp is Some)) ==> (h.spec_size() == 1 || h.spec_size() == 4
            || h.spec_size() == 8 || h.spec_size() == 12 || h.spec_size() == 16),
{
}

/// The extended timestamp replaces the marker: a time field of 0xFFFFFF in a
/// read header is always followed by four bytes, and the header's timestamp
/// is their value.
pub proof fn lemma_extended_timestamp(s: Seq<u8>, extended_in_effect: bool, last_delta: u32)
    requires
        parse_header(s, extended_in_effect) is Some,
        parse_header(s, extended_in_effect)->Some_0.0.message_header.time_field() == Some(0xFFFFFFu32),
    ensures
        ({
            let (h, n) = parse_header(s, extended_in_effect)->Some_0;
            &&& h.extended_timestamp == Some(get_be32(s, n - 4) as u32)
            &&& h.spec_timestamp(last_delta).into_inner_spec() == get_be32(s, n - 4) as u32
        }),
{
}
} // verus!
