//! The chunk basic header: the chunk type and the chunk stream id, in one,
//! two or three bytes.
use vstd::prelude::*;

use crate::error::ChunkStreamIdTryFromError;

verus! {

/// Largest chunk stream id that the three-byte form can carry.
pub const MAX_CHUNK_STREAM_ID: u32 = 65599;

/// The chunk stream that carries protocol control messages.
pub const PROTOCOL_CONTROL_CHUNK_STREAM_ID: u32 = 2;

/// A chunk stream id in the form the basic header carries it.
#[derive(Debug, Clone, Copy, PartialEq, Eq, Structural)]
pub enum ChunkStreamId {
    /// Ids 2 to 63, in the low six bits of the first byte.
    OneByte(u8),
    /// Ids 64 to 319, as the id minus 64 in a second byte.
    TwoBytes(u8),
    /// Ids 320 to 65599, as the id minus 64 in two little-endian bytes.
    ThreeBytes(u16),
}

impl ChunkStreamId {
    /// The id that this form stands for.
    pub open spec fn value(self) -> nat {
        match self {
            ChunkStreamId::OneByte(b) => b as nat,
            ChunkStreamId::TwoBytes(b) => b as nat + 64,
            ChunkStreamId::ThreeBytes(w) => w as nat + 64,
        }
    }

    /// The form is the one that the id's range calls for.
    pub open spec fn wf(self) -> bool {
        match self {
            ChunkStreamId::OneByte(b) => 2 <= b <= 63,
            ChunkStreamId::TwoBytes(_) => true,
            ChunkStreamId::ThreeBytes(w) => 256 <= w,
        }
    }

    /// The number of bytes of a basic header with this id.
    pub open spec fn spec_size(self) -> nat {
        match self {
            ChunkStreamId::OneByte(_) => 1,
            ChunkStreamId::TwoBytes(_) => 2,
            ChunkStreamId::ThreeBytes(_) => 3,
        }
    }

    /// The form of `value`: an error for 0 and 1, and above 65599.
    pub fn try_from(value: u32) -> (r: Result<ChunkStreamId, ChunkStreamIdTryFromError>)
        ensures
            value < 2 <==> r == Err::<ChunkStreamId, _>(ChunkStreamIdTryFromError::Reserved),
            value > 65599 <==> r == Err::<ChunkStreamId, _>(ChunkStreamIdTryFromError::TooBig),
            r matches Ok(id) ==> id.wf() && id.value() == value,
    {
        if value < 2 {
            Err(ChunkStreamIdTryFromError::Reserved)
        } else if value <= 63 {
            Ok(ChunkStreamId::OneByte(value as u8))
        } else if value <= 319 {
            Ok(ChunkStreamId::TwoBytes((value - 64) as u8))
        } else if value <= MAX_CHUNK_STREAM_ID {
            Ok(ChunkStreamId::ThreeBytes((value - 64) as u16))
        } else {
            Err(ChunkStreamIdTryFromError::TooBig)
        }
    }

    /// The id as a number.
    pub fn to_u32(self) -> (r: u32)
        ensures
            r == self.value(),
    {
        match self {
            ChunkStreamId::OneByte(b) => b as u32,
            ChunkStreamId::TwoBytes(b) => b as u32 + 64,
            ChunkStreamId::ThreeBytes(w) => w as u32 + 64,
        }
    }
}

impl From<ChunkStreamId> for u32 {
    fn from(id: ChunkStreamId) -> (r: u32) {
        id.to_u32()
    }
}

impl vstd::std_specs::convert::FromSpecImpl<ChunkStreamId> for u32 {
    open spec fn obeys_from_spec() -> bool {
        true
    }

    open spec fn from_spec(id: ChunkStreamId) -> u32 {
        id.value() as u32
    }
}

/// The basic header: a 2-bit chunk type and the chunk stream id.
#[derive(Debug, Clone, Copy, PartialEq, Eq, Structural)]
pub struct BasicHeader {
    /// 0 to 3: selects which message header follows.
    pub chunk_type: u8,
    pub chunk_stream_id: ChunkStreamId,
}

/// The bytes of a basic header.
pub open spec fn basic_bytes(b: BasicHeader) -> Seq<u8> {
    match b.chunk_stream_id {
        ChunkStreamId::OneByte(id) => seq![(b.chunk_type * 64 + id) as u8],
        ChunkStreamId::TwoBytes(id) => seq![(b.chunk_type * 64) as u8, id],
        ChunkStreamId::ThreeBytes(w) => seq![
            (b.chunk_type * 64 + 1) as u8,
            (w % 256) as u8,
            (w / 256) as u8,
        ],
    }
}

/// The basic header at the front of `s`, with its length; `None` where `s`
/// ends before it does.
#[verifier::opaque]
pub open spec fn parse_basic(s: Seq<u8>) -> Option<(BasicHeader, nat)> {
    if s.len() == 0 {
        None
    } else {
        let t = s[0] / 64;
        let low = s[0] % 64;
        if low == 0 {
            if s.len() < 2 {
                None
            } else {
                Some((BasicHeader { chunk_type: t, chunk_stream_id: ChunkStreamId::TwoBytes(s[1]) }, 2))
            }
        } else if low == 1 {
            if s.len() < 3 {
                None
            } else {
                Some((
                    BasicHeader {
                        chunk_type: t,
                        chunk_stream_id: ChunkStreamId::ThreeBytes((s[1] + s[2] * 256) as u16),
                    },
                    3,
                ))
            }
        } else {
            Some((BasicHeader { chunk_type: t, chunk_stream_id: ChunkStreamId::OneByte(low) }, 1))
        }
    }
}

impl BasicHeader {
    pub open spec fn wf(self) -> bool {
        self.chunk_type <= 3 && self.chunk_stream_id.wf()
    }

    fn with_type(chunk_type: u8, chunk_stream_id: u32) -> (r: Result<
        BasicHeader,
        ChunkStreamIdTryFromError,
    >)
        requires
            chunk_type <= 3,
        ensures
            r == basic_of(chunk_type, chunk_stream_id),
    {
        match ChunkStreamId::try_from(chunk_stream_id) {
            Ok(id) => Ok(BasicHeader { chunk_type, chunk_stream_id: id }),
            Err(e) => Err(e),
        }
    }

    /// A type-0 basic header.
    pub fn begin_or_rewind_stream(chunk_stream_id: u32) -> (r: Result<
        BasicHeader,
        ChunkStreamIdTryFromError,
    >)
        ensures
            r == basic_of(0, chunk_stream_id),
    {
        Self::with_type(0, chunk_stream_id)
    }

    /// A type-1 basic header.
    pub fn begin_variable_length_message(chunk_stream_id: u32) -> (r: Result<
        BasicHeader,
        ChunkStreamIdTryFromError,
    >)
        ensures
            r == basic_of(1, chunk_stream_id),
    {
        Self::with_type(1, chunk_stream_id)
    }

    /// A type-2 basic header.
    pub fn begin_constant_length_message(chunk_stream_id: u32) -> (r: Result<
        BasicHeader,
        ChunkStreamIdTryFromError,
    >)
        ensures
            r == basic_of(2, chunk_stream_id),
    {
        Self::with_type(2, chunk_stream_id)
    }

    /// A type-3 basic header.
    pub fn continue_message(chunk_stream_id: u32) -> (r: Result<
        BasicHeader,
        ChunkStreamIdTryFromError,
    >)
        ensures
            r == basic_of(3, chunk_stream_id),
    {
        Self::with_type(3, chunk_stream_id)
    }

    /// The number of bytes that this header takes on the wire.
    pub fn size(&self) -> (r: usize)
        ensures
            r == self.chunk_stream_id.spec_size(),
    {
        match self.chunk_stream_id {
            ChunkStreamId::OneByte(_) => 1,
            ChunkStreamId::TwoBytes(_) => 2,
            ChunkStreamId::ThreeBytes(_) => 3,
        }
    }

    /// The chunk stream id as a number.
    pub fn chunk_stream_id(&self) -> (r: u32)
        ensures
            r == self.chunk_stream_id.value(),
    {
        self.chunk_stream_id.to_u32()
    }

    /// Appends the header's bytes.
    pub fn write(&self, out: &mut Vec<u8>)
        requires
            self.wf(),
        ensures
            final(out)@ == old(out)@ + basic_bytes(*self),
    {
        let t = self.chunk_type;
        match self.chunk_stream_id {
            ChunkStreamId::OneByte(id) => {
                out.push(t * 64 + id);
            },
            ChunkStreamId::TwoBytes(id) => {
                out.push(t * 64);
                out.push(id);
            },
            ChunkStreamId::ThreeBytes(w) => {
                out.push(t * 64 + 1);
                out.push((w % 256) as u8);
                out.push((w / 256) as u8);
            },
        }
        assert(final(out)@ =~= old(out)@ + basic_bytes(*self));
    }

    /// Reads the basic header at the front of `input`.
    pub fn read(input: &[u8]) -> (r: Option<(BasicHeader, usize)>)
        ensures
            r matches Some((b, n)) ==> parse_basic(input@) == Some((b, n as nat)),
            r is None ==> parse_basic(input@) is None,
            r matches Some((b, n)) ==> n <= input@.len() && b.chunk_type <= 3 && n
                == b.chunk_stream_id.spec_size(),
    {
        reveal(parse_basic);
        if input.len() == 0 {
            return None;
        }
        let t = input[0] / 64;
        let low = input[0] % 64;
        if low == 0 {
            if input.len() < 2 {
                None
            } else {
                Some((BasicHeader { chunk_type: t, chunk_stream_id: ChunkStreamId::TwoBytes(input[1]) }, 2))
            }
        } else if low == 1 {
            if input.len() < 3 {
                None
            } else {
                let w: u16 = input[1] as u16 + (input[2] as u16) * 256;
                Some((BasicHeader { chunk_type: t, chunk_stream_id: ChunkStreamId::ThreeBytes(w) }, 3))
            }
        } else {
            Some((BasicHeader { chunk_type: t, chunk_stream_id: ChunkStreamId::OneByte(low) }, 1))
        }
    }
}

/// What the basic header constructors return for a chunk type and an id.
pub open spec fn basic_of(chunk_type: u8, chunk_stream_id: u32) -> Result<
    BasicHeader,
    ChunkStreamIdTryFromError,
> {
    if chunk_stream_id < 2 {
        Err(ChunkStreamIdTryFromError::Reserved)
    } else if chunk_stream_id > 65599 {
        Err(ChunkStreamIdTryFromError::TooBig)
    } else {
        Ok(
            BasicHeader {
                chunk_type,
                chunk_stream_id: if chunk_stream_id <= 63 {
                    ChunkStreamId::OneByte(chunk_stream_id as u8)
                } else if chunk_stream_id <= 319 {
                    ChunkStreamId::TwoBytes((chunk_stream_id - 64) as u8)
                } else {
                    ChunkStreamId::ThreeBytes((chunk_stream_id - 64) as u16)
                },
            },
        )
    }
}

/// Reading a well-formed basic header's bytes, followed by anything, gives the
/// header back.
pub proof fn lemma_basic_round_trip(b: BasicHeader, rest: Seq<u8>)
    requires
        b.wf(),
    ensures
        parse_basic(basic_bytes(b) + rest) == Some((b, b.chunk_stream_id.spec_size())),
{
    reveal(parse_basic);
    let s = basic_bytes(b) + rest;
    let t = b.chunk_type;
    match b.chunk_stream_id {
        ChunkStreamId::OneByte(id) => {
            assert(s[0] == (t * 64 + id) as u8);
            assert((t * 64 + id) / 64 == t && (t * 64 + id) % 64 == id) by (nonlinear_arith)
                requires
                    t <= 3,
                    2 <= id <= 63,
            ;
        },
        ChunkStreamId::TwoBytes(id) => {
            assert(s[0] == (t * 64) as u8 && s[1] == id);
            assert((t * 64) / 64 == t && (t * 64) % 64 == 0) by (nonlinear_arith)
                requires
                    t <= 3,
            ;
        },
        ChunkStreamId::ThreeBytes(w) => {
            assert(s[0] == (t * 64 + 1) as u8 && s[1] == (w % 256) as u8 && s[2] == (w / 256) as u8);
            assert((t * 64 + 1) / 64 == t && (t * 64 + 1) % 64 == 1) by (nonlinear_arith)
                requires
                    t <= 3,
            ;
            assert((w % 256) + (w / 256) * 256 == w) by (nonlinear_arith);
        },
    }
}

/// Encoding then decoding a chunk stream id gives it back for every id from 2
/// to 65599; every other number is refused, as reserved below 2 and as too
/// large above 65599.
pub proof fn lemma_chunk_stream_id_bijection(chunk_type: u8, csid: u32)
    requires
        chunk_type <= 3,
    ensures
        2 <= csid <= 65599 ==> {
            &&& basic_of(chunk_type, csid) is Ok
            &&& basic_of(chunk_type, csid)->Ok_0.wf()
            &&& parse_basic(basic_bytes(basic_of(chunk_type, csid)->Ok_0)) is Some
            &&& parse_basic(basic_bytes(basic_of(chunk_type, csid)->Ok_0))->Some_0.0
                == basic_of(chunk_type, csid)->Ok_0
            &&& basic_of(chunk_type, csid)->Ok_0.chunk_stream_id.value() == csid
            &&& basic_of(chunk_type, csid)->Ok_0.chunk_type == chunk_type
        },
        csid < 2 ==> basic_of(chunk_type, csid) == Err::<BasicHeader, _>(
            ChunkStreamIdTryFromError::Reserved,
        ),
        csid > 65599 ==> basic_of(chunk_type, csid) == Err::<BasicHeader, _>(
            ChunkStreamIdTryFromError::TooBig,
        ),
{
    if 2 <= csid <= 65599 {
        let b = basic_of(chunk_type, csid)->Ok_0;
        lemma_basic_round_trip(b, seq![]);
        assert(basic_bytes(b) + seq![] =~= basic_bytes(b));
    }
}

pub proof fn lemma_parse_basic_none(s: Seq<u8>)
    requires
        parse_basic(s) is None,
    ensures
        crate::header::parse_header(s, false) is None,
        crate::header::parse_header(s, true) is None,
{
}

} // verus!
