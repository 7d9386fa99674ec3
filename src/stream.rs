//! The chunk stream engine: frames outbound messages into chunks with
//! compressed headers, reassembles inbound chunks into messages, and applies
//! protocol control messages. It works on byte buffers; the transport that
//! moves them is the caller's.
use vstd::prelude::*;

use crate::basic::{ChunkStreamId, PROTOCOL_CONTROL_CHUNK_STREAM_ID};
use crate::control::{is_control_type, parse_control, LimitType, ProtocolControlMessage};
use crate::error::RatmapError;
use crate::header::{
    advance_timestamp, header_bytes, header_type0, header_type1, header_type2, header_type3,
    lemma_constructors_wf, parse_header, Header, MessageHeader,
};
use crate::message::Message;
use crate::stream_map::{
    new_stream_map, stream_map_contents, stream_map_insert, stream_map_remove, ChunkStreamMap,
    ChunkStreamState, CompressionState,
};

verus! {

/// The maximum chunk size of both directions until a SetChunkSize changes it.
pub const DEFAULT_CHUNK_SIZE: u32 = 128;

/// The acknowledgement window until a WindowAckSize sets one: no limit.
pub const DEFAULT_ACK_WINDOW: u32 = 0xFFFF_FFFF;

/// `a + b` modulo 2^32.
pub open spec fn wrap_add(a: u32, b: u32) -> u32 {
    ((a as int + b as int) % 0x1_0000_0000) as u32
}

/// `a - b` modulo 2^32.
pub open spec fn wrap_sub(a: u32, b: u32) -> u32 {
    ((a as int - b as int) % 0x1_0000_0000) as u32
}

/// `t` comes before `last` in serial-number order: going from `last` to `t`
/// forward takes 2^31 or more, so it is shorter backward.
pub open spec fn goes_backward(last: u32, t: u32) -> bool {
    wrap_sub(t, last) >= 0x8000_0000
}

/// The full timestamp or delta of a type-0, 1 or 2 header.
pub open spec fn header_time(h: Header) -> u32 {
    h.spec_timestamp(0).into_inner_spec()
}

/// The value that `key` maps to, if any.
pub open spec fn lookup<V>(m: Map<u32, V>, key: u32) -> Option<V> {
    if m.contains_key(key) {
        Some(m[key])
    } else {
        None
    }
}

/// The compression state after a header that begins a message, given the
/// state of the chunk stream before it; `None` for a type-1, 2 or 3 header on
/// a chunk stream without state.
pub open spec fn begin_state(prev: Option<CompressionState>, h: Header) -> Option<CompressionState> {
    let t = header_time(h);
    match h.message_header {
        MessageHeader::BeginOrRewindStream {
            message_length,
            message_type_id,
            message_stream_id,
            ..
        } => Some(
            CompressionState {
                last_timestamp: t,
                last_delta: t,
                message_length,
                message_type_id,
                message_stream_id,
                extended_timestamp: h.extended_timestamp,
            },
        ),
        MessageHeader::BeginVariableLengthMessage { message_length, message_type_id, .. } => {
            match prev {
                None => None,
                Some(p) => Some(
                    CompressionState {
                        last_timestamp: wrap_add(p.last_timestamp, t),
                        last_delta: t,
                        message_length,
                        message_type_id,
                        message_stream_id: p.message_stream_id,
                        extended_timestamp: h.extended_timestamp,
                    },
                ),
            }
        },
        MessageHeader::BeginConstantLengthMessage { .. } => match prev {
            None => None,
            Some(p) => Some(
                CompressionState {
                    last_timestamp: wrap_add(p.last_timestamp, t),
                    last_delta: t,
                    message_length: p.message_length,
                    message_type_id: p.message_type_id,
                    message_stream_id: p.message_stream_id,
                    extended_timestamp: h.extended_timestamp,
                },
            ),
        },
        MessageHeader::ContinueMessage => match prev {
            None => None,
            Some(p) => Some(
                CompressionState {
                    last_timestamp: wrap_add(p.last_timestamp, p.last_delta),
                    last_delta: p.last_delta,
                    message_length: p.message_length,
                    message_type_id: p.message_type_id,
                    message_stream_id: p.message_stream_id,
                    extended_timestamp: p.extended_timestamp,
                },
            ),
        },
    }
}

/// The header of the first chunk of an outbound message: the most compressed
/// type that keeps its meaning. Type 0 on a new chunk stream, on another
/// message stream, or where the timestamp goes backward; type 1 where the
/// length or type differs; type 2 where only the delta differs; type 3 where
/// nothing does.
pub open spec fn outbound_header(
    chunk_stream_id: u32,
    prev: Option<CompressionState>,
    timestamp: u32,
    message_length: u32,
    message_type_id: u8,
    message_stream_id: u32,
) -> Header {
    match prev {
        None => header_type0(
            chunk_stream_id,
            timestamp,
            message_length,
            message_type_id,
            message_stream_id,
        )->Ok_0,
        Some(p) => {
            let delta = wrap_sub(timestamp, p.last_timestamp);
            if p.message_stream_id != message_stream_id || goes_backward(
                p.last_timestamp,
                timestamp,
            ) {
                header_type0(
                    chunk_stream_id,
                    timestamp,
                    message_length,
                    message_type_id,
                    message_stream_id,
                )->Ok_0
            } else if p.message_length != message_length || p.message_type_id != message_type_id {
                header_type1(chunk_stream_id, delta, message_length, message_type_id)->Ok_0
            } else if delta != p.last_delta {
                header_type2(chunk_stream_id, delta)->Ok_0
            } else {
                header_type3(chunk_stream_id, p.extended_timestamp)->Ok_0
            }
        },
    }
}

/// The chunks after the first: a type-3 header (`h3`) and up to
/// `chunk_size` bytes each, the last one short.
pub open spec fn continuation_chunks(h3: Seq<u8>, payload: Seq<u8>, chunk_size: nat) -> Seq<u8>
    decreases payload.len(),
{
    if chunk_size == 0 || payload.len() == 0 {
        seq![]
    } else if payload.len() <= chunk_size {
        h3 + payload
    } else {
        h3 + payload.take(chunk_size as int) + continuation_chunks(
            h3,
            payload.skip(chunk_size as int),
            chunk_size,
        )
    }
}

pub open spec fn min_nat(a: nat, b: nat) -> nat {
    if a <= b {
        a
    } else {
        b
    }
}

/// The bytes that carry `m` on chunk stream `csid`, given that stream's
/// outbound state and the outbound chunk size.
pub open spec fn frame_message(
    csid: u32,
    prev: Option<CompressionState>,
    chunk_size: u32,
    m: Message,
) -> Seq<u8> {
    let h = outbound_header(
        csid,
        prev,
        m.timestamp,
        m.payload@.len() as u32,
        m.type_id,
        m.stream_id,
    );
    let st = begin_state(prev, h)->Some_0;
    let first = min_nat(chunk_size as nat, m.payload@.len());
    header_bytes(h) + m.payload@.take(first as int) + continuation_chunks(
        header_bytes(header_type3(csid, st.extended_timestamp)->Ok_0),
        m.payload@.skip(first as int),
        chunk_size as nat,
    )
}

/// The compression state after sending `m`: its timestamp, length, type and
/// message stream.
pub open spec fn sent_state(prev: Option<CompressionState>, csid: u32, m: Message) -> CompressionState {
    begin_state(
        prev,
        outbound_header(csid, prev, m.timestamp, m.payload@.len() as u32, m.type_id, m.stream_id),
    )->Some_0
}

/// The control message that `m` carries on chunk stream `csid`, where it is
/// one: message stream 0 of chunk stream 2.
pub open spec fn control_of(csid: u32, m: Message) -> Option<ProtocolControlMessage> {
    if csid == 2 && m.stream_id == 0 && is_control_type(m.type_id) {
        parse_control(m.type_id, m.payload@)
    } else {
        None
    }
}

/// `m` is a control message on the control stream whose payload is
/// malformed.
pub open spec fn malformed_control(csid: u32, m: Message) -> bool {
    csid == 2 && m.stream_id == 0 && is_control_type(m.type_id) && parse_control(
        m.type_id,
        m.payload@,
    ) is None
}

/// `a - b` modulo 2^32.
fn wrapping_sub(a: u32, b: u32) -> (r: u32)
    ensures
        r == wrap_sub(a, b),
{
    a.wrapping_sub(b)
}

/// The compression state after a header that begins a message; `None` for a
/// type-1, 2 or 3 header on a chunk stream without state.
pub fn apply_header(prev: Option<CompressionState>, h: &Header) -> (r: Option<CompressionState>)
    ensures
        r == begin_state(prev, *h),
{
    let t = h.timestamp(0).into_inner();
    match h.message_header {
        MessageHeader::BeginOrRewindStream {
            message_length,
            message_type_id,
            message_stream_id,
            ..
        } => Some(
            CompressionState {
                last_timestamp: t,
                last_delta: t,
                message_length,
                message_type_id,
                message_stream_id,
                extended_timestamp: h.extended_timestamp,
            },
        ),
        MessageHeader::BeginVariableLengthMessage { message_length, message_type_id, .. } => {
            match prev {
                None => None,
                Some(p) => Some(
                    CompressionState {
                        last_timestamp: advance_timestamp(p.last_timestamp, t),
                        last_delta: t,
                        message_length,
                        message_type_id,
                        message_stream_id: p.message_stream_id,
                        extended_timestamp: h.extended_timestamp,
                    },
                ),
            }
        },
        MessageHeader::BeginConstantLengthMessage { .. } => match prev {
            None => None,
            Some(p) => Some(
                CompressionState {
                    last_timestamp: advance_timestamp(p.last_timestamp, t),
                    last_delta: t,
                    message_length: p.message_length,
                    message_type_id: p.message_type_id,
                    message_stream_id: p.message_stream_id,
                    extended_timestamp: h.extended_timestamp,
                },
            ),
        },
        MessageHeader::ContinueMessage => match prev {
            None => None,
            Some(p) => Some(
                CompressionState {
                    last_timestamp: advance_timestamp(p.last_timestamp, p.last_delta),
                    last_delta: p.last_delta,
                    message_length: p.message_length,
                    message_type_id: p.message_type_id,
                    message_stream_id: p.message_stream_id,
                    extended_timestamp: p.extended_timestamp,
                },
            ),
        },
    }
}

/// The header of the first chunk of an outbound message, given the chunk
/// stream's outbound state.
pub fn choose_header(
    chunk_stream_id: u32,
    prev: Option<CompressionState>,
    timestamp: u32,
    message_length: u32,
    message_type_id: u8,
    message_stream_id: u32,
) -> (r: Header)
    requires
        2 <= chunk_stream_id <= 65599,
        message_length <= 0xFFFFFF,
    ensures
        r == outbound_header(
            chunk_stream_id,
            prev,
            timestamp,
            message_length,
            message_type_id,
            message_stream_id,
        ),
        r.wf(),
{
    proof {
        let delta = wrap_sub(timestamp, if prev is Some { prev->Some_0.last_timestamp } else { 0 });
        lemma_constructors_wf(chunk_stream_id, timestamp, message_length, message_type_id, message_stream_id, if prev is Some { prev->Some_0.extended_timestamp } else { None });
        lemma_constructors_wf(chunk_stream_id, delta, message_length, message_type_id, message_stream_id, None);
    }
    let r = match prev {
        None => Header::begin_or_rewind_stream(
            chunk_stream_id,
            timestamp,
            message_length,
            message_type_id,
            message_stream_id,
        ),
        Some(p) => {
            let delta = wrapping_sub(timestamp, p.last_timestamp);
            if p.message_stream_id != message_stream_id || delta >= 0x8000_0000 {
                Header::begin_or_rewind_stream(
                    chunk_stream_id,
                    timestamp,
                    message_length,
                    message_type_id,
                    message_stream_id,
                )
            } else if p.message_length != message_length || p.message_type_id != message_type_id {
                Header::begin_variable_length_message(
                    chunk_stream_id,
                    delta,
                    message_length,
                    message_type_id,
                )
            } else if delta != p.last_delta {
                Header::begin_constant_length_message(chunk_stream_id, delta)
            } else {
                match p.extended_timestamp {
                    Some(e) => Header::continue_extended_message(chunk_stream_id, e),
                    None => Header::continue_message(chunk_stream_id),
                }
            }
        },
    };
    match r {
        Ok(h) => h,
        Err(_) => {
            proof {
                assert(false);
            }
            Header::continue_message(chunk_stream_id).unwrap()
        },
    }
}

/// Appends `src[from..to]` to `out`.
fn append_range(out: &mut Vec<u8>, src: &[u8], from: usize, to: usize)
    requires
        from <= to <= src@.len(),
    ensures
        final(out)@ == old(out)@ + src@.subrange(from as int, to as int),
{
    let mut i = from;
    while i < to
        invariant
            from <= i <= to <= src@.len(),
            out@ == old(out)@ + src@.subrange(from as int, i as int),
        decreases to - i,
    {
        out.push(src[i]);
        i = i + 1;
        assert(out@ =~= old(out)@ + src@.subrange(from as int, i as int));
    }
}

proof fn lemma_continuation_step(h3: Seq<u8>, payload: Seq<u8>, pos: int, end: int, cs: nat)
    requires
        cs > 0,
        0 <= pos < end <= payload.len(),
        end == if payload.len() - pos <= cs { payload.len() as int } else { pos + cs },
    ensures
        continuation_chunks(h3, payload.skip(pos), cs) == h3 + payload.subrange(pos, end)
            + continuation_chunks(h3, payload.skip(end), cs),
{
    let rest = payload.skip(pos);
    if payload.len() - pos <= cs {
        assert(rest =~= payload.subrange(pos, end));
        assert(payload.skip(end).len() == 0);
        assert(continuation_chunks(h3, payload.skip(end), cs) == Seq::<u8>::empty());
        assert(h3 + rest =~= h3 + payload.subrange(pos, end) + Seq::<u8>::empty());
    } else {
        assert(rest.take(cs as int) =~= payload.subrange(pos, end));
        assert(rest.skip(cs as int) =~= payload.skip(end));
    }
}

/// Appends the chunks of `payload` after its first `from` bytes, each behind
/// the type-3 header `h3`.
fn write_continuations(out: &mut Vec<u8>, h3: &Header, payload: &[u8], from: usize, chunk_size: u32)
    requires
        h3.wf(),
        chunk_size >= 1,
        from <= payload@.len(),
    ensures
        final(out)@ == old(out)@ + continuation_chunks(
            header_bytes(*h3),
            payload@.skip(from as int),
            chunk_size as nat,
        ),
{
    let len = payload.len();
    let cs = chunk_size as usize;
    let mut pos = from;
    let ghost h3b = header_bytes(*h3);
    while pos < len
        invariant
            from <= pos <= len == payload@.len(),
            cs == chunk_size >= 1,
            h3.wf(),
            h3b == header_bytes(*h3),
            old(out)@ + continuation_chunks(h3b, payload@.skip(from as int), cs as nat) == out@
                + continuation_chunks(h3b, payload@.skip(pos as int), cs as nat),
        decreases len - pos,
    {
        let end = if len - pos <= cs {
            len
        } else {
            pos + cs
        };
        proof {
            lemma_continuation_step(h3b, payload@, pos as int, end as int, cs as nat);
        }
        h3.write(out);
        append_range(out, payload, pos, end);
        pos = end;
    }
    assert(payload@.skip(pos as int).len() == 0);
    assert(out@ + continuation_chunks(h3b, payload@.skip(pos as int), cs as nat) =~= out@);
}


/// The parameters that each direction keeps apart from the chunk streams.
#[derive(Debug, Clone, Copy, PartialEq, Eq, Structural)]
pub struct DirectionSettings {
    /// The largest chunk payload the peer sends; set by its SetChunkSize.
    pub incoming_chunk_size: u32,
    /// The largest chunk payload this side sends; set by sending SetChunkSize.
    pub outgoing_chunk_size: u32,
    /// Acknowledge after this many received bytes; set by the peer's WindowAckSize.
    pub ack_window: u32,
    /// Payload bytes received since the last acknowledgement.
    pub bytes_since_ack: u64,
    /// Payload bytes received in all, modulo 2^32.
    pub bytes_received: u32,
    /// The output bandwidth window that the peer set.
    pub peer_bandwidth: u32,
    /// The kind of the peer's last limit that took effect.
    pub peer_limit: Option<LimitType>,
}

/// The settings of a new connection.
pub open spec fn initial_settings() -> DirectionSettings {
    DirectionSettings {
        incoming_chunk_size: 128,
        outgoing_chunk_size: 128,
        ack_window: 0xFFFF_FFFF,
        bytes_since_ack: 0,
        bytes_received: 0,
        peer_bandwidth: 0xFFFF_FFFF,
        peer_limit: None,
    }
}

/// The compression state of a chunk stream, if it has one.
pub open spec fn header_of(s: Option<ChunkStreamState>) -> Option<CompressionState> {
    match s {
        Some(st) => Some(st.header),
        None => None,
    }
}

/// The bidirectional chunk stream state of one connection.
pub struct ChunkStream {
    incoming: ChunkStreamMap,
    outgoing: ChunkStreamMap,
    settings: DirectionSettings,
}

impl ChunkStream {
    /// The inbound chunk streams.
    pub closed spec fn spec_incoming(&self) -> Map<u32, ChunkStreamState> {
        stream_map_contents(self.incoming)
    }

    /// The outbound chunk streams.
    pub closed spec fn spec_outgoing(&self) -> Map<u32, ChunkStreamState> {
        stream_map_contents(self.outgoing)
    }

    pub closed spec fn spec_settings(&self) -> DirectionSettings {
        self.settings
    }

    /// Chunk sizes are at least 1, the count since the last acknowledgement
    /// fits 32 bits, and no buffered payload exceeds its message's length.
    pub open spec fn wf(&self) -> bool {
        &&& self.spec_settings().incoming_chunk_size >= 1
        &&& self.spec_settings().outgoing_chunk_size >= 1
        &&& self.spec_settings().bytes_since_ack < 0x1_0000_0000
        &&& forall|k: u32| #[trigger]
            self.spec_incoming().contains_key(k) ==> self.spec_incoming()[k].payload@.len()
                <= self.spec_incoming()[k].header.message_length
    }

    /// A connection whose handshake has completed: no chunk stream has
    /// state, and both chunk sizes are 128.
    pub fn new() -> (r: ChunkStream)
        ensures
            r.wf(),
            r.spec_settings() == initial_settings(),
            forall|k: u32| !#[trigger] r.spec_incoming().contains_key(k),
            forall|k: u32| !#[trigger] r.spec_outgoing().contains_key(k),
    {
        ChunkStream {
            incoming: new_stream_map(),
            outgoing: new_stream_map(),
            settings: DirectionSettings {
                incoming_chunk_size: DEFAULT_CHUNK_SIZE,
                outgoing_chunk_size: DEFAULT_CHUNK_SIZE,
                ack_window: DEFAULT_ACK_WINDOW,
                bytes_since_ack: 0,
                bytes_received: 0,
                peer_bandwidth: DEFAULT_ACK_WINDOW,
                peer_limit: None,
            },
        }
    }

    /// The connection's settings.
    pub fn settings(&self) -> (r: DirectionSettings)
        ensures
            r == self.spec_settings(),
    {
        self.settings
    }

    /// Frames `message` into chunks on chunk stream `chunk_stream_id` and
    /// returns their bytes. The first chunk has the most compressed header
    /// that the chunk stream's outbound state allows, the others type 3.
    /// Sending a SetChunkSize on the control stream changes the outbound
    /// chunk size for the messages after it. Fails, with the state as it was,
    /// on a reserved or too large chunk stream id, a payload longer than
    /// 0xFFFFFF bytes, or a malformed control message.
    pub fn send(&mut self, chunk_stream_id: u32, message: &Message) -> (r: Result<
        Vec<u8>,
        RatmapError,
    >)
        requires
            old(self).wf(),
        ensures
            final(self).wf(),
            chunk_stream_id < 2 ==> r == Err::<Vec<u8>, _>(RatmapError::ReservedCsid),
            chunk_stream_id > 65599 ==> r == Err::<Vec<u8>, _>(RatmapError::CsidTooLarge),
            2 <= chunk_stream_id <= 65599 && message.payload@.len() > 0xFFFFFF ==> r == Err::<
                Vec<u8>,
                _,
            >(RatmapError::MessageTooLong),
            2 <= chunk_stream_id <= 65599 && message.payload@.len() <= 0xFFFFFF && malformed_control(
                chunk_stream_id,
                *message,
            ) ==> r == Err::<Vec<u8>, _>(RatmapError::ProtocolError),
            r is Ok <==> 2 <= chunk_stream_id <= 65599 && message.payload@.len() <= 0xFFFFFF
                && !malformed_control(chunk_stream_id, *message),
            r is Err ==> final(self).spec_outgoing() == old(self).spec_outgoing()
                && final(self).spec_settings() == old(self).spec_settings(),
            final(self).spec_incoming() == old(self).spec_incoming(),
            r matches Ok(bytes) ==> {
                let prev = header_of(lookup(old(self).spec_outgoing(), chunk_stream_id));
                &&& bytes@ == frame_message(
                    chunk_stream_id,
                    prev,
                    old(self).spec_settings().outgoing_chunk_size,
                    *message,
                )
                &&& final(self).spec_outgoing().dom() == old(self).spec_outgoing().dom().insert(
                    chunk_stream_id,
                )
                &&& final(self).spec_outgoing()[chunk_stream_id].header == sent_state(
                    prev,
                    chunk_stream_id,
                    *message,
                )
                &&& forall|k: u32|
                    k != chunk_stream_id && #[trigger] old(self).spec_outgoing().contains_key(k)
                        ==> final(self).spec_outgoing()[k] == old(self).spec_outgoing()[k]
                &&& final(self).spec_settings() == (match control_of(chunk_stream_id, *message) {
                    Some(ProtocolControlMessage::SetChunkSize(v)) => DirectionSettings {
                        outgoing_chunk_size: v,
                        ..old(self).spec_settings()
                    },
                    _ => old(self).spec_settings(),
                })
            },
    {
        match ChunkStreamId::try_from(chunk_stream_id) {
            Err(crate::error::ChunkStreamIdTryFromError::Reserved) => {
                return Err(RatmapError::ReservedCsid);
            },
            Err(crate::error::ChunkStreamIdTryFromError::TooBig) => {
                return Err(RatmapError::CsidTooLarge);
            },
            Ok(_) => {},
        }
        if message.payload.len() > 0xFFFFFF {
            return Err(RatmapError::MessageTooLong);
        }
        let mut new_chunk_size: Option<u32> = None;
        if chunk_stream_id == PROTOCOL_CONTROL_CHUNK_STREAM_ID && message.stream_id == 0 {
            match ProtocolControlMessage::parse(message.type_id, message.payload.as_slice()) {
                Err(e) => {
                    return Err(e);
                },
                Ok(Some(ProtocolControlMessage::SetChunkSize(v))) => {
                    new_chunk_size = Some(v);
                },
                Ok(_) => {},
            }
        }
        let ghost old_outgoing = stream_map_contents(self.outgoing);
        let prev_state = stream_map_remove(&mut self.outgoing, chunk_stream_id);
        let prev = match prev_state {
            Some(s) => Some(s.header),
            None => None,
        };
        let len = message.payload.len() as u32;
        let h = choose_header(
            chunk_stream_id,
            prev,
            message.timestamp,
            len,
            message.type_id,
            message.stream_id,
        );
        proof {
            lemma_outbound_begins(chunk_stream_id, prev, message.timestamp, len, message.type_id, message.stream_id);
        }
        let st = apply_header(prev, &h).unwrap();
        let cs = self.settings.outgoing_chunk_size;
        let mut out: Vec<u8> = Vec::new();
        h.write(&mut out);
        let first: usize = if message.payload.len() <= cs as usize {
            message.payload.len()
        } else {
            cs as usize
        };
        append_range(&mut out, message.payload.as_slice(), 0, first);
        let h3 = match st.extended_timestamp {
            Some(e) => Header::continue_extended_message(chunk_stream_id, e),
            None => Header::continue_message(chunk_stream_id),
        };
        proof {
            lemma_constructors_wf(chunk_stream_id, 0, 0, 0, 0, st.extended_timestamp);
        }
        let h3 = h3.unwrap();
        write_continuations(&mut out, &h3, message.payload.as_slice(), first, cs);
        proof {
            assert(message.payload@.subrange(0, first as int) =~= message.payload@.take(first as int));
        }
        stream_map_insert(&mut self.outgoing, chunk_stream_id, ChunkStreamState { header: st, payload: Vec::new() });
        match new_chunk_size {
            Some(v) => {
                self.settings.outgoing_chunk_size = v;
            },
            None => {},
        }
        proof {
            assert(stream_map_contents(self.outgoing).dom() =~= old_outgoing.dom().insert(chunk_stream_id));
        }
        Ok(out)
    }
}

/// What reading one chunk gives.
#[derive(Debug)]
pub enum ChunkRead {
    /// The input ends before the chunk does; nothing was consumed.
    Incomplete,
    /// A chunk of `consumed` bytes was read. `message` is the message that it
    /// completed, if any; `replies` are control messages to send to the peer
    /// on chunk stream 2.
    Chunk { consumed: usize, message: Option<Message>, replies: Vec<Message> },
}

/// The chunk stream id that the basic header at the front of `s` names.
pub open spec fn input_csid(s: Seq<u8>) -> u32 {
    crate::basic::parse_basic(s)->Some_0.0.chunk_stream_id.value() as u32
}

/// What a chunk stream's inbound state says to the reader: its compression
/// state and the payload buffered so far.
pub open spec fn stream_view(s: Option<ChunkStreamState>) -> Option<(CompressionState, Seq<u8>)> {
    match s {
        Some(st) => Some((st.header, st.payload@)),
        None => None,
    }
}

/// The compression state of a chunk stream's view, if it has one.
pub open spec fn view_header(p: Option<(CompressionState, Seq<u8>)>) -> Option<CompressionState> {
    match p {
        Some(v) => Some(v.0),
        None => None,
    }
}

/// An extended timestamp is in effect on the chunk stream.
pub open spec fn extended_in_effect(p: Option<(CompressionState, Seq<u8>)>) -> bool {
    p matches Some(v) && v.0.extended_timestamp is Some
}

/// The chunk continues a partly received message rather than beginning one.
pub open spec fn continues(p: Option<(CompressionState, Seq<u8>)>, h: Header) -> bool {
    h.message_header is ContinueMessage && (p matches Some(v) && v.1.len() > 0)
}

/// The compression state that governs the chunk; `None` where the header
/// compresses against state that the chunk stream does not have.
pub open spec fn chunk_state(p: Option<(CompressionState, Seq<u8>)>, h: Header) -> Option<CompressionState> {
    if continues(p, h) {
        Some(p->Some_0.0)
    } else {
        begin_state(view_header(p), h)
    }
}

/// The payload bytes received before the chunk that belong to its message.
pub open spec fn buffered(p: Option<(CompressionState, Seq<u8>)>, h: Header) -> Seq<u8> {
    if continues(p, h) {
        p->Some_0.1
    } else {
        seq![]
    }
}

/// One chunk read from the front of `input` by a chunk stream whose view is
/// `p`: the compression state that governs it, the message's payload so far,
/// this chunk's included, and the bytes consumed. `None` where the input ends
/// before the chunk does or the header compresses against missing state.
pub open spec fn recv_chunk(p: Option<(CompressionState, Seq<u8>)>, cs: u32, input: Seq<u8>) -> Option<(CompressionState, Seq<u8>, nat)> {
    match parse_header(input, extended_in_effect(p)) {
        None => None,
        Some((h, n)) => match chunk_state(p, h) {
            None => None,
            Some(st) => {
                let take = chunk_payload_len(cs, st, buffered(p, h).len());
                if input.len() < n + take {
                    None
                } else {
                    Some((st, buffered(p, h) + input.subrange(n as int, (n + take) as int), n + take))
                }
            },
        },
    }
}

/// Chunks read from the front of `input`, one after another on one chunk
/// stream, until one completes a message: its compression state, its payload
/// and the bytes consumed. `None` where that takes more than `fuel` chunks or
/// a chunk cannot be read.
pub open spec fn recv_message(p: Option<(CompressionState, Seq<u8>)>, cs: u32, input: Seq<u8>, fuel: nat) -> Option<(CompressionState, Seq<u8>, nat)>
    decreases fuel,
{
    if fuel == 0 {
        None
    } else {
        match recv_chunk(p, cs, input) {
            None => None,
            Some((st, data, n)) => if data.len() == st.message_length {
                Some((st, data, n))
            } else {
                match recv_message(Some((st, data)), cs, input.skip(n as int), (fuel - 1) as nat) {
                    None => None,
                    Some((st2, data2, n2)) => Some((st2, data2, n + n2)),
                }
            },
        }
    }
}

/// The number of payload bytes that the chunk carries.
pub open spec fn chunk_payload_len(chunk_size: u32, st: CompressionState, buffered_len: nat) -> nat {
    min_nat(chunk_size as nat, (st.message_length - buffered_len) as nat)
}

/// The settings after a control message from the peer.
pub open spec fn settings_after_control(s: DirectionSettings, c: ProtocolControlMessage) -> DirectionSettings {
    match c {
        ProtocolControlMessage::SetChunkSize(v) => DirectionSettings { incoming_chunk_size: v, ..s },
        ProtocolControlMessage::WindowAcknowledgementSize(v) => DirectionSettings { ack_window: v, ..s },
        ProtocolControlMessage::SetPeerBandwidth { acknowledgement_window_size, limit_type } => {
            let (w, l) = bandwidth_after(s.peer_bandwidth, s.peer_limit, acknowledgement_window_size, limit_type);
            DirectionSettings { peer_bandwidth: w, peer_limit: l, ..s }
        },
        _ => s,
    }
}

/// The output bandwidth and limit kind after the peer's SetPeerBandwidth:
/// a hard limit replaces the window, a soft one lowers it, and a dynamic one
/// acts as hard only while the limit in effect is hard.
pub open spec fn bandwidth_after(current: u32, limit: Option<LimitType>, window: u32, t: LimitType) -> (u32, Option<LimitType>) {
    match t {
        LimitType::Hard => (window, Some(LimitType::Hard)),
        LimitType::Soft => (if window < current { window } else { current }, Some(LimitType::Soft)),
        LimitType::Dynamic => if limit == Some(LimitType::Hard) {
            (window, Some(LimitType::Hard))
        } else {
            (current, limit)
        },
    }
}

/// `after` is `before` with the partly received message of chunk stream `c`
/// discarded.
pub open spec fn aborted(before: Map<u32, ChunkStreamState>, after: Map<u32, ChunkStreamState>, c: u32) -> bool {
    &&& after.dom() == before.dom()
    &&& forall|k: u32| k != c && #[trigger] before.contains_key(k) ==> after[k] == before[k]
    &&& before.contains_key(c) ==> after[c].header == before[c].header && after[c].payload@.len() == 0
}

/// The acknowledgement message that reports `received` bytes.
pub open spec fn is_acknowledgement(m: Message, received: u32) -> bool {
    m.type_id == 3 && m.stream_id == 0 && m.timestamp == 0 && m.payload@ == crate::bytes::be32(received as int)
}

/// The WindowAckSize message that announces `window`.
pub open spec fn is_window_ack_size(m: Message, window: u32) -> bool {
    m.type_id == 5 && m.stream_id == 0 && m.timestamp == 0 && m.payload@ == crate::bytes::be32(window as int)
}

/// How reading a chunk from the front of an input ends.
#[derive(PartialEq, Eq, Structural)]
pub enum ChunkOutcome {
    /// The input ends before the chunk does.
    Incomplete,
    /// The header compresses against state that the chunk stream lacks.
    Dangling,
    /// The whole chunk is there.
    Ready,
}

/// The inbound state of the chunk stream that the chunk at the front of
/// `input` belongs to.
pub open spec fn chunk_prev(m: Map<u32, ChunkStreamState>, input: Seq<u8>) -> Option<(CompressionState, Seq<u8>)> {
    stream_view(lookup(m, input_csid(input)))
}

/// The header at the front of `input`, with its length.
pub open spec fn chunk_parsed(m: Map<u32, ChunkStreamState>, input: Seq<u8>) -> Option<(Header, nat)> {
    parse_header(input, extended_in_effect(chunk_prev(m, input)))
}

/// The compression state that governs the chunk at the front of `input`.
pub open spec fn chunk_st(m: Map<u32, ChunkStreamState>, input: Seq<u8>) -> CompressionState {
    chunk_state(chunk_prev(m, input), chunk_parsed(m, input)->Some_0.0)->Some_0
}

/// The number of payload bytes of the chunk at the front of `input`.
pub open spec fn chunk_take(m: Map<u32, ChunkStreamState>, cs: u32, input: Seq<u8>) -> nat {
    let prev = chunk_prev(m, input);
    let h = chunk_parsed(m, input)->Some_0.0;
    chunk_payload_len(cs, chunk_st(m, input), buffered(prev, h).len())
}

/// The message's payload received so far, this chunk's included.
pub open spec fn chunk_data(m: Map<u32, ChunkStreamState>, cs: u32, input: Seq<u8>) -> Seq<u8> {
    let prev = chunk_prev(m, input);
    let (h, n) = chunk_parsed(m, input)->Some_0;
    buffered(prev, h) + input.subrange(n as int, (n + chunk_take(m, cs, input)) as int)
}

pub open spec fn chunk_outcome(m: Map<u32, ChunkStreamState>, cs: u32, input: Seq<u8>) -> ChunkOutcome {
    let prev = chunk_prev(m, input);
    match chunk_parsed(m, input) {
        None => ChunkOutcome::Incomplete,
        Some((h, n)) => if chunk_state(prev, h) is None {
            ChunkOutcome::Dangling
        } else if input.len() < n + chunk_take(m, cs, input) {
            ChunkOutcome::Incomplete
        } else {
            ChunkOutcome::Ready
        },
    }
}

/// The chunk completes a message of a control type on the control stream.
pub open spec fn completes_control(m: Map<u32, ChunkStreamState>, cs: u32, input: Seq<u8>) -> bool {
    let st = chunk_st(m, input);
    &&& chunk_data(m, cs, input).len() == st.message_length
    &&& input_csid(input) == 2
    &&& st.message_stream_id == 0
    &&& is_control_type(st.message_type_id)
}

/// The control message that the chunk completes, where it completes a
/// well-formed one.
pub open spec fn chunk_control(m: Map<u32, ChunkStreamState>, cs: u32, input: Seq<u8>) -> Option<ProtocolControlMessage> {
    if completes_control(m, cs, input) {
        parse_control(chunk_st(m, input).message_type_id, chunk_data(m, cs, input))
    } else {
        None
    }
}

/// The chunk completes a malformed control message.
pub open spec fn bad_control(m: Map<u32, ChunkStreamState>, cs: u32, input: Seq<u8>) -> bool {
    completes_control(m, cs, input) && parse_control(
        chunk_st(m, input).message_type_id,
        chunk_data(m, cs, input),
    ) is None
}

/// Receiving `n` more payload bytes reaches the acknowledgement window.
pub open spec fn ack_due(s: DirectionSettings, n: nat) -> bool {
    s.bytes_since_ack + n >= s.ack_window
}

/// The settings after `n` more payload bytes were counted.
pub open spec fn settings_after_count(s: DirectionSettings, n: nat) -> DirectionSettings {
    DirectionSettings {
        bytes_since_ack: if ack_due(s, n) { 0 } else { (s.bytes_since_ack + n) as u64 },
        bytes_received: wrap_add(s.bytes_received, n as u32),
        ..s
    }
}

/// The replies to a chunk: an Acknowledgement where one is due, then a
/// WindowAckSize where a SetPeerBandwidth changed the output bandwidth.
pub open spec fn replies_expected(
    replies: Seq<Message>,
    ack: bool,
    s1: DirectionSettings,
    control: Option<ProtocolControlMessage>,
) -> bool {
    let k: int = if ack { 1 } else { 0 };
    let w = match control {
        Some(c) => settings_after_control(s1, c).peer_bandwidth,
        None => s1.peer_bandwidth,
    };
    let window_reply = w != s1.peer_bandwidth;
    &&& ack ==> is_acknowledgement(replies[0], s1.bytes_received)
    &&& window_reply ==> replies.len() == k + 1 && is_window_ack_size(replies[k], w)
    &&& !window_reply ==> replies.len() == k
}

impl ChunkStream {
    /// Reads one chunk from the front of `input`.
    ///
    /// The header is read against the chunk stream's inbound state: a type-3
    /// header carries an extended timestamp where the stream's last header
    /// did. A chunk that continues a partly received message adds to it; any
    /// other begins a message, whose timestamp is the absolute one of a type-0
    /// header or the previous timestamp plus the delta, modulo 2^32. The chunk
    /// carries the smaller of the inbound chunk size and what the message
    /// still lacks. When the message is complete it is returned.
    ///
    /// Every payload byte counts toward the acknowledgement window; when the
    /// count since the last acknowledgement reaches it, an Acknowledgement of
    /// the total received (modulo 2^32) is returned among the replies and the
    /// count restarts. A completed control message on chunk stream 2 and
    /// message stream 0 then takes effect: SetChunkSize changes the inbound
    /// chunk size, AbortMessage discards a partly received message,
    /// WindowAckSize sets the acknowledgement window, and SetPeerBandwidth
    /// limits the output bandwidth, with a WindowAckSize reply where the
    /// window changed.
    ///
    /// `Incomplete`, with nothing changed, where `input` ends before the
    /// chunk does; `ProtocolError` for compression without prior state and
    /// for a malformed control message.
    pub fn read_chunk(&mut self, input: &[u8]) -> (r: Result<ChunkRead, RatmapError>)
        requires
            old(self).wf(),
        ensures
            r is Ok ==> final(self).wf(),
            final(self).spec_outgoing() == old(self).spec_outgoing(),
            ({
                let m0 = old(self).spec_incoming();
                let s0 = old(self).spec_settings();
                let outcome = chunk_outcome(m0, s0.incoming_chunk_size, input@);
                let control = chunk_control(m0, s0.incoming_chunk_size, input@);
                &&& outcome == ChunkOutcome::Incomplete ==> r == Ok::<ChunkRead, RatmapError>(ChunkRead::Incomplete)
                    && final(self).spec_incoming() == m0 && final(self).spec_settings() == s0
                &&& outcome == ChunkOutcome::Dangling ==> r == Err::<ChunkRead, _>(RatmapError::ProtocolError)
                &&& outcome == ChunkOutcome::Ready && bad_control(m0, s0.incoming_chunk_size, input@) ==> r == Err::<ChunkRead, _>(RatmapError::ProtocolError)
                &&& outcome == ChunkOutcome::Ready && !bad_control(m0, s0.incoming_chunk_size, input@) ==> r is Ok && !(r matches Ok(ChunkRead::Incomplete))
            }),
            r matches Ok(ChunkRead::Chunk { consumed, message, replies }) ==> {
                let m0 = old(self).spec_incoming();
                let s0 = old(self).spec_settings();
                let cs = s0.incoming_chunk_size;
                let csid = input_csid(input@);
                let st = chunk_st(m0, input@);
                let data = chunk_data(m0, cs, input@);
                let complete = data.len() == st.message_length;
                let s1 = settings_after_count(s0, chunk_take(m0, cs, input@));
                let control = chunk_control(m0, cs, input@);
                let ack = ack_due(s0, chunk_take(m0, cs, input@));
                &&& consumed == chunk_parsed(m0, input@)->Some_0.1 + chunk_take(m0, cs, input@)
                &&& recv_chunk(chunk_prev(m0, input@), cs, input@) == Some((st, data, consumed as nat))
                &&& (message is Some <==> complete)
                &&& (message matches Some(m) ==> m.type_id == st.message_type_id
                    && m.stream_id == st.message_stream_id && m.timestamp == st.last_timestamp
                    && m.payload@ == data)
                &&& final(self).spec_settings() == (match control {
                    Some(c) => settings_after_control(s1, c),
                    None => s1,
                })
                &&& replies_expected(replies@, ack, s1, control)
                &&& final(self).spec_incoming().contains_key(csid)
                &&& final(self).spec_incoming()[csid].header == st
                &&& final(self).spec_incoming()[csid].payload@ == (if complete { seq![] } else { data })
                &&& (match control {
                    Some(ProtocolControlMessage::AbortMessage { chunk_stream_id }) => chunk_stream_id != csid ==> aborted(
                        m0.insert(csid, final(self).spec_incoming()[csid]), final(self).spec_incoming(), chunk_stream_id),
                    _ => forall|k: u32| k != csid ==> #[trigger] lookup(final(self).spec_incoming(), k) == lookup(m0, k),
                })
            },
    {
        let ghost m0 = stream_map_contents(self.incoming);
        let ghost s0 = self.settings;
        let (consumed, take, message, csid) = match self.reassemble(input) {
            Err(e) => {
                return Err(e);
            },
            Ok(None) => {
                return Ok(ChunkRead::Incomplete);
            },
            Ok(Some(p)) => p,
        };
        let ghost m1 = stream_map_contents(self.incoming);
        proof {
            assert forall|k: u32| #[trigger] m1.contains_key(k) implies m1[k].payload@.len() <= m1[k].header.message_length by {
                if k != csid {
                    assert(lookup(m1, k) == lookup(m0, k));
                    assert(m0.contains_key(k));
                }
            }
        }
        let mut replies: Vec<Message> = Vec::new();
        match self.count_received(take as u32) {
            Some(ack) => replies.push(ack),
            None => {},
        }
        let ghost s1 = self.settings;
        proof {
            assert(s1 == settings_after_count(s0, take as nat));
        }
        let ghost mut control: Option<ProtocolControlMessage> = None;
        match &message {
            Some(m) => {
                if csid == PROTOCOL_CONTROL_CHUNK_STREAM_ID && m.stream_id == 0 {
                    match ProtocolControlMessage::parse(m.type_id, m.payload.as_slice()) {
                        Err(e) => {
                            return Err(e);
                        },
                        Ok(Some(c)) => {
                            proof {
                                control = Some(c);
                            }
                            match self.apply_control(c) {
                                Some(reply) => replies.push(reply),
                                None => {},
                            }
                        },
                        Ok(None) => {},
                    }
                }
            },
            None => {},
        }
        proof {
            assert(control == chunk_control(m0, s0.incoming_chunk_size, input@));
            let m2 = stream_map_contents(self.incoming);
            match control {
                Some(ProtocolControlMessage::AbortMessage { chunk_stream_id }) => {
                    assert forall|k: u32| #[trigger] m2.contains_key(k) implies m2[k].payload@.len() <= m2[k].header.message_length by {
                        assert(m1.contains_key(k));
                    }
                    if chunk_stream_id != csid {
                        assert(m0.insert(csid, m2[csid]) =~= m1) by {
                            assert forall|k: u32| m1.contains_key(k) <==> #[trigger] m0.insert(csid, m2[csid]).contains_key(k) by {
                                if k != csid {
                                    assert(lookup(m1, k) == lookup(m0, k));
                                }
                            }
                            assert forall|k: u32| #[trigger] m1.contains_key(k) implies m1[k] == m0.insert(csid, m2[csid])[k] by {
                                if k != csid {
                                    assert(lookup(m1, k) == lookup(m0, k));
                                }
                            }
                        }
                    }
                },
                _ => {},
            }
            assert(replies_expected(replies@, ack_due(s0, take as nat), s1, control));
        }
        Ok(ChunkRead::Chunk { consumed, message, replies })
    }

    /// Reads the header and payload of one chunk and updates the chunk
    /// stream's inbound state; returns the bytes consumed, the message that
    /// the chunk completed, and the chunk stream id. `None` where the input
    /// ends before the chunk does.
    fn reassemble(&mut self, input: &[u8]) -> (r: Result<Option<(usize, usize, Option<Message>, u32)>, RatmapError>)
        requires
            old(self).wf(),
        ensures
            final(self).outgoing == old(self).outgoing,
            final(self).settings == old(self).settings,
            ({
                let m0 = stream_map_contents(old(self).incoming);
                let cs = old(self).settings.incoming_chunk_size;
                let outcome = chunk_outcome(m0, cs, input@);
                let csid = input_csid(input@);
                let st = chunk_st(m0, input@);
                let data = chunk_data(m0, cs, input@);
                let complete = data.len() == st.message_length;
                let m1 = stream_map_contents(final(self).incoming);
                &&& outcome == ChunkOutcome::Incomplete ==> r == Ok::<_, RatmapError>(None::<(usize, usize, Option<Message>, u32)>) && m1 == m0
                &&& outcome == ChunkOutcome::Dangling ==> r == Err::<Option<(usize, usize, Option<Message>, u32)>, _>(RatmapError::ProtocolError)
                &&& outcome == ChunkOutcome::Ready ==> (r matches Ok(Some((consumed, take, message, c))) && c == csid
                    && take == chunk_take(m0, cs, input@) && take <= cs
                    && consumed == chunk_parsed(m0, input@)->Some_0.1 + chunk_take(m0, cs, input@)
                    && consumed <= input@.len()
                    && (message is Some <==> complete)
                    && (message matches Some(m) ==> m.type_id == st.message_type_id
                        && m.stream_id == st.message_stream_id && m.timestamp == st.last_timestamp
                        && m.payload@ == data)
                    && m1.contains_key(csid)
                    && m1[csid].header == st
                    && m1[csid].payload@ == (if complete { seq![] } else { data })
                    && m1[csid].payload@.len() <= st.message_length
                    && (forall|k: u32| k != csid ==> #[trigger] lookup(m1, k) == lookup(m0, k)))
            }),
    {
        let ghost m0 = stream_map_contents(self.incoming);
        let (basic, _) = match crate::basic::BasicHeader::read(input) {
            Some(p) => p,
            None => {
                proof { crate::basic::lemma_parse_basic_none(input@); }
                return Ok(None);
            },
        };
        let csid = basic.chunk_stream_id();
        let prev = stream_map_remove(&mut self.incoming, csid);
        let in_effect = match &prev {
            Some(p) => p.header.extended_timestamp.is_some(),
            None => false,
        };
        let (h, n) = match Header::read(input, in_effect) {
            Some(p) => p,
            None => {
                self.restore_incoming(csid, prev);
                proof { assert(stream_map_contents(self.incoming) =~= m0); }
                return Ok(None);
            },
        };
        let is_continuation = match &prev {
            Some(p) => h.message_header.is_continue() && p.payload.len() > 0,
            None => false,
        };
        let prev_header = match &prev {
            Some(p) => Some(p.header),
            None => None,
        };
        let st = if is_continuation {
            prev_header.unwrap()
        } else {
            match apply_header(prev_header, &h) {
                Some(st) => st,
                None => {
                    return Err(RatmapError::ProtocolError);
                },
            }
        };
        let buffered_len: usize = if is_continuation {
            match &prev {
                Some(p) => p.payload.len(),
                None => 0,
            }
        } else {
            0
        };
        let remaining = st.message_length as usize - buffered_len;
        let cs = self.settings.incoming_chunk_size as usize;
        let take: usize = if remaining <= cs { remaining } else { cs };
        if input.len() - n < take {
            self.restore_incoming(csid, prev);
            proof { assert(stream_map_contents(self.incoming) =~= m0); }
            return Ok(None);
        }
        let mut data: Vec<u8> = if is_continuation {
            match prev {
                Some(p) => p.payload,
                None => Vec::new(),
            }
        } else {
            Vec::new()
        };
        append_range(&mut data, input, n, n + take);
        let complete = data.len() == st.message_length as usize;
        let message = if complete {
            stream_map_insert(&mut self.incoming, csid, ChunkStreamState { header: st, payload: Vec::new() });
            Some(Message { type_id: st.message_type_id, stream_id: st.message_stream_id, timestamp: st.last_timestamp, payload: data })
        } else {
            stream_map_insert(&mut self.incoming, csid, ChunkStreamState { header: st, payload: data });
            None
        };
        Ok(Some((n + take, take, message, csid)))
    }

    /// Puts back the inbound state taken out for a chunk that was not read.
    fn restore_incoming(&mut self, csid: u32, prev: Option<ChunkStreamState>)
        ensures
            final(self).outgoing == old(self).outgoing,
            final(self).settings == old(self).settings,
            stream_map_contents(final(self).incoming) == (match prev {
                Some(p) => stream_map_contents(old(self).incoming).insert(csid, p),
                None => stream_map_contents(old(self).incoming),
            }),
    {
        match prev {
            Some(p) => stream_map_insert(&mut self.incoming, csid, p),
            None => {},
        }
    }

    /// Counts `n` received payload bytes; returns the Acknowledgement that is
    /// due, if one is.
    fn count_received(&mut self, n: u32) -> (r: Option<Message>)
        requires
            old(self).settings.bytes_since_ack < 0x1_0000_0000,
        ensures
            final(self).incoming == old(self).incoming,
            final(self).outgoing == old(self).outgoing,
            ({
                let s0 = old(self).settings;
                let since = s0.bytes_since_ack + n;
                let received = wrap_add(s0.bytes_received, n);
                let ack_due = since >= s0.ack_window;
                &&& final(self).settings == DirectionSettings {
                    bytes_since_ack: if ack_due { 0 } else { since as u64 },
                    bytes_received: received,
                    ..s0
                }
                &&& (r is Some <==> ack_due)
                &&& (r matches Some(m) ==> is_acknowledgement(m, received))
            }),
    {
        let since = self.settings.bytes_since_ack + n as u64;
        self.settings.bytes_received = self.settings.bytes_received.wrapping_add(n);
        if since >= self.settings.ack_window as u64 {
            self.settings.bytes_since_ack = 0;
            let ack = ProtocolControlMessage::Acknowledgement { sequence_number: self.settings.bytes_received };
            Some(ack.to_message(0))
        } else {
            self.settings.bytes_since_ack = since;
            None
        }
    }

    /// Applies a control message received on chunk stream `csid`; returns the
    /// WindowAckSize reply that a changed peer bandwidth calls for.
    fn apply_control(&mut self, c: ProtocolControlMessage) -> (r: Option<Message>)
        ensures
            final(self).outgoing == old(self).outgoing,
            final(self).settings == settings_after_control(old(self).settings, c),
            match c {
                ProtocolControlMessage::AbortMessage { chunk_stream_id } => aborted(stream_map_contents(old(self).incoming), stream_map_contents(final(self).incoming), chunk_stream_id),
                _ => final(self).incoming == old(self).incoming,
            },
            match c {
                ProtocolControlMessage::SetPeerBandwidth { .. } => {
                    let w = final(self).settings.peer_bandwidth;
                    &&& (w != old(self).settings.peer_bandwidth ==> (r matches Some(m) && is_window_ack_size(m, w)))
                    &&& (w == old(self).settings.peer_bandwidth ==> r is None)
                },
                _ => r is None,
            },
    {
        match c {
            ProtocolControlMessage::SetChunkSize(v) => {
                self.settings.incoming_chunk_size = v;
                None
            },
            ProtocolControlMessage::AbortMessage { chunk_stream_id } => {
                let ghost before = stream_map_contents(self.incoming);
                match stream_map_remove(&mut self.incoming, chunk_stream_id) {
                    Some(p) => {
                        stream_map_insert(&mut self.incoming, chunk_stream_id, ChunkStreamState { header: p.header, payload: Vec::new() });
                        proof { assert(stream_map_contents(self.incoming).dom() =~= before.dom()); }
                    },
                    None => {
                        proof { assert(stream_map_contents(self.incoming) =~= before); }
                    },
                }
                None
            },
            ProtocolControlMessage::Acknowledgement { .. } => None,
            ProtocolControlMessage::WindowAcknowledgementSize(v) => {
                self.settings.ack_window = v;
                None
            },
            ProtocolControlMessage::SetPeerBandwidth { acknowledgement_window_size, limit_type } => {
                let current = self.settings.peer_bandwidth;
                let (w, l) = match limit_type {
                    LimitType::Hard => (acknowledgement_window_size, Some(LimitType::Hard)),
                    LimitType::Soft => (if acknowledgement_window_size < current { acknowledgement_window_size } else { current }, Some(LimitType::Soft)),
                    LimitType::Dynamic => if self.settings.peer_limit == Some(LimitType::Hard) {
                        (acknowledgement_window_size, Some(LimitType::Hard))
                    } else {
                        (current, self.settings.peer_limit)
                    },
                };
                self.settings.peer_bandwidth = w;
                self.settings.peer_limit = l;
                if w != current {
                    Some(ProtocolControlMessage::WindowAcknowledgementSize(w).to_message(0))
                } else {
                    None
                }
            },
        }
    }
}

/// The header chosen for an outbound message begins it with the message's
/// own timestamp, length, type and message stream.
pub proof fn lemma_outbound_begins(
    csid: u32,
    prev: Option<CompressionState>,
    timestamp: u32,
    message_length: u32,
    message_type_id: u8,
    message_stream_id: u32,
)
    requires
        2 <= csid <= 65599,
        message_length <= 0xFFFFFF,
    ensures
        ({
            let h = outbound_header(csid, prev, timestamp, message_length, message_type_id, message_stream_id);
            let st = begin_state(prev, h);
            &&& st is Some
            &&& st->Some_0.last_timestamp == timestamp
            &&& st->Some_0.message_length == message_length
            &&& st->Some_0.message_type_id == message_type_id
            &&& st->Some_0.message_stream_id == message_stream_id
        }),
{
    match prev {
        None => {},
        Some(p) => {
            lemma_wrap_sub_add(p.last_timestamp, timestamp);
        },
    }
}

/// Adding the serial distance from `a` to `b` to `a` gives `b`.
pub proof fn lemma_wrap_sub_add(a: u32, b: u32)
    ensures
        wrap_add(a, wrap_sub(b, a)) == b,
{
    if b >= a {
        assert((b as int - a as int) % 0x1_0000_0000 == b as int - a as int);
        assert((a as int + (b as int - a as int)) % 0x1_0000_0000 == b as int);
    } else {
        assert((b as int - a as int) % 0x1_0000_0000 == b as int - a as int + 0x1_0000_0000);
        assert((a as int + (b as int - a as int + 0x1_0000_0000)) % 0x1_0000_0000 == b as int);
    }
}
/// A delta step wraps: after a type-1 or type-2 header with delta `b` on a
/// chunk stream whose last timestamp is `a`, or a type-3 header beginning a
/// message on one whose last delta is `b`, the message's timestamp is
/// `(a + b) mod 2^32`, for every `a` and `b`.
pub proof fn lemma_timestamp_wrap(a: u32, b: u32, prev: CompressionState, csid: u32, len: u32, type_id: u8)
    requires
        prev.last_timestamp == a,
        2 <= csid <= 65599,
        len <= 0xFFFFFF,
    ensures
        begin_state(Some(prev), header_type1(csid, b, len, type_id)->Ok_0)->Some_0.last_timestamp
            == (a as int + b as int) % 0x1_0000_0000,
        begin_state(Some(prev), header_type2(csid, b)->Ok_0)->Some_0.last_timestamp == (a as int
            + b as int) % 0x1_0000_0000,
        prev.last_delta == b ==> begin_state(
            Some(prev),
            header_type3(csid, prev.extended_timestamp)->Ok_0,
        )->Some_0.last_timestamp == (a as int + b as int) % 0x1_0000_0000,
{
}

/// One continuation chunk, read by a chunk stream that holds the message's
/// first `pos` bytes, adds the next piece of the payload.
proof fn lemma_read_one_continuation(
    csid: u32,
    st: CompressionState,
    cs: u32,
    payload: Seq<u8>,
    pos: int,
    end: int,
    rest: Seq<u8>,
)
    requires
        2 <= csid <= 65599,
        cs >= 1,
        st.message_length == payload.len(),
        0 < pos < end <= payload.len(),
        end == if payload.len() - pos <= cs { payload.len() as int } else { pos + cs },
    ensures
        ({
            let h3b = header_bytes(header_type3(csid, st.extended_timestamp)->Ok_0);
            let cont = continuation_chunks(h3b, payload.skip(pos), cs as nat);
            let tail = continuation_chunks(h3b, payload.skip(end), cs as nat);
            let n = h3b.len();
            &&& cont == h3b + payload.subrange(pos, end) + tail
            &&& recv_chunk(Some((st, payload.take(pos))), cs, cont + rest) == Some(
                (st, payload.take(end), (n + end - pos) as nat),
            )
        }),
{
    let h3 = header_type3(csid, st.extended_timestamp)->Ok_0;
    lemma_constructors_wf(csid, 0, 0, 0, 0, st.extended_timestamp);
    let h3b = header_bytes(h3);
    lemma_continuation_step(h3b, payload, pos, end, cs as nat);
    let tail = continuation_chunks(h3b, payload.skip(end), cs as nat);
    let piece = payload.subrange(pos, end);
    let input = continuation_chunks(h3b, payload.skip(pos), cs as nat) + rest;
    assert(input =~= h3b + (piece + tail + rest));
    crate::header::lemma_header_round_trip(h3, st.extended_timestamp is Some, piece + tail + rest);
    crate::header::lemma_size_law(h3);
    let p = Some((st, payload.take(pos)));
    let n = h3b.len();
    assert(parse_header(input, extended_in_effect(p)) == Some((h3, n)));
    assert(continues(p, h3));
    assert(chunk_state(p, h3) == Some(st));
    assert(buffered(p, h3) == payload.take(pos));
    let take = chunk_payload_len(cs, st, buffered(p, h3).len());
    assert(take == end - pos);
    assert(input.subrange(n as int, (n + take) as int) =~= piece);
    assert(payload.take(pos) + piece =~= payload.take(end));
}

/// The continuation chunks of a message, read by a chunk stream that holds
/// the message's first `done` bytes, complete it: they give back the whole
/// payload and consume exactly their own bytes.
proof fn lemma_read_continuations(
    csid: u32,
    st: CompressionState,
    cs: u32,
    payload: Seq<u8>,
    done: nat,
    rest: Seq<u8>,
    fuel: nat,
)
    requires
        2 <= csid <= 65599,
        cs >= 1,
        st.message_length == payload.len(),
        0 < done < payload.len(),
        fuel >= payload.len() - done,
    ensures
        ({
            let h3b = header_bytes(header_type3(csid, st.extended_timestamp)->Ok_0);
            let cont = continuation_chunks(h3b, payload.skip(done as int), cs as nat);
            recv_message(Some((st, payload.take(done as int))), cs, cont + rest, fuel) == Some(
                (st, payload, cont.len()),
            )
        }),
    decreases payload.len() - done,
{
    let h3b = header_bytes(header_type3(csid, st.extended_timestamp)->Ok_0);
    let len = payload.len() as int;
    let pos = done as int;
    let end = if len - pos <= cs { len } else { pos + cs };
    lemma_read_one_continuation(csid, st, cs, payload, pos, end, rest);
    let cont = continuation_chunks(h3b, payload.skip(pos), cs as nat);
    let tail = continuation_chunks(h3b, payload.skip(end), cs as nat);
    let n = h3b.len();
    let consumed = (n + end - pos) as nat;
    if end == len {
        assert(payload.take(end) =~= payload);
        assert(payload.skip(end).len() == 0);
        assert(tail == Seq::<u8>::empty());
    } else {
        assert((cont + rest).skip(consumed as int) =~= tail + rest);
        lemma_read_continuations(csid, st, cs, payload, end as nat, rest, (fuel - 1) as nat);
    }
}

/// The header chosen for an outbound message is well formed, and a type-3
/// one repeats exactly the extended timestamp of the chunk stream's state.
proof fn lemma_outbound_header_wf(
    csid: u32,
    sender: Option<CompressionState>,
    timestamp: u32,
    len: u32,
    type_id: u8,
    stream_id: u32,
)
    requires
        2 <= csid <= 65599,
        len <= 0xFFFFFF,
    ensures
        outbound_header(csid, sender, timestamp, len, type_id, stream_id).wf(),
        outbound_header(csid, sender, timestamp, len, type_id, stream_id).message_header is ContinueMessage
            ==> sender is Some && outbound_header(csid, sender, timestamp, len, type_id, stream_id).extended_timestamp
            == sender->Some_0.extended_timestamp,
{
    let delta = wrap_sub(timestamp, if sender is Some { sender->Some_0.last_timestamp } else { 0 });
    lemma_constructors_wf(csid, timestamp, len, type_id, stream_id, if sender is Some { sender->Some_0.extended_timestamp } else { None });
    lemma_constructors_wf(csid, delta, len, type_id, stream_id, None);
}

/// The receiver's view of a chunk stream whose state matches the sender's.
pub open spec fn matching_view(sender: Option<CompressionState>) -> Option<(CompressionState, Seq<u8>)> {
    match sender {
        Some(s) => Some((s, Seq::<u8>::empty())),
        None => None,
    }
}

/// The first chunk of a framed message, read by a matching receiver, begins
/// the message in the sender's new state with the chunk's payload bytes.
proof fn lemma_read_first_chunk(csid: u32, sender: Option<CompressionState>, chunk_size: u32, m: Message, rest: Seq<u8>)
    requires
        2 <= csid <= 65599,
        m.payload@.len() <= 0xFFFFFF,
        chunk_size >= 1,
    ensures
        ({
            let payload = m.payload@;
            let h = outbound_header(csid, sender, m.timestamp, payload.len() as u32, m.type_id, m.stream_id);
            let first = min_nat(chunk_size as nat, payload.len());
            let st = sent_state(sender, csid, m);
            let h3b = header_bytes(header_type3(csid, st.extended_timestamp)->Ok_0);
            let cont = continuation_chunks(h3b, payload.skip(first as int), chunk_size as nat);
            &&& frame_message(csid, sender, chunk_size, m) == header_bytes(h) + payload.take(first as int) + cont
            &&& recv_chunk(matching_view(sender), chunk_size, frame_message(csid, sender, chunk_size, m) + rest)
                == Some((st, payload.take(first as int), header_bytes(h).len() + first))
        }),
{
    let payload = m.payload@;
    let len = payload.len();
    let h = outbound_header(csid, sender, m.timestamp, len as u32, m.type_id, m.stream_id);
    lemma_outbound_begins(csid, sender, m.timestamp, len as u32, m.type_id, m.stream_id);
    lemma_outbound_header_wf(csid, sender, m.timestamp, len as u32, m.type_id, m.stream_id);
    let st = begin_state(sender, h)->Some_0;
    let receiver = matching_view(sender);
    let first = min_nat(chunk_size as nat, len);
    let h3b = header_bytes(header_type3(csid, st.extended_timestamp)->Ok_0);
    let cont = continuation_chunks(h3b, payload.skip(first as int), chunk_size as nat);
    let frame = frame_message(csid, sender, chunk_size, m);
    let input = frame + rest;
    assert(input =~= header_bytes(h) + (payload.take(first as int) + cont + rest));
    crate::header::lemma_header_round_trip(h, extended_in_effect(receiver), payload.take(first as int) + cont + rest);
    crate::header::lemma_size_law(h);
    let n = header_bytes(h).len();
    assert(parse_header(input, extended_in_effect(receiver)) == Some((h, n)));
    assert(!continues(receiver, h));
    assert(view_header(receiver) == sender);
    assert(chunk_state(receiver, h) == Some(st));
    assert(input.subrange(n as int, (n + first) as int) =~= payload.take(first as int));
    assert(Seq::<u8>::empty() + payload.take(first as int) =~= payload.take(first as int));
}

/// Message integrity: a message framed by `send` on a chunk stream, read by
/// a receiver whose state for that chunk stream matches the sender's (the
/// same compression state and nothing buffered), comes out whole: the
/// receiver completes it after reading exactly its frame, with its payload,
/// and with the type, message stream and timestamp it was sent with. Both
/// sides then hold the same compression state again, so the law carries on
/// to every later message on the chunk stream.
pub proof fn lemma_message_integrity(
    csid: u32,
    sender: Option<CompressionState>,
    chunk_size: u32,
    m: Message,
    rest: Seq<u8>,
)
    requires
        2 <= csid <= 65599,
        m.payload@.len() <= 0xFFFFFF,
        chunk_size >= 1,
    ensures
        ({
            let frame = frame_message(csid, sender, chunk_size, m);
            let st = sent_state(sender, csid, m);
            &&& recv_message(matching_view(sender), chunk_size, frame + rest, m.payload@.len() + 1)
                == Some((st, m.payload@, frame.len()))
            &&& st.message_type_id == m.type_id
            &&& st.message_stream_id == m.stream_id
            &&& st.last_timestamp == m.timestamp
            &&& st.message_length == m.payload@.len()
        }),
{
    let payload = m.payload@;
    let len = payload.len();
    lemma_outbound_begins(csid, sender, m.timestamp, len as u32, m.type_id, m.stream_id);
    lemma_read_first_chunk(csid, sender, chunk_size, m, rest);
    let h = outbound_header(csid, sender, m.timestamp, len as u32, m.type_id, m.stream_id);
    let st = sent_state(sender, csid, m);
    let first = min_nat(chunk_size as nat, len);
    let n = header_bytes(h).len();
    let h3b = header_bytes(header_type3(csid, st.extended_timestamp)->Ok_0);
    let cont = continuation_chunks(h3b, payload.skip(first as int), chunk_size as nat);
    let frame = frame_message(csid, sender, chunk_size, m);
    let input = frame + rest;
    if first == len {
        assert(payload.take(first as int) =~= payload);
        assert(payload.skip(first as int).len() == 0);
        assert(cont == Seq::<u8>::empty());
    } else {
        assert(input.skip((n + first) as int) =~= cont + rest);
        lemma_read_continuations(csid, st, chunk_size, payload, first, rest, len);
    }
}

/// Re-encoding keeps the message stream: framed on any chunk streams,
/// against any sender states and chunk sizes (so possibly with other header
/// types and other chunk boundaries), a message reaches a matching receiver
/// with the same type, message stream, timestamp and payload both times.
pub proof fn lemma_reencoding_keeps_messages(
    csid1: u32,
    sender1: Option<CompressionState>,
    chunk_size1: u32,
    csid2: u32,
    sender2: Option<CompressionState>,
    chunk_size2: u32,
    m: Message,
)
    requires
        2 <= csid1 <= 65599,
        2 <= csid2 <= 65599,
        m.payload@.len() <= 0xFFFFFF,
        chunk_size1 >= 1,
        chunk_size2 >= 1,
    ensures
        ({
            let fuel = m.payload@.len() + 1;
            let r1 = recv_message(matching_view(sender1), chunk_size1, frame_message(csid1, sender1, chunk_size1, m), fuel);
            let r2 = recv_message(matching_view(sender2), chunk_size2, frame_message(csid2, sender2, chunk_size2, m), fuel);
            &&& r1 is Some && r2 is Some
            &&& r1->Some_0.1 == r2->Some_0.1
            &&& r1->Some_0.0.message_type_id == r2->Some_0.0.message_type_id
            &&& r1->Some_0.0.message_stream_id == r2->Some_0.0.message_stream_id
            &&& r1->Some_0.0.last_timestamp == r2->Some_0.0.last_timestamp
        }),
{
    lemma_message_integrity(csid1, sender1, chunk_size1, m, Seq::<u8>::empty());
    lemma_message_integrity(csid2, sender2, chunk_size2, m, Seq::<u8>::empty());
    assert(frame_message(csid1, sender1, chunk_size1, m) + Seq::<u8>::empty() =~= frame_message(csid1, sender1, chunk_size1, m));
    assert(frame_message(csid2, sender2, chunk_size2, m) + Seq::<u8>::empty() =~= frame_message(csid2, sender2, chunk_size2, m));
}

} // verus!
