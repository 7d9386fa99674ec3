//! Per-chunk-stream state, kept in a concurrent hash map keyed by chunk
//! stream id.
use vstd::prelude::*;

use dashmap::DashMap;
use rustc_hash::FxBuildHasher;

verus! {

#[verifier::external_type_specification]
#[verifier::external_body]
#[verifier::reject_recursive_types(K)]
#[verifier::reject_recursive_types(V)]
#[verifier::reject_recursive_types(S)]
pub struct ExDashMap<K, V, S>(DashMap<K, V, S>);

#[verifier::external_type_specification]
#[verifier::external_body]
pub struct ExFxBuildHasher(FxBuildHasher);

/// What one direction remembers of the last message begun on a chunk
/// stream: the fields that later headers may leave out.
#[derive(Debug, Clone, Copy, PartialEq, Eq, Structural)]
pub struct CompressionState {
    /// Timestamp of the last message begun on this chunk stream.
    pub last_timestamp: u32,
    /// The delta that a type-3 header beginning a message repeats.
    pub last_delta: u32,
    pub message_length: u32,
    pub message_type_id: u8,
    pub message_stream_id: u32,
    /// The extended timestamp of the last type-0, 1 or 2 header, where it had
    /// one; while it is set, type-3 chunks repeat it.
    pub extended_timestamp: Option<u32>,
}

/// What one direction keeps of one chunk stream.
#[derive(Debug, Clone, PartialEq, Eq)]
pub struct ChunkStreamState {
    pub header: CompressionState,
    /// Bytes of the message being reassembled; empty between messages.
    pub payload: Vec<u8>,
}

/// The chunk stream states of one direction.
pub type ChunkStreamMap = DashMap<u32, ChunkStreamState, FxBuildHasher>;

/// What a chunk stream map holds.
pub uninterp spec fn stream_map_contents(m: DashMap<u32, ChunkStreamState, FxBuildHasher>) -> Map<
    u32,
    ChunkStreamState,
>;

/// Relies on DashMap::with_hasher: a new map is empty.
#[verifier::external_body]
pub(crate) fn new_stream_map() -> (r: ChunkStreamMap)
    ensures
        forall|k: u32| !#[trigger] stream_map_contents(r).contains_key(k),
{
    DashMap::with_hasher(FxBuildHasher)
}

/// Relies on DashMap::insert: afterwards `key` maps to `value`, and every
/// other key is as it was.
#[verifier::external_body]
pub(crate) fn stream_map_insert(m: &mut ChunkStreamMap, key: u32, value: ChunkStreamState)
    ensures
        stream_map_contents(*final(m)) == stream_map_contents(*old(m)).insert(key, value),
{
    m.insert(key, value);
}

/// Relies on DashMap::remove: returns the value that `key` mapped to, if
/// any, and afterwards `key` maps to nothing.
#[verifier::external_body]
pub(crate) fn stream_map_remove(m: &mut ChunkStreamMap, key: u32) -> (r: Option<ChunkStreamState>)
    ensures
        r == (if stream_map_contents(*old(m)).contains_key(key) {
            Some(stream_map_contents(*old(m))[key])
        } else {
            None
        }),
        stream_map_contents(*final(m)) == stream_map_contents(*old(m)).remove(key),
{
    m.remove(&key).map(|(_, v)| v)
}

} // verus!
