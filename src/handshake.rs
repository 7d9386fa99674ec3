//! The handshake that opens every connection: each side sends its version
//! (C0/S0), a timestamp with 1528 random bytes (C1/S1), and an echo of the
//! other's (C2/S2). This module builds and checks the packets; the caller
//! moves them.
use vstd::prelude::*;

use crate::bytes::{be32, get_be32, push_be32, read_be32};
use crate::error::RatmapError;
use crate::stream::wrap_sub;

verus! {

/// The RTMP version this endpoint speaks.
pub const RTMP_VERSION: u8 = 3;

/// The length of the random block of C1/S1 and C2/S2.
pub const RANDOM_LEN: usize = 1528;

/// The length of C1/S1 and of C2/S2.
pub const PACKET_LEN: usize = 1536;

/// The bytes of C0 and C1: the version, our timestamp, four zero bytes and
/// our random block.
pub open spec fn c0_c1_bytes(timestamp: u32, random: Seq<u8>) -> Seq<u8> {
    seq![3u8] + be32(timestamp as int) + be32(0) + random
}

/// The bytes of C2: the peer's timestamp, the time we received its S1, and
/// its random block.
pub open spec fn c2_bytes(their_timestamp: u32, received_at: u32, their_random: Seq<u8>) -> Seq<u8> {
    be32(their_timestamp as int) + be32(received_at as int) + their_random
}

/// One side of a handshake: what we sent, and what we learnt of the peer.
pub struct Handshake {
    /// The timestamp we sent in C1.
    pub our_timestamp: u32,
    /// The random block we sent in C1.
    pub our_random: Vec<u8>,
    /// The timestamp the peer sent in S1, once received.
    pub their_timestamp: u32,
}

impl Handshake {
    /// A handshake that sends `our_timestamp` and `our_random`, which must be
    /// 1528 bytes long.
    pub fn new(our_timestamp: u32, our_random: Vec<u8>) -> (r: Handshake)
        requires
            our_random@.len() == 1528,
        ensures
            r.our_timestamp == our_timestamp,
            r.our_random@ == our_random@,
            r.their_timestamp == 0,
    {
        Handshake { our_timestamp, our_random, their_timestamp: 0 }
    }

    /// The bytes of C0 and C1.
    pub fn c0_c1(&self) -> (r: Vec<u8>)
        ensures
            r@ == c0_c1_bytes(self.our_timestamp, self.our_random@),
    {
        let mut out: Vec<u8> = Vec::new();
        out.push(RTMP_VERSION);
        push_be32(&mut out, self.our_timestamp);
        push_be32(&mut out, 0);
        let mut i: usize = 0;
        while i < self.our_random.len()
            invariant
                i <= self.our_random@.len(),
                out@ == seq![3u8] + be32(self.our_timestamp as int) + be32(0) + self.our_random@.take(
                    i as int,
                ),
            decreases self.our_random@.len() - i,
        {
            out.push(self.our_random[i]);
            i = i + 1;
            assert(out@ =~= seq![3u8] + be32(self.our_timestamp as int) + be32(0)
                + self.our_random@.take(i as int));
        }
        assert(self.our_random@.take(i as int) =~= self.our_random@);
        out
    }

    /// Checks S0 and S1 (1537 bytes), received when our clock read
    /// `received_at`, and returns C2. `UnsupportedVersion` where S0 is not 3;
    /// `BadHandshake` where the four bytes after the peer's timestamp are not
    /// zero.
    pub fn receive_s0_s1(&mut self, input: &[u8], received_at: u32) -> (r: Result<
        Vec<u8>,
        RatmapError,
    >)
        requires
            input@.len() == 1537,
        ensures
            final(self).our_timestamp == old(self).our_timestamp,
            final(self).our_random@ == old(self).our_random@,
            input@[0] != 3 ==> r == Err::<Vec<u8>, _>(RatmapError::UnsupportedVersion),
            input@[0] == 3 && get_be32(input@, 5) != 0 ==> r == Err::<Vec<u8>, _>(
                RatmapError::BadHandshake,
            ),
            r is Ok <==> input@[0] == 3 && get_be32(input@, 5) == 0,
            r is Ok ==> final(self).their_timestamp == get_be32(input@, 1),
            r matches Ok(c2) ==> c2@ == c2_bytes(
                get_be32(input@, 1) as u32,
                received_at,
                input@.subrange(9, 1537),
            ),
    {
        if input[0] != RTMP_VERSION {
            return Err(RatmapError::UnsupportedVersion);
        }
        let their_timestamp = read_be32(input, 1);
        if read_be32(input, 5) != 0 {
            return Err(RatmapError::BadHandshake);
        }
        self.their_timestamp = their_timestamp;
        let mut out: Vec<u8> = Vec::new();
        push_be32(&mut out, their_timestamp);
        push_be32(&mut out, received_at);
        let mut i: usize = 9;
        while i < PACKET_LEN + 1
            invariant
                9 <= i <= 1537,
                input@.len() == 1537,
                out@ == be32(their_timestamp as int) + be32(received_at as int) + input@.subrange(
                    9,
                    i as int,
                ),
            decreases 1537 - i,
        {
            out.push(input[i]);
            i = i + 1;
            assert(out@ =~= be32(their_timestamp as int) + be32(received_at as int)
                + input@.subrange(9, i as int));
        }
        Ok(out)
    }

    /// Checks S2 (1536 bytes) and returns the latency estimate: the time the
    /// peer received our C1 less the timestamp of its S1, modulo 2^32.
    /// `BadHandshake` where S2 does not echo our timestamp or our random
    /// block.
    pub fn receive_s2(&self, input: &[u8]) -> (r: Result<u32, RatmapError>)
        requires
            input@.len() == 1536,
            self.our_random@.len() == 1528,
        ensures
            r is Ok <==> get_be32(input@, 0) == self.our_timestamp && input@.subrange(8, 1536)
                == self.our_random@,
            r is Err ==> r == Err::<u32, _>(RatmapError::BadHandshake),
            r matches Ok(latency) ==> latency == wrap_sub(
                get_be32(input@, 4) as u32,
                self.their_timestamp,
            ),
    {
        if read_be32(input, 0) != self.our_timestamp {
            return Err(RatmapError::BadHandshake);
        }
        let they_received_at = read_be32(input, 4);
        let mut i: usize = 0;
        while i < RANDOM_LEN
            invariant
                i <= 1528,
                input@.len() == 1536,
                self.our_random@.len() == 1528,
                forall|j: int| 0 <= j < i ==> input@[8 + j] == self.our_random@[j],
            decreases 1528 - i,
        {
            if input[8 + i] != self.our_random[i] {
                proof {
                    assert(input@.subrange(8, 1536)[i as int] != self.our_random@[i as int]);
                }
                return Err(RatmapError::BadHandshake);
            }
            i = i + 1;
        }
        assert(input@.subrange(8, 1536) =~= self.our_random@);
        Ok(they_received_at.wrapping_sub(self.their_timestamp))
    }
}

} // verus!
