//! Fixed-width integers on the wire: big-endian 3- and 4-byte fields and the
//! little-endian 4-byte message stream id.
use vstd::prelude::*;

verus! {

/// Three bytes, most significant first, of a value below 2^24.
pub open spec fn be24(v: int) -> Seq<u8> {
    seq![((v / 0x10000) % 0x100) as u8, ((v / 0x100) % 0x100) as u8, (v % 0x100) as u8]
}

/// Four bytes, most significant first.
pub open spec fn be32(v: int) -> Seq<u8> {
    seq![
        ((v / 0x1000000) % 0x100) as u8,
        ((v / 0x10000) % 0x100) as u8,
        ((v / 0x100) % 0x100) as u8,
        (v % 0x100) as u8,
    ]
}

/// Four bytes, least significant first.
pub open spec fn le32(v: int) -> Seq<u8> {
    seq![
        (v % 0x100) as u8,
        ((v / 0x100) % 0x100) as u8,
        ((v / 0x10000) % 0x100) as u8,
        ((v / 0x1000000) % 0x100) as u8,
    ]
}

/// The big-endian value of the three bytes of `s` from `at`.
pub open spec fn get_be24(s: Seq<u8>, at: int) -> int {
    s[at] * 0x10000 + s[at + 1] * 0x100 + s[at + 2]
}

/// The big-endian value of the four bytes of `s` from `at`.
pub open spec fn get_be32(s: Seq<u8>, at: int) -> int {
    s[at] * 0x1000000 + s[at + 1] * 0x10000 + s[at + 2] * 0x100 + s[at + 3]
}

/// The little-endian value of the four bytes of `s` from `at`.
pub open spec fn get_le32(s: Seq<u8>, at: int) -> int {
    s[at] + s[at + 1] * 0x100 + s[at + 2] * 0x10000 + s[at + 3] * 0x1000000
}

pub proof fn lemma_be24_round_trip(v: int, s: Seq<u8>, at: int)
    requires
        0 <= v < 0x1000000,
        0 <= at,
        at + 3 <= s.len(),
        s.subrange(at, at + 3) == be24(v),
    ensures
        get_be24(s, at) == v,
{
    assert(s[at] == be24(v)[0] && s[at + 1] == be24(v)[1] && s[at + 2] == be24(v)[2]);
    assert(get_be24(s, at) == v) by (nonlinear_arith)
        requires
            0 <= v < 0x1000000,
            s[at] == ((v / 0x10000) % 0x100) as u8,
            s[at + 1] == ((v / 0x100) % 0x100) as u8,
            s[at + 2] == (v % 0x100) as u8,
            get_be24(s, at) == s[at] * 0x10000 + s[at + 1] * 0x100 + s[at + 2],
    ;
}

pub proof fn lemma_be32_round_trip(v: int, s: Seq<u8>, at: int)
    requires
        0 <= v < 0x1_0000_0000,
        0 <= at,
        at + 4 <= s.len(),
        s.subrange(at, at + 4) == be32(v),
    ensures
        get_be32(s, at) == v,
{
    assert(s[at] == be32(v)[0] && s[at + 1] == be32(v)[1] && s[at + 2] == be32(v)[2]
        && s[at + 3] == be32(v)[3]);
    assert(get_be32(s, at) == v) by (nonlinear_arith)
        requires
            0 <= v < 0x1_0000_0000,
            s[at] == ((v / 0x1000000) % 0x100) as u8,
            s[at + 1] == ((v / 0x10000) % 0x100) as u8,
            s[at + 2] == ((v / 0x100) % 0x100) as u8,
            s[at + 3] == (v % 0x100) as u8,
            get_be32(s, at) == s[at] * 0x1000000 + s[at + 1] * 0x10000 + s[at + 2] * 0x100
                + s[at + 3],
    ;
}

pub proof fn lemma_le32_round_trip(v: int, s: Seq<u8>, at: int)
    requires
        0 <= v < 0x1_0000_0000,
        0 <= at,
        at + 4 <= s.len(),
        s.subrange(at, at + 4) == le32(v),
    ensures
        get_le32(s, at) == v,
{
    assert(s[at] == le32(v)[0] && s[at + 1] == le32(v)[1] && s[at + 2] == le32(v)[2]
        && s[at + 3] == le32(v)[3]);
    assert(get_le32(s, at) == v) by (nonlinear_arith)
        requires
            0 <= v < 0x1_0000_0000,
            s[at] == (v % 0x100) as u8,
            s[at + 1] == ((v / 0x100) % 0x100) as u8,
            s[at + 2] == ((v / 0x10000) % 0x100) as u8,
            s[at + 3] == ((v / 0x1000000) % 0x100) as u8,
            get_le32(s, at) == s[at] + s[at + 1] * 0x100 + s[at + 2] * 0x10000 + s[at + 3]
                * 0x1000000,
    ;
}

/// Appends the three big-endian bytes of `v`.
pub fn push_be24(out: &mut Vec<u8>, v: u32)
    requires
        v < 0x1000000,
    ensures
        final(out)@ == old(out)@ + be24(v as int),
{
    out.push((v / 0x10000) as u8);
    out.push(((v / 0x100) % 0x100) as u8);
    out.push((v % 0x100) as u8);
    assert(final(out)@ =~= old(out)@ + be24(v as int));
}

/// Appends the four big-endian bytes of `v`.
pub fn push_be32(out: &mut Vec<u8>, v: u32)
    ensures
        final(out)@ == old(out)@ + be32(v as int),
{
    out.push((v / 0x1000000) as u8);
    out.push(((v / 0x10000) % 0x100) as u8);
    out.push(((v / 0x100) % 0x100) as u8);
    out.push((v % 0x100) as u8);
    assert(final(out)@ =~= old(out)@ + be32(v as int));
}

/// Appends the four little-endian bytes of `v`.
pub fn push_le32(out: &mut Vec<u8>, v: u32)
    ensures
        final(out)@ == old(out)@ + le32(v as int),
{
    out.push((v % 0x100) as u8);
    out.push(((v / 0x100) % 0x100) as u8);
    out.push(((v / 0x10000) % 0x100) as u8);
    out.push((v / 0x1000000) as u8);
    assert(final(out)@ =~= old(out)@ + le32(v as int));
}

/// Reads a big-endian 3-byte field.
pub fn read_be24(s: &[u8], at: usize) -> (r: u32)
    requires
        at + 3 <= s@.len(),
    ensures
        r == get_be24(s@, at as int),
        r < 0x1000000,
{
    (s[at] as u32) * 0x10000 + (s[at + 1] as u32) * 0x100 + (s[at + 2] as u32)
}

/// Reads a big-endian 4-byte field.
pub fn read_be32(s: &[u8], at: usize) -> (r: u32)
    requires
        at + 4 <= s@.len(),
    ensures
        r == get_be32(s@, at as int),
{
    (s[at] as u32) * 0x1000000 + (s[at + 1] as u32) * 0x10000 + (s[at + 2] as u32) * 0x100
        + (s[at + 3] as u32)
}

/// Reads a little-endian 4-byte field.
pub fn read_le32(s: &[u8], at: usize) -> (r: u32)
    requires
        at + 4 <= s@.len(),
    ensures
        r == get_le32(s@, at as int),
{
    (s[at] as u32) + (s[at + 1] as u32) * 0x100 + (s[at + 2] as u32) * 0x10000 + (s[at + 3]
        as u32) * 0x1000000
}

} // verus!
