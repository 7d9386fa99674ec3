use ratmap::basic::{BasicHeader, ChunkStreamId};
use ratmap::error::ChunkStreamIdTryFromError;

fn basic_bytes(chunk_type: u8, csid: u32) -> Vec<u8> {
    let hdr = BasicHeader {
        chunk_type,
        chunk_stream_id: ChunkStreamId::try_from(csid).unwrap(),
    };
    let mut out = Vec::new();
    hdr.write(&mut out);
    out
}

#[test]
fn try_from_u32() {
    // reserved values
    assert_eq!(ChunkStreamId::try_from(0), Err(ChunkStreamIdTryFromError::Reserved));
    assert_eq!(ChunkStreamId::try_from(1), Err(ChunkStreamIdTryFromError::Reserved));

    // too-big values
    assert_eq!(ChunkStreamId::try_from(65600), Err(ChunkStreamIdTryFromError::TooBig));
    assert_eq!(ChunkStreamId::try_from(u32::MAX), Err(ChunkStreamIdTryFromError::TooBig));
}

#[test]
fn into_u32() {
    assert_eq!(u32::from(ChunkStreamId::OneByte(2)), 2u32);
    assert_eq!(u32::from(ChunkStreamId::TwoBytes(200)), 264u32);
    assert_eq!(u32::from(ChunkStreamId::ThreeBytes(10000)), 10064);
}

#[test]
fn write() {
    // one-byte values
    let hdr = basic_bytes(0, 2);
    assert_eq!(hdr.len(), 1);
    assert_eq!(hdr[0], 2);

    let hdr = basic_bytes(3, 63);
    assert_eq!(hdr.len(), 1);
    assert_eq!(hdr[0], u8::MAX);

    // two-byte values
    let hdr = basic_bytes(0, 64);
    assert_eq!(hdr.len(), 2);
    assert_eq!(hdr.as_slice(), &[0, 0]);

    let hdr = basic_bytes(3, 319);
    assert_eq!(hdr.len(), 2);
    assert_eq!(hdr.as_slice(), &((3 << 14) | 255u16).to_be_bytes());

    // three-byte values: the id minus 64, least significant byte first
    let hdr = basic_bytes(0, 320);
    assert_eq!(hdr.len(), 3);
    assert_eq!(hdr.as_slice(), &[1, 0, 1]);

    let hdr = basic_bytes(0, 65599);
    assert_eq!(hdr.len(), 3);
    assert_eq!(hdr.as_slice(), &[1, u8::MAX, u8::MAX]);
}

#[test]
fn csid_bijection_at_range_edges() {
    for csid in [2u32, 63, 64, 319, 320, 1000, 65599] {
        for chunk_type in 0..4u8 {
            let bytes = basic_bytes(chunk_type, csid);
            let (decoded, n) = BasicHeader::read(&bytes).unwrap();
            assert_eq!(n, bytes.len());
            assert_eq!(decoded.chunk_stream_id(), csid);
            assert_eq!(decoded.chunk_type, chunk_type);
        }
    }
    assert!(BasicHeader::begin_or_rewind_stream(0).is_err());
    assert_eq!(
        BasicHeader::continue_message(65600),
        Err(ChunkStreamIdTryFromError::TooBig)
    );
}

#[test]
fn basic_header_constructors_and_size() {
    let b = BasicHeader::begin_variable_length_message(64).unwrap();
    assert_eq!(b.chunk_type, 1);
    assert_eq!(b.size(), 2);
    assert_eq!(b.chunk_stream_id(), 64);
    let b = BasicHeader::begin_constant_length_message(5).unwrap();
    assert_eq!(b.chunk_type, 2);
    assert_eq!(b.size(), 1);
    let b = BasicHeader::continue_message(65599).unwrap();
    assert_eq!(b.chunk_type, 3);
    assert_eq!(b.size(), 3);
}

#[test]
fn read_stops_where_input_ends() {
    assert_eq!(BasicHeader::read(&[]), None);
    assert_eq!(BasicHeader::read(&[0x40]), None);
    assert_eq!(BasicHeader::read(&[0x01, 0x05]), None);
}
