use ratmap::basic::{BasicHeader, ChunkStreamId};
use ratmap::error::{ChunkHeaderError, ChunkStreamIdTryFromError};
use ratmap::header::{Header, MessageHeader, Timestamp};

const MESSAGE_HEADER_TYPE_ZERO: u8 = 0b00000000;
const MESSAGE_HEADER_TYPE_ONE: u8 = 0b01000000;
const MESSAGE_HEADER_TYPE_TWO: u8 = 0b10000000;
const MESSAGE_HEADER_TYPE_THREE: u8 = 0b11000000;

const TWO_BYTE_CSID_MARKER: u8 = 0b00000000;
const THREE_BYTE_CSID_MARKER: u8 = 0b00000001;

const ONE_BYTE_CSID: u8 = 0b00110111;
const TWO_BYTE_CSID: u8 = 0b10101011;
const THREE_BYTE_CSID_1: u8 = 0b10101010;
const THREE_BYTE_CSID_2: u8 = 0b11011010;

const TIMESTAMP_BYTES_1: u8 = 53;
const TIMESTAMP_BYTES_2: u8 = 76;
const TIMESTAMP_BYTES_3: u8 = 24;

const TIMESTAMP: u32 =
    u32::from_be_bytes([0, TIMESTAMP_BYTES_1, TIMESTAMP_BYTES_2, TIMESTAMP_BYTES_3]);

const EXTENDED_TIMESTAMP_MARKER_BYTE: u8 = 0xFF;

const EXTENDED_TIMESTAMP_MARKER: u32 = u32::from_be_bytes([
    0,
    EXTENDED_TIMESTAMP_MARKER_BYTE,
    EXTENDED_TIMESTAMP_MARKER_BYTE,
    EXTENDED_TIMESTAMP_MARKER_BYTE,
]);

const EXTENDED_TIMESTAMP_BYTE_1: u8 = 0xAB;
const EXTENDED_TIMESTAMP_BYTE_2: u8 = 0xFF;
const EXTENDED_TIMESTAMP_BYTE_3: u8 = 0xFF;
const EXTENDED_TIMESTAMP_BYTE_4: u8 = 0xFF;

const EXTENDED_TIMESTAMP: u32 = u32::from_be_bytes([
    EXTENDED_TIMESTAMP_BYTE_1,
    EXTENDED_TIMESTAMP_BYTE_2,
    EXTENDED_TIMESTAMP_BYTE_3,
    EXTENDED_TIMESTAMP_BYTE_4,
]);

const MESSAGE_LENGTH_BYTES_1: u8 = 14;
const MESSAGE_LENGTH_BYTES_2: u8 = 86;
const MESSAGE_LENGTH_BYTES_3: u8 = 33;

const MESSAGE_LENGTH: u32 = u32::from_be_bytes([
    0,
    MESSAGE_LENGTH_BYTES_1,
    MESSAGE_LENGTH_BYTES_2,
    MESSAGE_LENGTH_BYTES_3,
]);

const MESSAGE_TYPE_ID: u8 = 13;

const MESSAGE_STREAM_ID_BYTES_1: u8 = 24;
const MESSAGE_STREAM_ID_BYTES_2: u8 = 1;
const MESSAGE_STREAM_ID_BYTES_3: u8 = 96;
const MESSAGE_STREAM_ID_BYTES_4: u8 = 100;

const MESSAGE_STREAM_ID: u32 = u32::from_le_bytes([
    MESSAGE_STREAM_ID_BYTES_1,
    MESSAGE_STREAM_ID_BYTES_2,
    MESSAGE_STREAM_ID_BYTES_3,
    MESSAGE_STREAM_ID_BYTES_4,
]);

const TYPES: [(u8, u8); 4] = [
    (MESSAGE_HEADER_TYPE_ZERO, 0u8),
    (MESSAGE_HEADER_TYPE_ONE, 1u8),
    (MESSAGE_HEADER_TYPE_TWO, 2u8),
    (MESSAGE_HEADER_TYPE_THREE, 3u8),
];

const CSIDS: [u16; 3] = [
    u16::from_be_bytes([0, ONE_BYTE_CSID]),
    u16::from_be_bytes([0, TWO_BYTE_CSID]),
    u16::from_be_bytes([THREE_BYTE_CSID_1, THREE_BYTE_CSID_2]),
];

/// The basic header bytes and value for a chunk type and one of `CSIDS`.
fn basic_case(message_header_type_byte: u8, chunk_type: u8, chunk_stream_id: u16) -> (Vec<u8>, BasicHeader) {
    let [.., byte] = chunk_stream_id.to_be_bytes();
    let (bytes, id) = match byte {
        ONE_BYTE_CSID => (vec![message_header_type_byte | ONE_BYTE_CSID], ONE_BYTE_CSID as u32),
        TWO_BYTE_CSID => (
            vec![message_header_type_byte | TWO_BYTE_CSID_MARKER, TWO_BYTE_CSID],
            TWO_BYTE_CSID as u32 + 64,
        ),
        THREE_BYTE_CSID_2 => (
            vec![
                message_header_type_byte | THREE_BYTE_CSID_MARKER,
                THREE_BYTE_CSID_1,
                THREE_BYTE_CSID_2,
            ],
            THREE_BYTE_CSID_1 as u32 + 64 + THREE_BYTE_CSID_2 as u32 * 256,
        ),
        _ => unreachable!(),
    };
    (
        bytes,
        BasicHeader {
            chunk_type,
            chunk_stream_id: ChunkStreamId::try_from(id).unwrap(),
        },
    )
}

/// The message header bytes and value for a chunk type, with the plain
/// timestamp or the extended-timestamp marker.
fn message_case(message_header_type_byte: u8, extended: bool) -> (Vec<u8>, MessageHeader) {
    let (t1, t2, t3, t) = if extended {
        (
            EXTENDED_TIMESTAMP_MARKER_BYTE,
            EXTENDED_TIMESTAMP_MARKER_BYTE,
            EXTENDED_TIMESTAMP_MARKER_BYTE,
            EXTENDED_TIMESTAMP_MARKER,
        )
    } else {
        (TIMESTAMP_BYTES_1, TIMESTAMP_BYTES_2, TIMESTAMP_BYTES_3, TIMESTAMP)
    };
    let ext: Vec<u8> = if extended {
        vec![
            EXTENDED_TIMESTAMP_BYTE_1,
            EXTENDED_TIMESTAMP_BYTE_2,
            EXTENDED_TIMESTAMP_BYTE_3,
            EXTENDED_TIMESTAMP_BYTE_4,
        ]
    } else {
        vec![]
    };
    match message_header_type_byte {
        MESSAGE_HEADER_TYPE_ZERO => (
            [
                vec![
                    t1,
                    t2,
                    t3,
                    MESSAGE_LENGTH_BYTES_1,
                    MESSAGE_LENGTH_BYTES_2,
                    MESSAGE_LENGTH_BYTES_3,
                    MESSAGE_TYPE_ID,
                    MESSAGE_STREAM_ID_BYTES_1,
                    MESSAGE_STREAM_ID_BYTES_2,
                    MESSAGE_STREAM_ID_BYTES_3,
                    MESSAGE_STREAM_ID_BYTES_4,
                ],
                ext,
            ]
            .concat(),
            MessageHeader::BeginOrRewindStream {
                timestamp: t,
                message_length: MESSAGE_LENGTH,
                message_type_id: MESSAGE_TYPE_ID,
                message_stream_id: MESSAGE_STREAM_ID,
            },
        ),
        MESSAGE_HEADER_TYPE_ONE => (
            [
                vec![
                    t1,
                    t2,
                    t3,
                    MESSAGE_LENGTH_BYTES_1,
                    MESSAGE_LENGTH_BYTES_2,
                    MESSAGE_LENGTH_BYTES_3,
                    MESSAGE_TYPE_ID,
                ],
                ext,
            ]
            .concat(),
            MessageHeader::BeginVariableLengthMessage {
                timestamp_delta: t,
                message_length: MESSAGE_LENGTH,
                message_type_id: MESSAGE_TYPE_ID,
            },
        ),
        MESSAGE_HEADER_TYPE_TWO => (
            [vec![t1, t2, t3], ext].concat(),
            MessageHeader::BeginConstantLengthMessage { timestamp_delta: t },
        ),
        MESSAGE_HEADER_TYPE_THREE => (vec![], MessageHeader::ContinueMessage),
        _ => unreachable!(),
    }
}

#[test]
fn mod_basic_and_message_header() {
    for &(message_header_type_byte, message_header_type) in TYPES.iter() {
        for &chunk_stream_id in CSIDS.iter() {
            let (basic_header_bytes, basic_header_expected) =
                basic_case(message_header_type_byte, message_header_type, chunk_stream_id);
            let (message_header_bytes, message_header_expected) =
                message_case(message_header_type_byte, false);

            let bytes = [&basic_header_bytes[..], &message_header_bytes[..]].concat();
            let expected = Header {
                basic_header: basic_header_expected,
                message_header: message_header_expected,
                extended_timestamp: None,
            };

            let (actual, n) = Header::read(&bytes, false).unwrap();
            assert_eq!(expected, actual);
            assert_eq!(n, bytes.len());
        }
    }
}

#[test]
fn mod_extended_timestamp() {
    for &(message_header_type_byte, message_header_type) in TYPES.iter() {
        for &chunk_stream_id in CSIDS.iter() {
            let (basic_header_bytes, basic_header_expected) =
                basic_case(message_header_type_byte, message_header_type, chunk_stream_id);
            let (message_header_bytes, message_header_expected) =
                message_case(message_header_type_byte, true);

            let bytes = [&basic_header_bytes[..], &message_header_bytes[..]].concat();
            let extended_timestamp_expected = match message_header_expected {
                MessageHeader::ContinueMessage => None,
                _ => Some(EXTENDED_TIMESTAMP),
            };
            let expected = Header {
                basic_header: basic_header_expected,
                message_header: message_header_expected,
                extended_timestamp: extended_timestamp_expected,
            };

            let (actual, _) = Header::read(&bytes, false).unwrap();
            assert_eq!(expected, actual);
        }
    }
}

#[test]
fn basic_and_message_header() {
    for &(message_header_type_byte, message_header_type) in TYPES.iter() {
        for &chunk_stream_id in CSIDS.iter() {
            let (basic_header_expected, basic_header_input) =
                basic_case(message_header_type_byte, message_header_type, chunk_stream_id);
            let (message_header_expected, message_header_input) =
                message_case(message_header_type_byte, false);

            let expected = [&basic_header_expected[..], &message_header_expected[..]].concat();
            let input = Header {
                basic_header: basic_header_input,
                message_header: message_header_input,
                extended_timestamp: None,
            };

            let actual = input.to_bytes();

            assert_eq!(expected, actual);
        }
    }
}

#[test]
fn extended_timestamp() {
    for &(message_header_type_byte, message_header_type) in TYPES.iter() {
        for &chunk_stream_id in CSIDS.iter() {
            let (basic_header_expected, basic_header_input) =
                basic_case(message_header_type_byte, message_header_type, chunk_stream_id);
            let (message_header_expected, message_header_input) =
                message_case(message_header_type_byte, true);

            let expected = [&basic_header_expected[..], &message_header_expected[..]].concat();
            let extended_timestamp_input = match message_header_input {
                MessageHeader::ContinueMessage => None,
                _ => Some(EXTENDED_TIMESTAMP),
            };
            let input = Header {
                basic_header: basic_header_input,
                message_header: message_header_input,
                extended_timestamp: extended_timestamp_input,
            };

            let actual = input.to_bytes();

            assert_eq!(expected, actual);
        }
    }
}

#[test]
fn header_round_trip_of_constructed_headers() {
    let headers = vec![
        Header::begin_or_rewind_stream(3, 1000, 200, 8, 1).unwrap(),
        Header::begin_or_rewind_stream(300, 0x0100_0000, 0xFFFFFF, 9, 7).unwrap(),
        Header::begin_variable_length_message(64, 0xFFFFFF, 5, 20).unwrap(),
        Header::begin_constant_length_message(65599, 40).unwrap(),
        Header::continue_message(2).unwrap(),
    ];
    for h in headers {
        let mut bytes = h.to_bytes();
        assert_eq!(bytes.len(), h.size());
        bytes.extend_from_slice(&[9, 9, 9]);
        assert_eq!(Header::read(&bytes, false), Some((h, h.size())));
    }
    let h = Header::continue_extended_message(5, 0x0100_0000).unwrap();
    let bytes = h.to_bytes();
    assert_eq!(bytes, vec![0xC5, 1, 0, 0, 0]);
    assert_eq!(Header::read(&bytes, true), Some((h, 5)));
}

#[test]
fn header_sizes() {
    assert_eq!(Header::continue_message(5).unwrap().size(), 1);
    assert_eq!(Header::begin_constant_length_message(5, 1).unwrap().size(), 4);
    assert_eq!(Header::begin_variable_length_message(5, 1, 1, 1).unwrap().size(), 8);
    assert_eq!(Header::begin_or_rewind_stream(5, 1, 1, 1, 1).unwrap().size(), 12);
    assert_eq!(Header::begin_or_rewind_stream(5, 0xFFFFFF, 1, 1, 1).unwrap().size(), 16);
    assert_eq!(Header::begin_or_rewind_stream(65599, 0xFFFFFFFF, 1, 1, 1).unwrap().size(), 18);
    assert_eq!(Header::begin_or_rewind_stream(64, 1, 1, 1, 1).unwrap().size(), 13);
}

#[test]
fn extended_timestamp_replaces_marker() {
    let bytes = [0x03, 0xFF, 0xFF, 0xFF, 0, 0, 1, 8, 1, 0, 0, 0, 0x01, 0x00, 0x00, 0x00];
    let (h, n) = Header::read(&bytes, false).unwrap();
    assert_eq!(n, 16);
    assert_eq!(h.extended_timestamp, Some(0x0100_0000));
    assert_eq!(h.timestamp(0), Timestamp::Absolute(0x0100_0000));
    assert_eq!(h.timestamp(0).into_inner(), 0x0100_0000);
    // without the four bytes the header is incomplete
    assert_eq!(Header::read(&bytes[..12], false), None);
}

#[test]
fn header_getters() {
    let h = Header::begin_or_rewind_stream(3, 5, 200, 8, 1).unwrap();
    assert_eq!(h.chunk_stream_id(), 3);
    assert_eq!(h.message_length(), Some(200));
    assert_eq!(h.message_type_id(), Some(8));
    assert_eq!(h.message_stream_id(), Some(1));
    let h = Header::begin_variable_length_message(3, 5, 100, 9).unwrap();
    assert_eq!(h.message_length(), Some(100));
    assert_eq!(h.message_type_id(), Some(9));
    assert_eq!(h.message_stream_id(), None);
    assert_eq!(h.timestamp(0), Timestamp::Delta(5));
    let h = Header::continue_message(3).unwrap();
    assert_eq!(h.message_length(), None);
    assert_eq!(h.timestamp(40), Timestamp::Delta(40));
    assert!(h.message_header.has_extended_timestamp(true));
    assert!(!h.message_header.has_extended_timestamp(false));
    assert_eq!(h.message_header.size(), 0);
}

#[test]
fn header_constructor_errors() {
    assert_eq!(
        Header::begin_or_rewind_stream(3, 0, 0x0100_0000, 8, 1),
        Err(ChunkHeaderError::MessageTooLong)
    );
    assert_eq!(
        Header::begin_variable_length_message(1, 0, 10, 8),
        Err(ChunkHeaderError::ChunkStreamIdError(ChunkStreamIdTryFromError::Reserved))
    );
    assert_eq!(
        Header::begin_constant_length_message(70000, 0),
        Err(ChunkHeaderError::ChunkStreamIdError(ChunkStreamIdTryFromError::TooBig))
    );
}
