use ratmap::control::{LimitType, ProtocolControlMessage};
use ratmap::error::RatmapError;
use ratmap::message::Message;
use ratmap::stream::{ChunkRead, ChunkStream};

/// Reads every chunk of `bytes`; returns the messages and the replies.
fn deliver(receiver: &mut ChunkStream, bytes: &[u8]) -> (Vec<Message>, Vec<Message>) {
    let mut messages = Vec::new();
    let mut replies = Vec::new();
    let mut at = 0;
    loop {
        match receiver.read_chunk(&bytes[at..]).unwrap() {
            ChunkRead::Incomplete => break,
            ChunkRead::Chunk { consumed, message, replies: r } => {
                at += consumed;
                if let Some(m) = message {
                    messages.push(m);
                }
                replies.extend(r);
            }
        }
    }
    assert_eq!(at, bytes.len());
    (messages, replies)
}

fn payload(len: usize) -> Vec<u8> {
    (0..len).map(|i| (i % 251) as u8).collect()
}

fn control(c: ProtocolControlMessage) -> Message {
    c.to_message(0)
}

#[test]
fn type0_then_type3_split() {
    let mut sender = ChunkStream::new();
    let mut receiver = ChunkStream::new();
    let mut wire = sender
        .send(2, &control(ProtocolControlMessage::SetChunkSize(128)))
        .unwrap();
    let data = payload(200);
    let frame = sender.send(5, &Message::new(8, 1, 1000, data.clone())).unwrap();
    let mut expected = vec![0x05, 0x00, 0x03, 0xE8, 0x00, 0x00, 0xC8, 0x08, 0x01, 0x00, 0x00, 0x00];
    expected.extend_from_slice(&data[..128]);
    expected.push(0xC5);
    expected.extend_from_slice(&data[128..]);
    assert_eq!(frame, expected);
    wire.extend_from_slice(&frame);

    let (messages, _) = deliver(&mut receiver, &wire);
    assert_eq!(messages.len(), 2);
    assert_eq!(messages[1], Message::new(8, 1, 1000, data));
    assert_eq!(receiver.settings().incoming_chunk_size, 128);
}

#[test]
fn extended_timestamp_on_continuation() {
    let mut sender = ChunkStream::new();
    let mut receiver = ChunkStream::new();
    let data = payload(130);
    let frame = sender.send(3, &Message::new(9, 1, 0x0100_0000, data.clone())).unwrap();
    assert_eq!(&frame[..16], &[0x03, 0xFF, 0xFF, 0xFF, 0x00, 0x00, 0x82, 0x09, 0x01, 0x00, 0x00, 0x00, 0x01, 0x00, 0x00, 0x00]);
    assert_eq!(&frame[16 + 128..16 + 128 + 5], &[0xC3, 0x01, 0x00, 0x00, 0x00]);
    assert_eq!(frame.len(), 16 + 128 + 5 + 2);
    let (messages, _) = deliver(&mut receiver, &frame);
    assert_eq!(messages, vec![Message::new(9, 1, 0x0100_0000, data)]);
}

#[test]
fn abort_discards_partial_message() {
    let mut sender = ChunkStream::new();
    let mut receiver = ChunkStream::new();
    let frame = sender.send(4, &Message::new(8, 1, 10, payload(300))).unwrap();
    // the first chunk: a 12-byte header and 128 bytes
    let first = &frame[..12 + 128];
    let (messages, _) = deliver(&mut receiver, first);
    assert!(messages.is_empty());
    let abort = sender
        .send(2, &control(ProtocolControlMessage::AbortMessage { chunk_stream_id: 4 }))
        .unwrap();
    let (messages, _) = deliver(&mut receiver, &abort);
    assert_eq!(messages.len(), 1);
    assert_eq!(messages[0].type_id, 2);
    // the chunk stream starts over with the next message
    let next = sender.send(4, &Message::new(8, 1, 20, payload(10))).unwrap();
    let (messages, _) = deliver(&mut receiver, &next);
    assert_eq!(messages, vec![Message::new(8, 1, 20, payload(10))]);
}

#[test]
fn acknowledgement_after_window() {
    let mut sender = ChunkStream::new();
    let mut receiver = ChunkStream::new();
    let window = sender
        .send(2, &control(ProtocolControlMessage::WindowAcknowledgementSize(4096)))
        .unwrap();
    let (_, replies) = deliver(&mut receiver, &window);
    assert!(replies.is_empty());
    assert_eq!(receiver.settings().ack_window, 4096);
    // 4 payload bytes so far; 4092 more reach the window
    let frame = sender.send(6, &Message::new(8, 1, 0, payload(4092))).unwrap();
    let (messages, replies) = deliver(&mut receiver, &frame);
    assert_eq!(messages.len(), 1);
    assert_eq!(replies.len(), 1);
    assert_eq!(replies[0].type_id, 3);
    assert_eq!(replies[0].stream_id, 0);
    assert_eq!(replies[0].payload, vec![0x00, 0x00, 0x10, 0x00]);
    assert_eq!(receiver.settings().bytes_since_ack, 0);
}

#[test]
fn reserved_csid_is_rejected() {
    let mut sender = ChunkStream::new();
    let m = Message::new(8, 1, 0, payload(10));
    assert_eq!(sender.send(1, &m), Err(RatmapError::ReservedCsid));
    assert_eq!(sender.send(0, &m), Err(RatmapError::ReservedCsid));
    assert_eq!(sender.send(65600, &m), Err(RatmapError::CsidTooLarge));
    // the connection is still usable
    let mut receiver = ChunkStream::new();
    let frame = sender.send(3, &m).unwrap();
    let (messages, _) = deliver(&mut receiver, &frame);
    assert_eq!(messages, vec![m]);
}

#[test]
fn message_too_long_is_rejected() {
    let mut sender = ChunkStream::new();
    let m = Message::new(8, 1, 0, vec![0u8; 0x0100_0000]);
    assert_eq!(sender.send(3, &m), Err(RatmapError::MessageTooLong));
}

#[test]
fn messages_arrive_intact_with_compressed_headers() {
    let mut sender = ChunkStream::new();
    let mut receiver = ChunkStream::new();
    let sent = vec![
        (3, Message::new(8, 1, 100, payload(40))),
        (3, Message::new(8, 1, 120, payload(40))),
        (3, Message::new(8, 1, 140, payload(40))),
        (3, Message::new(9, 1, 150, payload(300))),
        (4, Message::new(18, 0, 0, payload(0))),
        (3, Message::new(9, 1, 90, payload(7))),
        (3, Message::new(9, 2, 95, payload(7))),
    ];
    let mut wire = Vec::new();
    let mut sizes = Vec::new();
    for (csid, m) in &sent {
        let bytes = sender.send(*csid, m).unwrap();
        sizes.push(bytes.len());
        wire.extend_from_slice(&bytes);
    }
    // type 0, then type 1 for the first repeat... type 2 and type 3 once the
    // deltas repeat
    assert_eq!(sizes[0], 12 + 40);
    assert_eq!(sizes[1], 4 + 40);
    assert_eq!(sizes[2], 1 + 40);
    let (messages, _) = deliver(&mut receiver, &wire);
    let expected: Vec<Message> = sent.into_iter().map(|(_, m)| m).collect();
    assert_eq!(messages, expected);
}

#[test]
fn timestamp_delta_wraps() {
    let mut sender = ChunkStream::new();
    let mut receiver = ChunkStream::new();
    let first = Message::new(8, 1, 0xFFFF_FFF0, payload(4));
    let second = Message::new(8, 1, 0x10, payload(4));
    let mut wire = sender.send(3, &first).unwrap();
    let frame = sender.send(3, &second).unwrap();
    // a type-2 header with delta 0x20
    assert_eq!(&frame[..4], &[0x83, 0x00, 0x00, 0x20]);
    wire.extend_from_slice(&frame);
    let (messages, _) = deliver(&mut receiver, &wire);
    assert_eq!(messages, vec![first, second]);
}

#[test]
fn reencoding_keeps_the_message_stream() {
    let mut a = ChunkStream::new();
    let mut b = ChunkStream::new();
    let mut wire = a.send(2, &control(ProtocolControlMessage::SetChunkSize(50))).unwrap();
    for i in 0..5u32 {
        wire.extend_from_slice(&a.send(7, &Message::new(9, 1, i * 33, payload(120 + i as usize))).unwrap());
    }
    let (first_pass, _) = deliver(&mut b, &wire);
    let mut c = ChunkStream::new();
    let mut d = ChunkStream::new();
    let mut rewire = Vec::new();
    for m in first_pass.iter().skip(1) {
        rewire.extend_from_slice(&c.send(9, m).unwrap());
    }
    let (second_pass, _) = deliver(&mut d, &rewire);
    assert_eq!(second_pass, first_pass[1..].to_vec());
}

#[test]
fn dangling_compression_is_a_protocol_error() {
    let mut receiver = ChunkStream::new();
    // type 1 on chunk stream 3, which has no state
    let bytes = [0x43, 0, 0, 1, 0, 0, 1, 8, 0xAA];
    assert_eq!(receiver.read_chunk(&bytes).err(), Some(RatmapError::ProtocolError));
    let mut receiver = ChunkStream::new();
    assert_eq!(receiver.read_chunk(&[0xC3]).err(), Some(RatmapError::ProtocolError));
}

#[test]
fn malformed_control_messages() {
    let mut receiver = ChunkStream::new();
    // SetChunkSize of 0
    let bytes = [0x02, 0, 0, 0, 0, 0, 4, 1, 0, 0, 0, 0, 0, 0, 0, 0];
    assert_eq!(receiver.read_chunk(&bytes).err(), Some(RatmapError::ProtocolError));
    let mut sender = ChunkStream::new();
    let bad = Message::new(1, 0, 0, vec![0, 0, 0, 0]);
    assert_eq!(sender.send(2, &bad), Err(RatmapError::ProtocolError));
    let bad = Message::new(6, 0, 0, vec![0, 0, 1, 0, 7]);
    assert_eq!(sender.send(2, &bad), Err(RatmapError::ProtocolError));
}

#[test]
fn incomplete_input_consumes_nothing() {
    let mut sender = ChunkStream::new();
    let mut receiver = ChunkStream::new();
    let frame = sender.send(3, &Message::new(8, 1, 5, payload(20))).unwrap();
    for cut in 0..frame.len() {
        match receiver.read_chunk(&frame[..cut]).unwrap() {
            ChunkRead::Incomplete => {}
            _ => panic!("chunk read from a cut input"),
        }
    }
    let (messages, _) = deliver(&mut receiver, &frame);
    assert_eq!(messages, vec![Message::new(8, 1, 5, payload(20))]);
}

#[test]
fn peer_bandwidth_replies_with_window() {
    let mut sender = ChunkStream::new();
    let mut receiver = ChunkStream::new();
    let bw = ProtocolControlMessage::SetPeerBandwidth {
        acknowledgement_window_size: 5000,
        limit_type: LimitType::Hard,
    };
    let (_, replies) = deliver(&mut receiver, &sender.send(2, &control(bw)).unwrap());
    assert_eq!(replies.len(), 1);
    assert_eq!(replies[0].type_id, 5);
    assert_eq!(replies[0].payload, vec![0, 0, 0x13, 0x88]);
    assert_eq!(receiver.settings().peer_bandwidth, 5000);
    // a soft limit above the current one changes nothing and needs no reply
    let soft = ProtocolControlMessage::SetPeerBandwidth {
        acknowledgement_window_size: 9000,
        limit_type: LimitType::Soft,
    };
    let (_, replies) = deliver(&mut receiver, &sender.send(2, &control(soft)).unwrap());
    assert!(replies.is_empty());
    assert_eq!(receiver.settings().peer_bandwidth, 5000);
    assert_eq!(receiver.settings().peer_limit, Some(LimitType::Soft));
    // a dynamic limit is ignored unless the limit in effect is hard
    let dynamic = ProtocolControlMessage::SetPeerBandwidth {
        acknowledgement_window_size: 100,
        limit_type: LimitType::Dynamic,
    };
    let (_, replies) = deliver(&mut receiver, &sender.send(2, &control(dynamic)).unwrap());
    assert!(replies.is_empty());
    assert_eq!(receiver.settings().peer_bandwidth, 5000);
}

#[test]
fn control_message_round_trip() {
    let all = [
        ProtocolControlMessage::SetChunkSize(4096),
        ProtocolControlMessage::AbortMessage { chunk_stream_id: 9 },
        ProtocolControlMessage::Acknowledgement { sequence_number: 77 },
        ProtocolControlMessage::WindowAcknowledgementSize(2500000),
        ProtocolControlMessage::SetPeerBandwidth {
            acknowledgement_window_size: 2500000,
            limit_type: LimitType::Dynamic,
        },
    ];
    for c in all {
        let m = c.to_message(0);
        assert_eq!(m.type_id, c.type_id());
        assert_eq!(ProtocolControlMessage::parse(m.type_id, &m.payload), Ok(Some(c)));
    }
    assert_eq!(ProtocolControlMessage::parse(8, &[1, 2]), Ok(None));
    assert_eq!(
        ProtocolControlMessage::parse(1, &[0x80, 0, 0, 0x80]),
        Ok(Some(ProtocolControlMessage::SetChunkSize(0x80)))
    );
}
