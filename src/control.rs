//! Protocol control messages: the messages of types 1, 2, 3, 5 and 6, sent on
//! chunk stream 2 and message stream 0, that change the chunk stream's own
//! parameters.
use vstd::prelude::*;

use crate::bytes::{be32, get_be32, push_be32, read_be32};
use crate::error::RatmapError;
use crate::message::Message;

verus! {

pub const SET_CHUNK_SIZE: u8 = 1;

pub const ABORT_MESSAGE: u8 = 2;

pub const ACKNOWLEDGEMENT: u8 = 3;

pub const WINDOW_ACKNOWLEDGEMENT_SIZE: u8 = 5;

pub const SET_PEER_BANDWIDTH: u8 = 6;

/// How a peer bandwidth limit combines with the one in effect.
#[derive(Debug, Clone, Copy, PartialEq, Eq, Structural)]
pub enum LimitType {
    /// Limit the output bandwidth to the window.
    Hard,
    /// Limit it to the smaller of the window and the limit in effect.
    Soft,
    /// Treat as hard where the limit in effect is hard; ignore otherwise.
    Dynamic,
}

#[derive(Debug, Clone, Copy, PartialEq, Eq, Structural)]
pub enum ProtocolControlMessage {
    /// The new maximum chunk size of the sender's outbound direction.
    SetChunkSize(u32),
    /// Discard the partly received message of a chunk stream.
    AbortMessage { chunk_stream_id: u32 },
    /// The number of bytes received so far, modulo 2^32.
    Acknowledgement { sequence_number: u32 },
    /// The number of bytes after which the receiver must acknowledge.
    WindowAcknowledgementSize(u32),
    /// Limit the receiver's output bandwidth.
    SetPeerBandwidth { acknowledgement_window_size: u32, limit_type: LimitType },
}

/// The message types that are protocol control messages.
pub open spec fn is_control_type(type_id: u8) -> bool {
    type_id == 1 || type_id == 2 || type_id == 3 || type_id == 5 || type_id == 6
}

/// The control message that a payload of a control type carries; `None`
/// where it is malformed: the wrong length, a chunk size of 0, or an unknown
/// limit type.
pub open spec fn parse_control(type_id: u8, p: Seq<u8>) -> Option<ProtocolControlMessage> {
    if type_id == 6 {
        if p.len() != 5 || p[4] > 2 {
            None
        } else {
            Some(
                ProtocolControlMessage::SetPeerBandwidth {
                    acknowledgement_window_size: get_be32(p, 0) as u32,
                    limit_type: if p[4] == 0 {
                        LimitType::Hard
                    } else if p[4] == 1 {
                        LimitType::Soft
                    } else {
                        LimitType::Dynamic
                    },
                },
            )
        }
    } else if p.len() != 4 {
        None
    } else {
        let v = get_be32(p, 0);
        if type_id == 1 {
            if v % 0x8000_0000 == 0 {
                None
            } else {
                Some(ProtocolControlMessage::SetChunkSize((v % 0x8000_0000) as u32))
            }
        } else if type_id == 2 {
            Some(ProtocolControlMessage::AbortMessage { chunk_stream_id: v as u32 })
        } else if type_id == 3 {
            Some(ProtocolControlMessage::Acknowledgement { sequence_number: v as u32 })
        } else {
            Some(ProtocolControlMessage::WindowAcknowledgementSize(v as u32))
        }
    }
}

impl ProtocolControlMessage {
    pub open spec fn spec_type_id(self) -> u8 {
        match self {
            ProtocolControlMessage::SetChunkSize(_) => 1,
            ProtocolControlMessage::AbortMessage { .. } => 2,
            ProtocolControlMessage::Acknowledgement { .. } => 3,
            ProtocolControlMessage::WindowAcknowledgementSize(_) => 5,
            ProtocolControlMessage::SetPeerBandwidth { .. } => 6,
        }
    }

    /// The payload bytes of this control message.
    pub open spec fn payload_bytes(self) -> Seq<u8> {
        match self {
            ProtocolControlMessage::SetChunkSize(v) => be32(v as int),
            ProtocolControlMessage::AbortMessage { chunk_stream_id } => be32(chunk_stream_id as int),
            ProtocolControlMessage::Acknowledgement { sequence_number } => be32(
                sequence_number as int,
            ),
            ProtocolControlMessage::WindowAcknowledgementSize(v) => be32(v as int),
            ProtocolControlMessage::SetPeerBandwidth { acknowledgement_window_size, limit_type } => be32(
                acknowledgement_window_size as int,
            ) + seq![
                match limit_type {
                    LimitType::Hard => 0u8,
                    LimitType::Soft => 1u8,
                    LimitType::Dynamic => 2u8,
                },
            ],
        }
    }

    /// The message type id of this control message.
    pub fn type_id(&self) -> (r: u8)
        ensures
            r == self.spec_type_id(),
    {
        match self {
            ProtocolControlMessage::SetChunkSize(_) => SET_CHUNK_SIZE,
            ProtocolControlMessage::AbortMessage { .. } => ABORT_MESSAGE,
            ProtocolControlMessage::Acknowledgement { .. } => ACKNOWLEDGEMENT,
            ProtocolControlMessage::WindowAcknowledgementSize(_) => WINDOW_ACKNOWLEDGEMENT_SIZE,
            ProtocolControlMessage::SetPeerBandwidth { .. } => SET_PEER_BANDWIDTH,
        }
    }

    /// The message that carries this control message: on message stream 0,
    /// with the given timestamp.
    pub fn to_message(&self, timestamp: u32) -> (r: Message)
        ensures
            r.type_id == self.spec_type_id(),
            r.stream_id == 0,
            r.timestamp == timestamp,
            r.payload@ == self.payload_bytes(),
    {
        let mut payload: Vec<u8> = Vec::new();
        match *self {
            ProtocolControlMessage::SetChunkSize(v) => push_be32(&mut payload, v),
            ProtocolControlMessage::AbortMessage { chunk_stream_id } => push_be32(
                &mut payload,
                chunk_stream_id,
            ),
            ProtocolControlMessage::Acknowledgement { sequence_number } => push_be32(
                &mut payload,
                sequence_number,
            ),
            ProtocolControlMessage::WindowAcknowledgementSize(v) => push_be32(&mut payload, v),
            ProtocolControlMessage::SetPeerBandwidth { acknowledgement_window_size, limit_type } => {
                push_be32(&mut payload, acknowledgement_window_size);
                payload.push(
                    match limit_type {
                        LimitType::Hard => 0u8,
                        LimitType::Soft => 1u8,
                        LimitType::Dynamic => 2u8,
                    },
                );
            },
        }
        assert(payload@ =~= self.payload_bytes());
        Message { type_id: self.type_id(), stream_id: 0, timestamp, payload }
    }

    /// Reads the control message of a message of type `type_id`: `Ok(None)`
    /// where the type is not a control type, `ProtocolError` where the
    /// payload is malformed.
    pub fn parse(type_id: u8, payload: &[u8]) -> (r: Result<
        Option<ProtocolControlMessage>,
        RatmapError,
    >)
        ensures
            !is_control_type(type_id) ==> r == Ok::<_, RatmapError>(
                None::<ProtocolControlMessage>,
            ),
            is_control_type(type_id) ==> r == match parse_control(type_id, payload@) {
                Some(c) => Ok::<_, RatmapError>(Some(c)),
                None => Err(RatmapError::ProtocolError),
            },
    {
        if !(type_id == 1 || type_id == 2 || type_id == 3 || type_id == 5 || type_id == 6) {
            return Ok(None);
        }
        if type_id == SET_PEER_BANDWIDTH {
            if payload.len() != 5 || payload[4] > 2 {
                return Err(RatmapError::ProtocolError);
            }
            let limit_type = if payload[4] == 0 {
                LimitType::Hard
            } else if payload[4] == 1 {
                LimitType::Soft
            } else {
                LimitType::Dynamic
            };
            return Ok(
                Some(
                    ProtocolControlMessage::SetPeerBandwidth {
                        acknowledgement_window_size: read_be32(payload, 0),
                        limit_type,
                    },
                ),
            );
        }
        if payload.len() != 4 {
            return Err(RatmapError::ProtocolError);
        }
        let v = read_be32(payload, 0);
        if type_id == SET_CHUNK_SIZE {
            let size = v % 0x8000_0000;
            if size == 0 {
                Err(RatmapError::ProtocolError)
            } else {
                Ok(Some(ProtocolControlMessage::SetChunkSize(size)))
            }
        } else if type_id == ABORT_MESSAGE {
            Ok(Some(ProtocolControlMessage::AbortMessage { chunk_stream_id: v }))
        } else if type_id == ACKNOWLEDGEMENT {
            Ok(Some(ProtocolControlMessage::Acknowledgement { sequence_number: v }))
        } else {
            Ok(Some(ProtocolControlMessage::WindowAcknowledgementSize(v)))
        }
    }
}

} // verus!
