//! Coordination wire protocol between peer pods.
//!
//! A message is one type byte followed by its fields; multi-byte integers
//! are big-endian.  `spec_encode` and `spec_decode` define the format at the
//! level of byte sequences; `CoordMessage::encode` and `CoordMessage::decode`
//! are proved against them, and `lemma_decode_encode` shows that decoding an
//! encoded message gives the message back.
use vstd::prelude::*;
use vstd::utf8::{decode_utf8, encode_utf8, valid_utf8};

use crate::strings::string_from_utf8;
use crate::wire::{
    copy_range, push_slice, push_u16_be, push_u32_be, push_u64_be, read_u16_be, read_u32_be,
    read_u64_be, spec_u16_be, spec_u16_from_be, spec_u32_be, spec_u32_from_be, spec_u64_be,
    spec_u64_from_be,
};

verus! {

/// Wire protocol message types.
#[derive(Debug, Clone, Copy, PartialEq, Eq, Structural)]
pub enum MessageType {
    /// Fence data from a rank
    FenceData,
    /// Fence completion with all collected data
    FenceComplete,
    /// Request for modex data
    ModexRequest,
    /// Response with modex data
    ModexResponse,
    /// Acknowledgment
    Ack,
    /// Error response
    ErrorResponse,
}

impl MessageType {
    /// The type byte that introduces a message of this type on the wire.
    pub open spec fn spec_code(self) -> u8 {
        match self {
            MessageType::FenceData => 1,
            MessageType::FenceComplete => 2,
            MessageType::ModexRequest => 3,
            MessageType::ModexResponse => 4,
            MessageType::Ack => 5,
            MessageType::ErrorResponse => 6,
        }
    }

    /// The type byte that introduces a message of this type on the wire.
    pub fn code(self) -> (c: u8)
        ensures
            c == self.spec_code(),
    {
        match self {
            MessageType::FenceData => 1,
            MessageType::FenceComplete => 2,
            MessageType::ModexRequest => 3,
            MessageType::ModexResponse => 4,
            MessageType::Ack => 5,
            MessageType::ErrorResponse => 6,
        }
    }

    /// The message type for a type byte: defined exactly for 1 through 6.
    pub fn try_from(value: u8) -> (r: Result<MessageType, ProtocolError>)
        ensures
            1 <= value <= 6 ==> (r matches Ok(t) && t.spec_code() == value),
            !(1 <= value <= 6) ==> (r matches Err(e) && e
                == ProtocolError::InvalidMessageType(value)),
    {
        match value {
            1 => Ok(MessageType::FenceData),
            2 => Ok(MessageType::FenceComplete),
            3 => Ok(MessageType::ModexRequest),
            4 => Ok(MessageType::ModexResponse),
            5 => Ok(MessageType::Ack),
            6 => Ok(MessageType::ErrorResponse),
            _ => Err(ProtocolError::InvalidMessageType(value)),
        }
    }
}

/// Coordination protocol message.
#[derive(Debug, Clone)]
pub enum CoordMessage {
    /// Fence data: rank's data blob to be shared
    FenceData { fence_id: u64, rank: u32, data: Vec<u8> },
    /// Fence completion: collected (rank, data) pairs from all ranks
    FenceComplete { fence_id: u64, all_data: Vec<(u32, Vec<u8>)> },
    /// Request modex data for a specific rank
    ModexRequest { request_id: u64, nspace: String, rank: u32 },
    /// Response with modex data
    ModexResponse { request_id: u64, data: Option<Vec<u8>> },
    /// Simple acknowledgment
    Ack { request_id: u64 },
    /// Error response
    Error { request_id: u64, message: String },
}

/// The mathematical value of a `CoordMessage`: the same fields over `Seq`.
pub enum MsgV {
    FenceData { fence_id: u64, rank: u32, data: Seq<u8> },
    FenceComplete { fence_id: u64, all_data: Seq<(u32, Seq<u8>)> },
    ModexRequest { request_id: u64, nspace: Seq<char>, rank: u32 },
    ModexResponse { request_id: u64, data: Option<Seq<u8>> },
    Ack { request_id: u64 },
    Error { request_id: u64, message: Seq<char> },
}

impl View for CoordMessage {
    type V = MsgV;

    open spec fn view(&self) -> MsgV {
        match self {
            CoordMessage::FenceData { fence_id, rank, data } => MsgV::FenceData {
                fence_id: *fence_id,
                rank: *rank,
                data: data@,
            },
            CoordMessage::FenceComplete { fence_id, all_data } => MsgV::FenceComplete {
                fence_id: *fence_id,
                all_data: all_data.deep_view(),
            },
            CoordMessage::ModexRequest { request_id, nspace, rank } => MsgV::ModexRequest {
                request_id: *request_id,
                nspace: nspace@,
                rank: *rank,
            },
            CoordMessage::ModexResponse { request_id, data } => MsgV::ModexResponse {
                request_id: *request_id,
                data: match data {
                    Some(d) => Some(d@),
                    None => None,
                },
            },
            CoordMessage::Ack { request_id } => MsgV::Ack { request_id: *request_id },
            CoordMessage::Error { request_id, message } => MsgV::Error {
                request_id: *request_id,
                message: message@,
            },
        }
    }
}

impl MsgV {
    /// Every length field of the message fits its wire width.
    pub open spec fn wf(self) -> bool {
        match self {
            MsgV::FenceData { data, .. } => data.len() <= u32::MAX,
            MsgV::FenceComplete { all_data, .. } => all_data.len() <= u32::MAX && entries_wf(
                all_data,
            ),
            MsgV::ModexRequest { nspace, .. } => encode_utf8(nspace).len() <= u16::MAX,
            MsgV::ModexResponse { data, .. } => match data {
                Some(d) => d.len() <= u32::MAX,
                None => true,
            },
            MsgV::Ack { .. } => true,
            MsgV::Error { message, .. } => encode_utf8(message).len() <= u16::MAX,
        }
    }
}

/// Every entry's blob fits its 32-bit length field.
pub open spec fn entries_wf(s: Seq<(u32, Seq<u8>)>) -> bool {
    forall|i: int| 0 <= i < s.len() ==> (#[trigger] s[i]).1.len() <= u32::MAX
}

/// The wire bytes of one (rank, blob) pair of a fence-complete message.
pub open spec fn spec_encode_entry(e: (u32, Seq<u8>)) -> Seq<u8> {
    spec_u32_be(e.0) + spec_u32_be(e.1.len() as u32) + e.1
}

/// The wire bytes of the (rank, blob) pairs of a fence-complete message.
pub open spec fn spec_encode_entries(s: Seq<(u32, Seq<u8>)>) -> Seq<u8>
    decreases s.len(),
{
    if s.len() == 0 {
        Seq::empty()
    } else {
        spec_encode_entries(s.drop_last()) + spec_encode_entry(s.last())
    }
}

/// The wire bytes of a message.
pub open spec fn spec_encode(v: MsgV) -> Seq<u8> {
    match v {
        MsgV::FenceData { fence_id, rank, data } => seq![1u8] + spec_u64_be(fence_id)
            + spec_u32_be(rank) + spec_u32_be(data.len() as u32) + data,
        MsgV::FenceComplete { fence_id, all_data } => seq![2u8] + spec_u64_be(fence_id)
            + spec_u32_be(all_data.len() as u32) + spec_encode_entries(all_data),
        MsgV::ModexRequest { request_id, nspace, rank } => seq![3u8] + spec_u64_be(request_id)
            + spec_u16_be(encode_utf8(nspace).len() as u16) + encode_utf8(nspace) + spec_u32_be(
            rank,
        ),
        MsgV::ModexResponse { request_id, data } => match data {
            Some(d) => seq![4u8] + spec_u64_be(request_id) + seq![1u8] + spec_u32_be(
                d.len() as u32,
            ) + d,
            None => seq![4u8] + spec_u64_be(request_id) + seq![0u8],
        },
        MsgV::Ack { request_id } => seq![5u8] + spec_u64_be(request_id),
        MsgV::Error { request_id, message } => seq![6u8] + spec_u64_be(request_id) + spec_u16_be(
            encode_utf8(message).len() as u16,
        ) + encode_utf8(message),
    }
}

/// The errors `spec_decode` can give.
pub enum DecodeErr {
    InvalidMessageType(u8),
    IncompletMessage,
    InvalidUtf8,
}

/// The (rank, blob) pairs read from `b` starting at `at`, `count` of them,
/// together with the position after the last one.
pub open spec fn spec_parse_entries(b: Seq<u8>, at: int, count: int) -> Result<
    (Seq<(u32, Seq<u8>)>, int),
    DecodeErr,
>
    decreases count,
{
    if count <= 0 {
        Ok((Seq::empty(), at))
    } else if b.len() - at < 8 {
        Err(DecodeErr::IncompletMessage)
    } else {
        let rank = spec_u32_from_be(b.subrange(at, at + 4));
        let dl = spec_u32_from_be(b.subrange(at + 4, at + 8)) as int;
        if b.len() - (at + 8) < dl {
            Err(DecodeErr::IncompletMessage)
        } else {
            match spec_parse_entries(b, at + 8 + dl, count - 1) {
                Ok(p) => Ok((seq![(rank, b.subrange(at + 8, at + 8 + dl))] + p.0, p.1)),
                Err(e) => Err(e),
            }
        }
    }
}

/// The message read back from the bytes `b`; the inverse of `spec_encode`
/// (`lemma_decode_encode`).  Trailing bytes after a complete message are
/// ignored, as `decode` ignores them.
pub open spec fn spec_decode(b: Seq<u8>) -> Result<MsgV, DecodeErr> {
    if b.len() == 0 {
        Err(DecodeErr::IncompletMessage)
    } else if b[0] == 1 {
        spec_decode_fence_data(b)
    } else if b[0] == 2 {
        spec_decode_fence_complete(b)
    } else if b[0] == 3 {
        spec_decode_modex_request(b)
    } else if b[0] == 4 {
        spec_decode_modex_response(b)
    } else if b[0] == 5 {
        spec_decode_ack(b)
    } else if b[0] == 6 {
        spec_decode_error(b)
    } else {
        Err(DecodeErr::InvalidMessageType(b[0]))
    }
}

pub open spec fn spec_decode_fence_data(b: Seq<u8>) -> Result<MsgV, DecodeErr> {
    if b.len() < 17 {
        Err(DecodeErr::IncompletMessage)
    } else {
        let fence_id = spec_u64_from_be(b.subrange(1, 9));
        let rank = spec_u32_from_be(b.subrange(9, 13));
        let dl = spec_u32_from_be(b.subrange(13, 17)) as int;
        if b.len() - 17 < dl {
            Err(DecodeErr::IncompletMessage)
        } else {
            Ok(MsgV::FenceData { fence_id, rank, data: b.subrange(17, 17 + dl) })
        }
    }
}

pub open spec fn spec_decode_fence_complete(b: Seq<u8>) -> Result<MsgV, DecodeErr> {
    if b.len() < 13 {
        Err(DecodeErr::IncompletMessage)
    } else {
        let fence_id = spec_u64_from_be(b.subrange(1, 9));
        let count = spec_u32_from_be(b.subrange(9, 13)) as int;
        match spec_parse_entries(b, 13, count) {
            Ok(p) => Ok(MsgV::FenceComplete { fence_id, all_data: p.0 }),
            Err(e) => Err(e),
        }
    }
}

pub open spec fn spec_decode_modex_request(b: Seq<u8>) -> Result<MsgV, DecodeErr> {
    if b.len() < 11 {
        Err(DecodeErr::IncompletMessage)
    } else {
        let request_id = spec_u64_from_be(b.subrange(1, 9));
        let nlen = spec_u16_from_be(b.subrange(9, 11)) as int;
        if b.len() - 11 < nlen + 4 {
            Err(DecodeErr::IncompletMessage)
        } else {
            let nb = b.subrange(11, 11 + nlen);
            if !valid_utf8(nb) {
                Err(DecodeErr::InvalidUtf8)
            } else {
                let rank = spec_u32_from_be(b.subrange(11 + nlen, 15 + nlen));
                Ok(MsgV::ModexRequest { request_id, nspace: decode_utf8(nb), rank })
            }
        }
    }
}

pub open spec fn spec_decode_modex_response(b: Seq<u8>) -> Result<MsgV, DecodeErr> {
    if b.len() < 10 {
        Err(DecodeErr::IncompletMessage)
    } else {
        let request_id = spec_u64_from_be(b.subrange(1, 9));
        if b[9] != 0 {
            if b.len() - 10 < 4 {
                Err(DecodeErr::IncompletMessage)
            } else {
                let dl = spec_u32_from_be(b.subrange(10, 14)) as int;
                if b.len() - 14 < dl {
                    Err(DecodeErr::IncompletMessage)
                } else {
                    Ok(
                        MsgV::ModexResponse {
                            request_id,
                            data: Some(b.subrange(14, 14 + dl)),
                        },
                    )
                }
            }
        } else {
            Ok(MsgV::ModexResponse { request_id, data: None })
        }
    }
}

pub open spec fn spec_decode_ack(b: Seq<u8>) -> Result<MsgV, DecodeErr> {
    if b.len() < 9 {
        Err(DecodeErr::IncompletMessage)
    } else {
        Ok(MsgV::Ack { request_id: spec_u64_from_be(b.subrange(1, 9)) })
    }
}

pub open spec fn spec_decode_error(b: Seq<u8>) -> Result<MsgV, DecodeErr> {
    if b.len() < 11 {
        Err(DecodeErr::IncompletMessage)
    } else {
        let request_id = spec_u64_from_be(b.subrange(1, 9));
        let mlen = spec_u16_from_be(b.subrange(9, 11)) as int;
        if b.len() - 11 < mlen {
            Err(DecodeErr::IncompletMessage)
        } else {
            let mb = b.subrange(11, 11 + mlen);
            if !valid_utf8(mb) {
                Err(DecodeErr::InvalidUtf8)
            } else {
                Ok(MsgV::Error { request_id, message: decode_utf8(mb) })
            }
        }
    }
}

/// The error cases of the coordination protocol.
#[derive(Debug)]
pub enum ProtocolError {
    Io(std::io::Error),
    InvalidMessageType(u8),
    IncompletMessage,
    InvalidUtf8,
}

/// Declares `std::io::Error` so the transport error can carry it; it is
/// opaque here, and `decode` never produces it.
#[verifier::external_type_specification]
#[verifier::external_body]
pub struct ExIoError(std::io::Error);

/// `spec_parse_entries` succeeds with exactly the entries `s` ending at `end`.
pub open spec fn parsed_entries_ok(
    b: Seq<u8>,
    at: int,
    count: int,
    s: Seq<(u32, Seq<u8>)>,
    end: int,
) -> bool {
    spec_parse_entries(b, at, count) == Ok::<(Seq<(u32, Seq<u8>)>, int), DecodeErr>((s, end))
}

/// `spec_decode(b)` succeeds with exactly the message `m`.
pub open spec fn decoded_ok(b: Seq<u8>, m: MsgV) -> bool {
    spec_decode(b) == Ok::<MsgV, DecodeErr>(m)
}

/// The decode error `e` stands for the spec-level error `v`; an I/O error
/// never comes from `decode`.
pub open spec fn err_corresponds(e: ProtocolError, v: DecodeErr) -> bool {
    match e {
        ProtocolError::Io(_) => false,
        ProtocolError::InvalidMessageType(c) => v == DecodeErr::InvalidMessageType(c),
        ProtocolError::IncompletMessage => v == DecodeErr::IncompletMessage,
        ProtocolError::InvalidUtf8 => v == DecodeErr::InvalidUtf8,
    }
}

impl CoordMessage {
    /// Serialize the message to bytes.
    pub fn encode(&self) -> (r: Vec<u8>)
        requires
            self@.wf(),
        ensures
            r@ == spec_encode(self@),
    {
        let mut buf: Vec<u8> = Vec::new();
        match self {
            CoordMessage::FenceData { fence_id, rank, data } => {
                buf.push(1);
                assert(buf@ =~= seq![1u8]);
                push_u64_be(&mut buf, *fence_id);
                push_u32_be(&mut buf, *rank);
                push_u32_be(&mut buf, data.len() as u32);
                push_slice(&mut buf, data.as_slice());
                assert(buf@ =~= spec_encode(self@));
            },
            CoordMessage::FenceComplete { fence_id, all_data } => {
                buf.push(2);
                assert(buf@ =~= seq![2u8]);
                push_u64_be(&mut buf, *fence_id);
                push_u32_be(&mut buf, all_data.len() as u32);
                let ghost head = buf@;
                let n = all_data.len();
                let mut i: usize = 0;
                while i < n
                    invariant
                        n == all_data.len(),
                        i <= n,
                        entries_wf(all_data.deep_view()),
                        all_data.deep_view().len() == n,
                        buf@ == head + spec_encode_entries(all_data.deep_view().take(i as int)),
                    decreases n - i,
                {
                    let ghost dv = all_data.deep_view();
                    let (rank, blob) = (all_data[i].0, &all_data[i].1);
                    proof {
                        assert(dv[i as int] == (all_data@[i as int].0, all_data@[
                            i as int
                        ].1.deep_view()));
                        assert(all_data@[i as int].1.deep_view() =~= all_data@[i as int].1@);
                    }
                    push_u32_be(&mut buf, rank);
                    push_u32_be(&mut buf, blob.len() as u32);
                    push_slice(&mut buf, blob.as_slice());
                    proof {
                        assert(dv.take(i + 1).drop_last() =~= dv.take(i as int));
                        assert(dv.take(i + 1).last() == dv[i as int]);
                        assert(buf@ =~= head + spec_encode_entries(dv.take(i + 1)));
                    }
                    i = i + 1;
                }
                proof {
                    assert(all_data.deep_view().take(n as int) =~= all_data.deep_view());
                    assert(buf@ =~= spec_encode(self@));
                }
            },
            CoordMessage::ModexRequest { request_id, nspace, rank } => {
                buf.push(3);
                assert(buf@ =~= seq![3u8]);
                push_u64_be(&mut buf, *request_id);
                let nspace_bytes = nspace.as_str().as_bytes();
                push_u16_be(&mut buf, nspace_bytes.len() as u16);
                push_slice(&mut buf, nspace_bytes);
                push_u32_be(&mut buf, *rank);
                assert(buf@ =~= spec_encode(self@));
            },
            CoordMessage::ModexResponse { request_id, data } => {
                buf.push(4);
                assert(buf@ =~= seq![4u8]);
                push_u64_be(&mut buf, *request_id);
                match data {
                    Some(d) => {
                        buf.push(1);
                        assert(buf@ =~= seq![4u8] + spec_u64_be(*request_id) + seq![1u8]);
                        push_u32_be(&mut buf, d.len() as u32);
                        push_slice(&mut buf, d.as_slice());
                    },
                    None => {
                        buf.push(0);
                    },
                }
                assert(buf@ =~= spec_encode(self@));
            },
            CoordMessage::Ack { request_id } => {
                buf.push(5);
                assert(buf@ =~= seq![5u8]);
                push_u64_be(&mut buf, *request_id);
                assert(buf@ =~= spec_encode(self@));
            },
            CoordMessage::Error { request_id, message } => {
                buf.push(6);
                assert(buf@ =~= seq![6u8]);
                push_u64_be(&mut buf, *request_id);
                let msg_bytes = message.as_str().as_bytes();
                push_u16_be(&mut buf, msg_bytes.len() as u16);
                push_slice(&mut buf, msg_bytes);
                assert(buf@ =~= spec_encode(self@));
            },
        }
        buf
    }

    /// Deserialize a message from bytes.  Succeeds exactly when
    /// `spec_decode` does, and then returns exactly its message.
    pub fn decode(buf: Vec<u8>) -> (r: Result<CoordMessage, ProtocolError>)
        ensures
            (match r {
                Ok(m) => decoded_ok(buf@, m@),
                Err(e) => spec_decode(buf@) is Err && err_corresponds(e, spec_decode(buf@)->Err_0),
            }),
    {
        let len = buf.len();
        if len == 0 {
            return Err(ProtocolError::IncompletMessage);
        }
        let t = buf[0];
        match MessageType::try_from(t) {
            Err(e) => Err(e),
            Ok(MessageType::FenceData) => Self::decode_fence_data(&buf),
            Ok(MessageType::FenceComplete) => Self::decode_fence_complete(&buf),
            Ok(MessageType::ModexRequest) => Self::decode_modex_request(&buf),
            Ok(MessageType::ModexResponse) => Self::decode_modex_response(&buf),
            Ok(MessageType::Ack) => Self::decode_ack(&buf),
            Ok(MessageType::ErrorResponse) => Self::decode_error(&buf),
        }
    }

    fn decode_fence_data(buf: &Vec<u8>) -> (r: Result<CoordMessage, ProtocolError>)
        requires
            buf@.len() > 0,
            buf@[0] == 1,
        ensures
            (match r {
                Ok(m) => decoded_ok(buf@, m@),
                Err(e) => spec_decode(buf@) is Err && err_corresponds(e, spec_decode(buf@)->Err_0),
            }),
    {
        let len = buf.len();
        if len < 17 {
            return Err(ProtocolError::IncompletMessage);
        }
        let fence_id = read_u64_be(buf, 1);
        let rank = read_u32_be(buf, 9);
        let dl = read_u32_be(buf, 13) as usize;
        if len - 17 < dl {
            return Err(ProtocolError::IncompletMessage);
        }
        let data = copy_range(buf, 17, 17 + dl);
        Ok(CoordMessage::FenceData { fence_id, rank, data })
    }

    fn decode_fence_complete(buf: &Vec<u8>) -> (r: Result<CoordMessage, ProtocolError>)
        requires
            buf@.len() > 0,
            buf@[0] == 2,
        ensures
            (match r {
                Ok(m) => decoded_ok(buf@, m@),
                Err(e) => spec_decode(buf@) is Err && err_corresponds(e, spec_decode(buf@)->Err_0),
            }),
    {
        let len = buf.len();
        if len < 13 {
            return Err(ProtocolError::IncompletMessage);
        }
        let fence_id = read_u64_be(buf, 1);
        let count = read_u32_be(buf, 9) as usize;
        let ghost total = count as int;
        let mut all_data: Vec<(u32, Vec<u8>)> = Vec::new();
        let mut at: usize = 13;
        let mut i: usize = 0;
        while i < count
            invariant
                buf@.len() == len,
                len >= 13,
                buf@[0] == 2,
                fence_id == spec_u64_from_be(buf@.subrange(1, 9)),
                total == spec_u32_from_be(buf@.subrange(9, 13)) as int,
                13 <= at <= len,
                i <= count,
                total == count as int,
                all_data.deep_view().len() == i as int,
                (match spec_parse_entries(buf@, at as int, total - i) {
                    Ok(p) => parsed_entries_ok(buf@, 13, total, all_data.deep_view() + p.0, p.1),
                    Err(e) => spec_parse_entries(buf@, 13, total) == Err::<
                        (Seq<(u32, Seq<u8>)>, int),
                        DecodeErr,
                    >(e),
                }),
            decreases count - i,
        {
            let ghost dv0 = all_data.deep_view();
            if len - at < 8 {
                return Err(ProtocolError::IncompletMessage);
            }
            let rank = read_u32_be(buf, at);
            let dl = read_u32_be(buf, at + 4) as usize;
            if len - (at + 8) < dl {
                return Err(ProtocolError::IncompletMessage);
            }
            let blob = copy_range(buf, at + 8, at + 8 + dl);
            let ghost entry = (rank, blob@);
            all_data.push((rank, blob));
            proof {
                assert(all_data.deep_view() =~~= dv0.push(entry));
                let next = spec_parse_entries(buf@, at + 8 + dl, total - i - 1);
                match next {
                    Ok(p) => {
                        assert(spec_parse_entries(buf@, at as int, total - i)
                            == Ok::<(Seq<(u32, Seq<u8>)>, int), DecodeErr>((seq![entry] + p.0, p.1)));
                        assert(dv0.push(entry) + p.0 =~= dv0 + (seq![entry] + p.0));
                    },
                    Err(e) => {},
                }
            }
            at = at + 8 + dl;
            i = i + 1;
        }
        proof {
            assert(spec_parse_entries(buf@, at as int, 0)
                == Ok::<(Seq<(u32, Seq<u8>)>, int), DecodeErr>((Seq::empty(), at as int)));
            assert(all_data.deep_view() + Seq::<(u32, Seq<u8>)>::empty() =~= all_data.deep_view());
        }
        Ok(CoordMessage::FenceComplete { fence_id, all_data })
    }

    fn decode_modex_request(buf: &Vec<u8>) -> (r: Result<CoordMessage, ProtocolError>)
        requires
            buf@.len() > 0,
            buf@[0] == 3,
        ensures
            (match r {
                Ok(m) => decoded_ok(buf@, m@),
                Err(e) => spec_decode(buf@) is Err && err_corresponds(e, spec_decode(buf@)->Err_0),
            }),
    {
        let len = buf.len();
        if len < 11 {
            return Err(ProtocolError::IncompletMessage);
        }
        let request_id = read_u64_be(buf, 1);
        let nlen = read_u16_be(buf, 9) as usize;
        if len - 11 < nlen + 4 {
            return Err(ProtocolError::IncompletMessage);
        }
        let nspace_bytes = copy_range(buf, 11, 11 + nlen);
        let ghost nb = nspace_bytes@;
        let rank = read_u32_be(buf, 11 + nlen);
        match string_from_utf8(nspace_bytes) {
            Some(nspace) => {
                proof {
                    broadcast use vstd::utf8::encode_utf8_decode_utf8;

                    assert(decode_utf8(encode_utf8(nspace@)) == nspace@);
                }
                Ok(CoordMessage::ModexRequest { request_id, nspace, rank })
            },
            None => Err(ProtocolError::InvalidUtf8),
        }
    }

    fn decode_modex_response(buf: &Vec<u8>) -> (r: Result<CoordMessage, ProtocolError>)
        requires
            buf@.len() > 0,
            buf@[0] == 4,
        ensures
            (match r {
                Ok(m) => decoded_ok(buf@, m@),
                Err(e) => spec_decode(buf@) is Err && err_corresponds(e, spec_decode(buf@)->Err_0),
            }),
    {
        let len = buf.len();
        if len < 10 {
            return Err(ProtocolError::IncompletMessage);
        }
        let request_id = read_u64_be(buf, 1);
        let has_data = buf[9] != 0;
        if has_data {
            if len - 10 < 4 {
                return Err(ProtocolError::IncompletMessage);
            }
            let dl = read_u32_be(buf, 10) as usize;
            if len - 14 < dl {
                return Err(ProtocolError::IncompletMessage);
            }
            let data = copy_range(buf, 14, 14 + dl);
            Ok(CoordMessage::ModexResponse { request_id, data: Some(data) })
        } else {
            Ok(CoordMessage::ModexResponse { request_id, data: None })
        }
    }

    fn decode_ack(buf: &Vec<u8>) -> (r: Result<CoordMessage, ProtocolError>)
        requires
            buf@.len() > 0,
            buf@[0] == 5,
        ensures
            (match r {
                Ok(m) => decoded_ok(buf@, m@),
                Err(e) => spec_decode(buf@) is Err && err_corresponds(e, spec_decode(buf@)->Err_0),
            }),
    {
        let len = buf.len();
        if len < 9 {
            return Err(ProtocolError::IncompletMessage);
        }
        let request_id = read_u64_be(buf, 1);
        Ok(CoordMessage::Ack { request_id })
    }

    fn decode_error(buf: &Vec<u8>) -> (r: Result<CoordMessage, ProtocolError>)
        requires
            buf@.len() > 0,
            buf@[0] == 6,
        ensures
            (match r {
                Ok(m) => decoded_ok(buf@, m@),
                Err(e) => spec_decode(buf@) is Err && err_corresponds(e, spec_decode(buf@)->Err_0),
            }),
    {
        let len = buf.len();
        if len < 11 {
            return Err(ProtocolError::IncompletMessage);
        }
        let request_id = read_u64_be(buf, 1);
        let mlen = read_u16_be(buf, 9) as usize;
        if len - 11 < mlen {
            return Err(ProtocolError::IncompletMessage);
        }
        let msg_bytes = copy_range(buf, 11, 11 + mlen);
        match string_from_utf8(msg_bytes) {
            Some(message) => {
                proof {
                    broadcast use vstd::utf8::encode_utf8_decode_utf8;

                    assert(decode_utf8(encode_utf8(message@)) == message@);
                }
                Ok(CoordMessage::Error { request_id, message })
            },
            None => Err(ProtocolError::InvalidUtf8),
        }
    }
}

/// The entry bytes decompose from the front as well.
proof fn lemma_encode_entries_first(s: Seq<(u32, Seq<u8>)>)
    requires
        s.len() > 0,
    ensures
        spec_encode_entries(s) == spec_encode_entry(s.first()) + spec_encode_entries(
            s.drop_first(),
        ),
    decreases s.len(),
{
    if s.len() == 1 {
        assert(s.drop_last() =~= Seq::empty());
        assert(s.drop_first() =~= Seq::empty());
        assert(s.last() == s.first());
        assert(spec_encode_entry(s.first()) + spec_encode_entries(s.drop_first())
            =~= spec_encode_entries(s));
    } else {
        lemma_encode_entries_first(s.drop_last());
        assert(s.drop_last().first() == s.first());
        assert(s.drop_first().drop_last() =~= s.drop_last().drop_first());
        assert(s.drop_first().last() == s.last());
        assert(spec_encode_entries(s) == spec_encode_entries(s.drop_last()) + spec_encode_entry(
            s.last(),
        ));
        assert(spec_encode_entry(s.first()) + spec_encode_entries(s.drop_first())
            == spec_encode_entry(s.first()) + (spec_encode_entries(s.drop_first().drop_last())
            + spec_encode_entry(s.last())));
        assert(spec_encode_entry(s.first()) + spec_encode_entries(s.drop_first()) =~= (
        spec_encode_entry(s.first()) + spec_encode_entries(s.drop_last().drop_first()))
            + spec_encode_entry(s.last()));
    }
}

/// Parsing entry bytes laid down by `spec_encode_entries` at the tail of a
/// buffer yields the entries back.
proof fn lemma_parse_encode_entries(b: Seq<u8>, at: int, s: Seq<(u32, Seq<u8>)>)
    requires
        entries_wf(s),
        0 <= at,
        b.len() == at + spec_encode_entries(s).len(),
        b.subrange(at, b.len() as int) == spec_encode_entries(s),
    ensures
        parsed_entries_ok(b, at, s.len() as int, s, b.len() as int),
    decreases s.len(),
{
    if s.len() == 0 {
        assert(s =~= Seq::<(u32, Seq<u8>)>::empty());
    } else {
        lemma_encode_entries_first(s);
        let e = s.first();
        let head = spec_encode_entry(e);
        let dl = e.1.len() as int;
        assert(spec_u32_be(e.0).len() == 4);
        assert(spec_u32_be(e.1.len() as u32).len() == 4);
        assert(head.len() == 8 + dl);
        let tail = spec_encode_entries(s.drop_first());
        let w = b.subrange(at, b.len() as int);
        assert(w == head + tail);
        assert(w.len() == head.len() + tail.len());
        assert(b.len() - at >= 8 + dl);
        assert(b.subrange(at, at + 4) =~= w.subrange(0, 4));
        assert(w.subrange(0, 4) =~= spec_u32_be(e.0));
        crate::wire::lemma_u32_be_round_trip(e.0);
        assert(spec_u32_from_be(b.subrange(at, at + 4)) == e.0);
        assert(b.subrange(at + 4, at + 8) =~= w.subrange(4, 8));
        assert(w.subrange(4, 8) =~= spec_u32_be(e.1.len() as u32));
        crate::wire::lemma_u32_be_round_trip(e.1.len() as u32);
        assert(spec_u32_from_be(b.subrange(at + 4, at + 8)) == e.1.len() as u32);
        assert(b.subrange(at + 8, at + 8 + dl) =~= w.subrange(8, 8 + dl));
        assert(w.subrange(8, 8 + dl) =~= e.1);
        assert(b.subrange(at + 8 + dl, b.len() as int) =~= w.subrange(8 + dl, w.len() as int));
        assert(w.subrange(8 + dl, w.len() as int) =~= tail);
        lemma_parse_encode_entries(b, at + 8 + dl, s.drop_first());
        assert(spec_parse_entries(b, at + 8 + dl, s.drop_first().len() as int)
            == Ok::<(Seq<(u32, Seq<u8>)>, int), DecodeErr>((s.drop_first(), b.len() as int)));
        assert(seq![(e.0, e.1)] + s.drop_first() =~= s);
        assert(b.len() - (at + 8) >= dl);
    }
}

/// Decoding an encoded message yields the message back: the round-trip law
/// of the coordination codec.
#[verifier::rlimit(100)]
pub proof fn lemma_decode_encode(v: MsgV)
    requires
        v.wf(),
    ensures
        decoded_ok(spec_encode(v), v),
{
    let b = spec_encode(v);
    match v {
        MsgV::FenceData { fence_id, rank, data } => {
            let dl = data.len() as int;
            assert(b.len() == 17 + dl);
            assert(b[0] == 1);
            assert(b.subrange(1, 9) =~= spec_u64_be(fence_id));
            crate::wire::lemma_u64_be_round_trip(fence_id);
            assert(b.subrange(9, 13) =~= spec_u32_be(rank));
            crate::wire::lemma_u32_be_round_trip(rank);
            assert(b.subrange(13, 17) =~= spec_u32_be(data.len() as u32));
            crate::wire::lemma_u32_be_round_trip(data.len() as u32);
            assert(b.subrange(17, 17 + dl) =~= data);
        },
        MsgV::FenceComplete { fence_id, all_data } => {
            assert(b.len() >= 13);
            assert(b[0] == 2);
            assert(b.subrange(1, 9) =~= spec_u64_be(fence_id));
            crate::wire::lemma_u64_be_round_trip(fence_id);
            assert(b.subrange(9, 13) =~= spec_u32_be(all_data.len() as u32));
            crate::wire::lemma_u32_be_round_trip(all_data.len() as u32);
            assert(b.subrange(13, b.len() as int) =~= spec_encode_entries(all_data));
            lemma_parse_encode_entries(b, 13, all_data);
        },
        MsgV::ModexRequest { request_id, nspace, rank } => {
            let nb = encode_utf8(nspace);
            let nlen = nb.len() as int;
            assert(b.len() == 15 + nlen);
            assert(b[0] == 3);
            assert(b.subrange(1, 9) =~= spec_u64_be(request_id));
            crate::wire::lemma_u64_be_round_trip(request_id);
            assert(b.subrange(9, 11) =~= spec_u16_be(nb.len() as u16));
            crate::wire::lemma_u16_be_round_trip(nb.len() as u16);
            assert(b.subrange(11, 11 + nlen) =~= nb);
            broadcast use vstd::utf8::encode_utf8_valid_utf8;
            broadcast use vstd::utf8::encode_utf8_decode_utf8;

            assert(valid_utf8(nb));
            assert(decode_utf8(nb) == nspace);
            assert(b.subrange(11 + nlen, 15 + nlen) =~= spec_u32_be(rank));
            crate::wire::lemma_u32_be_round_trip(rank);
        },
        MsgV::ModexResponse { request_id, data } => {
            match data {
                Some(d) => {
                    let dl = d.len() as int;
                    assert(b.len() == 14 + dl);
                    assert(b[0] == 4);
                    assert(b.subrange(1, 9) =~= spec_u64_be(request_id));
                    crate::wire::lemma_u64_be_round_trip(request_id);
                    assert(b[9] == 1);
                    assert(b.subrange(10, 14) =~= spec_u32_be(d.len() as u32));
                    crate::wire::lemma_u32_be_round_trip(d.len() as u32);
                    assert(b.subrange(14, 14 + dl) =~= d);
                },
                None => {
                    assert(b.len() == 10);
                    assert(b[0] == 4);
                    assert(b.subrange(1, 9) =~= spec_u64_be(request_id));
                    crate::wire::lemma_u64_be_round_trip(request_id);
                    assert(b[9] == 0);
                },
            }
        },
        MsgV::Ack { request_id } => {
            assert(b.len() == 9);
            assert(b[0] == 5);
            assert(b.subrange(1, 9) =~= spec_u64_be(request_id));
            crate::wire::lemma_u64_be_round_trip(request_id);
        },
        MsgV::Error { request_id, message } => {
            let mb = encode_utf8(message);
            let mlen = mb.len() as int;
            assert(b.len() == 11 + mlen);
            assert(b[0] == 6);
            assert(b.subrange(1, 9) =~= spec_u64_be(request_id));
            crate::wire::lemma_u64_be_round_trip(request_id);
            assert(b.subrange(9, 11) =~= spec_u16_be(mb.len() as u16));
            crate::wire::lemma_u16_be_round_trip(mb.len() as u16);
            assert(b.subrange(11, 11 + mlen) =~= mb);
            broadcast use vstd::utf8::encode_utf8_valid_utf8;
            broadcast use vstd::utf8::encode_utf8_decode_utf8;

            assert(valid_utf8(mb));
            assert(decode_utf8(mb) == message);
        },
    }
}

/// A message as sent over a stream: four big-endian length bytes, then the
/// encoded message.  `send_and_receive` and the connection handler frame
/// every message this way.
pub fn frame_message(encoded: &Vec<u8>) -> (r: Vec<u8>)
    requires
        encoded@.len() <= u32::MAX,
    ensures
        r@ == spec_u32_be(encoded@.len() as u32) + encoded@,
{
    let mut out: Vec<u8> = Vec::new();
    push_u32_be(&mut out, encoded.len() as u32);
    push_slice(&mut out, encoded.as_slice());
    assert(out@ =~= spec_u32_be(encoded@.len() as u32) + encoded@);
    out
}

} // verus!
