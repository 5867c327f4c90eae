//! The wire packet and its binary codec.
//!
//! Layout of an encoded packet, all integers little-endian:
//! sequence number (4 bytes), send timestamp in ms (8 bytes), kind tag
//! (4 bytes), payload length (8 bytes), then the payload itself.

use vstd::prelude::*;
use vstd::bytes::{
    lemma_auto_spec_u32_to_from_le_bytes, lemma_auto_spec_u64_to_from_le_bytes,
    spec_u32_from_le_bytes, spec_u32_to_le_bytes, spec_u64_from_le_bytes, spec_u64_to_le_bytes,
    u32_from_le_bytes, u32_to_le_bytes, u64_from_le_bytes, u64_to_le_bytes,
};
use vstd::slice::slice_to_vec;
use crate::clock::unix_millis_now;

verus! {

/// Length of the fixed part of an encoded packet.
pub const HEADER_LEN: usize = 24;

/// What a packet is for, so that the receiver knows how to treat it.
#[derive(Debug, Clone, Copy, PartialEq, Eq, Structural)]
pub enum PacketType {
    Data,
    Ack,
    Control,
    EchoRequest,
    EchoReply,
}

/// The tag that stands for a packet kind on the wire.
pub open spec fn packet_type_tag(t: PacketType) -> u32 {
    match t {
        PacketType::Data => 0,
        PacketType::Ack => 1,
        PacketType::Control => 2,
        PacketType::EchoRequest => 3,
        PacketType::EchoReply => 4,
    }
}

/// The packet kind a wire tag stands for, if any.
pub open spec fn packet_type_of_tag(tag: u32) -> Option<PacketType> {
    if tag == 0 {
        Some(PacketType::Data)
    } else if tag == 1 {
        Some(PacketType::Ack)
    } else if tag == 2 {
        Some(PacketType::Control)
    } else if tag == 3 {
        Some(PacketType::EchoRequest)
    } else if tag == 4 {
        Some(PacketType::EchoReply)
    } else {
        None
    }
}

fn tag_of_packet_type(t: PacketType) -> (r: u32)
    ensures
        r == packet_type_tag(t),
{
    match t {
        PacketType::Data => 0,
        PacketType::Ack => 1,
        PacketType::Control => 2,
        PacketType::EchoRequest => 3,
        PacketType::EchoReply => 4,
    }
}

fn packet_type_from_tag(tag: u32) -> (r: Option<PacketType>)
    ensures
        r == packet_type_of_tag(tag),
{
    if tag == 0 {
        Some(PacketType::Data)
    } else if tag == 1 {
        Some(PacketType::Ack)
    } else if tag == 2 {
        Some(PacketType::Control)
    } else if tag == 3 {
        Some(PacketType::EchoRequest)
    } else if tag == 4 {
        Some(PacketType::EchoReply)
    } else {
        None
    }
}

/// Sequencing, timing and kind of a packet.
#[derive(Debug, Clone, Copy, PartialEq, Eq, Structural)]
pub struct PacketHeader {
    pub sequence_number: u32,
    /// Sender's wall clock, in milliseconds since the Unix epoch.
    pub timestamp_ms: u64,
    pub packet_type: PacketType,
}

impl PacketHeader {
    /// A header stamped with the current wall-clock time.
    pub fn new(sequence_number: u32, packet_type: PacketType) -> (r: PacketHeader)
        ensures
            r.sequence_number == sequence_number,
            r.packet_type == packet_type,
    {
        PacketHeader { sequence_number, timestamp_ms: unix_millis_now(), packet_type }
    }
}

/// A packet as a mathematical value.
pub struct PacketView {
    pub sequence_number: u32,
    pub timestamp_ms: u64,
    pub packet_type: PacketType,
    pub payload: Seq<u8>,
}

/// A header followed by an opaque payload.
#[derive(Debug, Clone)]
pub struct CustomPacket {
    pub header: PacketHeader,
    pub payload: Vec<u8>,
}

impl View for CustomPacket {
    type V = PacketView;

    open spec fn view(&self) -> PacketView {
        PacketView {
            sequence_number: self.header.sequence_number,
            timestamp_ms: self.header.timestamp_ms,
            packet_type: self.header.packet_type,
            payload: self.payload@,
        }
    }
}

/// Why a byte sequence is not an encoded packet.
#[derive(Debug, Clone, Copy, PartialEq, Eq, Structural)]
pub enum PacketError {
    /// Fewer bytes than the fixed header.
    TooShort,
    /// The kind tag names no packet kind.
    UnknownPacketType(u32),
    /// The declared payload length runs past the end of the input.
    PayloadTruncated,
}

/// The bytes that encode a packet.
pub open spec fn encode_packet(p: PacketView) -> Seq<u8> {
    spec_u32_to_le_bytes(p.sequence_number) + spec_u64_to_le_bytes(p.timestamp_ms)
        + spec_u32_to_le_bytes(packet_type_tag(p.packet_type)) + spec_u64_to_le_bytes(
        p.payload.len() as u64,
    ) + p.payload
}

/// The kind tag field of an encoded packet.
pub open spec fn wire_tag(b: Seq<u8>) -> u32 {
    spec_u32_from_le_bytes(b.subrange(12, 16))
}

/// The payload length field of an encoded packet.
pub open spec fn wire_payload_len(b: Seq<u8>) -> u64 {
    spec_u64_from_le_bytes(b.subrange(16, 24))
}

/// What decoding a byte sequence gives. Bytes past the declared payload
/// are ignored.
pub open spec fn decode_packet(b: Seq<u8>) -> Result<PacketView, PacketError> {
    if b.len() < HEADER_LEN {
        Err(PacketError::TooShort)
    } else if packet_type_of_tag(wire_tag(b)) is None {
        Err(PacketError::UnknownPacketType(wire_tag(b)))
    } else if wire_payload_len(b) > b.len() - HEADER_LEN {
        Err(PacketError::PayloadTruncated)
    } else {
        Ok(
            PacketView {
                sequence_number: spec_u32_from_le_bytes(b.subrange(0, 4)),
                timestamp_ms: spec_u64_from_le_bytes(b.subrange(4, 12)),
                packet_type: packet_type_of_tag(wire_tag(b))->Some_0,
                payload: b.subrange(HEADER_LEN as int, HEADER_LEN + wire_payload_len(b)),
            },
        )
    }
}

/// Decoding the encoding of a packet gives the packet back.
pub proof fn lemma_decode_encode(p: PacketView)
    requires
        p.payload.len() <= u64::MAX,
    ensures
        decode_packet(encode_packet(p)) == Ok::<PacketView, PacketError>(p),
{
    lemma_auto_spec_u32_to_from_le_bytes();
    lemma_auto_spec_u64_to_from_le_bytes();
    let b = encode_packet(p);
    let s0 = spec_u32_to_le_bytes(p.sequence_number);
    let s1 = spec_u64_to_le_bytes(p.timestamp_ms);
    let s2 = spec_u32_to_le_bytes(packet_type_tag(p.packet_type));
    let s3 = spec_u64_to_le_bytes(p.payload.len() as u64);
    assert(b.subrange(0, 4) =~= s0);
    assert(b.subrange(4, 12) =~= s1);
    assert(b.subrange(12, 16) =~= s2);
    assert(b.subrange(16, 24) =~= s3);
    assert(b.subrange(24, 24 + p.payload.len() as int) =~= p.payload);
}

/// An encoded packet is the fixed header followed by the payload.
pub proof fn lemma_encoded_len(p: PacketView)
    ensures
        encode_packet(p).len() == HEADER_LEN + p.payload.len(),
{
    lemma_auto_spec_u32_to_from_le_bytes();
    lemma_auto_spec_u64_to_from_le_bytes();
}

/// A byte sequence that decodes with nothing left over is the encoding of
/// what it decodes to.
pub proof fn lemma_encode_decode(b: Seq<u8>)
    requires
        decode_packet(b) is Ok,
        b.len() == HEADER_LEN + wire_payload_len(b),
    ensures
        encode_packet(decode_packet(b)->Ok_0) == b,
{
    lemma_auto_spec_u32_to_from_le_bytes();
    lemma_auto_spec_u64_to_from_le_bytes();
    let p = decode_packet(b)->Ok_0;
    assert(b.subrange(0, 4).len() == 4);
    assert(b.subrange(4, 12).len() == 8);
    assert(b.subrange(12, 16).len() == 4);
    assert(b.subrange(16, 24).len() == 8);
    assert(packet_type_tag(p.packet_type) == wire_tag(b));
    assert(encode_packet(p) =~= b.subrange(0, 4) + b.subrange(4, 12) + b.subrange(12, 16)
        + b.subrange(16, 24) + b.subrange(24, b.len() as int));
    assert(encode_packet(p) =~= b);
}

impl CustomPacket {
    /// A data packet with the given sequence number and a zero-filled payload.
    pub fn new_data_packet(sequence_number: u32, payload_size_bytes: usize) -> (r: CustomPacket)
        ensures
            r@.sequence_number == sequence_number,
            r@.packet_type == PacketType::Data,
            r@.payload == Seq::new(payload_size_bytes as nat, |i: int| 0u8),
    {
        CustomPacket {
            header: PacketHeader::new(sequence_number, PacketType::Data),
            payload: zeroed_payload(payload_size_bytes),
        }
    }

    /// An echo request with the given sequence number and a zero-filled payload.
    pub fn new_echo_request(sequence_number: u32, payload_size_bytes: usize) -> (r: CustomPacket)
        ensures
            r@.sequence_number == sequence_number,
            r@.packet_type == PacketType::EchoRequest,
            r@.payload == Seq::new(payload_size_bytes as nat, |i: int| 0u8),
    {
        CustomPacket {
            header: PacketHeader::new(sequence_number, PacketType::EchoRequest),
            payload: zeroed_payload(payload_size_bytes),
        }
    }

    /// The reply to an echo request: the request's sequence number,
    /// timestamp and payload, with kind `EchoReply`.
    pub fn new_echo_reply(request_packet: &CustomPacket) -> (r: CustomPacket)
        ensures
            r@ == echo_reply_of(request_packet@),
    {
        CustomPacket {
            header: PacketHeader {
                sequence_number: request_packet.header.sequence_number,
                timestamp_ms: request_packet.header.timestamp_ms,
                packet_type: PacketType::EchoReply,
            },
            payload: slice_to_vec(request_packet.payload.as_slice()),
        }
    }

    /// Encodes the packet. Encoding never fails and never truncates.
    pub fn to_bytes(&self) -> (r: Result<Vec<u8>, PacketError>)
        ensures
            r matches Ok(b) && b@ == encode_packet(self@),
    {
        let mut out = u32_to_le_bytes(self.header.sequence_number);
        let mut ts = u64_to_le_bytes(self.header.timestamp_ms);
        out.append(&mut ts);
        let mut tag = u32_to_le_bytes(tag_of_packet_type(self.header.packet_type));
        out.append(&mut tag);
        let mut len = u64_to_le_bytes(self.payload.len() as u64);
        out.append(&mut len);
        let mut body = slice_to_vec(self.payload.as_slice());
        out.append(&mut body);
        Ok(out)
    }

    /// Decodes a packet from the front of `bytes`.
    pub fn from_bytes(bytes: &[u8]) -> (r: Result<CustomPacket, PacketError>)
        ensures
            r matches Ok(p) ==> decode_packet(bytes@) == Ok::<PacketView, PacketError>(p@),
            r matches Err(e) ==> decode_packet(bytes@) == Err::<PacketView, PacketError>(e),
    {
        if bytes.len() < HEADER_LEN {
            return Err(PacketError::TooShort);
        }
        let tag = u32_from_le_bytes(&bytes[12..16]);
        let packet_type = match packet_type_from_tag(tag) {
            Some(t) => t,
            None => {
                return Err(PacketError::UnknownPacketType(tag));
            },
        };
        let declared = u64_from_le_bytes(&bytes[16..24]);
        let available = bytes.len() - HEADER_LEN;
        if declared > available as u64 {
            return Err(PacketError::PayloadTruncated);
        }
        let end = HEADER_LEN + declared as usize;
        let sequence_number = u32_from_le_bytes(&bytes[0..4]);
        let timestamp_ms = u64_from_le_bytes(&bytes[4..12]);
        let payload = slice_to_vec(&bytes[HEADER_LEN..end]);
        Ok(CustomPacket { header: PacketHeader { sequence_number, timestamp_ms, packet_type }, payload })
    }
}

/// The reply that answers an echo request.
pub open spec fn echo_reply_of(req: PacketView) -> PacketView {
    PacketView { packet_type: PacketType::EchoReply, ..req }
}

/// An echo reply carries the sequence number and wire timestamp of the
/// request it answers, unchanged, and decodes back to itself.
pub proof fn law_echo_reply_keeps_sequence_and_timestamp(req: PacketView)
    requires
        req.payload.len() <= u64::MAX,
    ensures
        echo_reply_of(req).sequence_number == req.sequence_number,
        echo_reply_of(req).timestamp_ms == req.timestamp_ms,
        echo_reply_of(req).packet_type == PacketType::EchoReply,
        decode_packet(encode_packet(echo_reply_of(req))) == Ok::<PacketView, PacketError>(
            echo_reply_of(req),
        ),
{
    lemma_decode_encode(echo_reply_of(req));
}

fn zeroed_payload(n: usize) -> (r: Vec<u8>)
    ensures
        r@ == Seq::new(n as nat, |i: int| 0u8),
{
    let mut v: Vec<u8> = Vec::with_capacity(n);
    let mut i: usize = 0;
    while i < n
        invariant
            i <= n,
            v@ == Seq::new(i as nat, |k: int| 0u8),
        decreases n - i,
    {
        v.push(0u8);
        i = i + 1;
        assert(v@ =~= Seq::new(i as nat, |k: int| 0u8));
    }
    v
}

/// Big-endian bytes of a `u32`.
pub open spec fn be_bytes_u32(x: u32) -> Seq<u8> {
    seq![(x >> 24u32) as u8, (x >> 16u32) as u8, (x >> 8u32) as u8, x as u8]
}

/// Big-endian bytes of a `u64`.
pub open spec fn be_bytes_u64(x: u64) -> Seq<u8> {
    seq![
        (x >> 56u64) as u8,
        (x >> 48u64) as u8,
        (x >> 40u64) as u8,
        (x >> 32u64) as u8,
        (x >> 24u64) as u8,
        (x >> 16u64) as u8,
        (x >> 8u64) as u8,
        x as u8,
    ]
}

/// The `u32` whose big-endian bytes are the four given ones.
pub open spec fn u32_of_be_bytes(b: Seq<u8>) -> u32 {
    (b[0] as u32) << 24u32 | (b[1] as u32) << 16u32 | (b[2] as u32) << 8u32 | (b[3] as u32)
}

/// The `u64` whose big-endian bytes are the eight given ones.
pub open spec fn u64_of_be_bytes(b: Seq<u8>) -> u64 {
    (b[0] as u64) << 56u64 | (b[1] as u64) << 48u64 | (b[2] as u64) << 40u64 | (b[3] as u64)
        << 32u64 | (b[4] as u64) << 24u64 | (b[5] as u64) << 16u64 | (b[6] as u64) << 8u64 | (
    b[7] as u64)
}

pub(crate) fn push_be_u32(out: &mut Vec<u8>, x: u32)
    ensures
        final(out)@ == old(out)@ + be_bytes_u32(x),
{
    out.push((x >> 24u32) as u8);
    out.push((x >> 16u32) as u8);
    out.push((x >> 8u32) as u8);
    out.push(x as u8);
    assert(final(out)@ =~= old(out)@ + be_bytes_u32(x));
}

fn push_be_u64(out: &mut Vec<u8>, x: u64)
    ensures
        final(out)@ == old(out)@ + be_bytes_u64(x),
{
    out.push((x >> 56u64) as u8);
    out.push((x >> 48u64) as u8);
    out.push((x >> 40u64) as u8);
    out.push((x >> 32u64) as u8);
    out.push((x >> 24u64) as u8);
    out.push((x >> 16u64) as u8);
    out.push((x >> 8u64) as u8);
    out.push(x as u8);
    assert(final(out)@ =~= old(out)@ + be_bytes_u64(x));
}

pub(crate) fn read_be_u32(b: &[u8]) -> (r: u32)
    requires
        b@.len() == 4,
    ensures
        r == u32_of_be_bytes(b@),
{
    (b[0] as u32) << 24u32 | (b[1] as u32) << 16u32 | (b[2] as u32) << 8u32 | (b[3] as u32)
}

fn read_be_u64(b: &[u8]) -> (r: u64)
    requires
        b@.len() == 8,
    ensures
        r == u64_of_be_bytes(b@),
{
    (b[0] as u64) << 56u64 | (b[1] as u64) << 48u64 | (b[2] as u64) << 40u64 | (b[3] as u64)
        << 32u64 | (b[4] as u64) << 24u64 | (b[5] as u64) << 16u64 | (b[6] as u64) << 8u64 | (
    b[7] as u64)
}

/// The simpler fixed layout: big-endian sequence number, big-endian
/// timestamp, then the payload, with no kind and no length field.
#[derive(Debug, Clone)]
pub struct DataPacket {
    pub sequence_number: u32,
    pub timestamp_ms: u64,
    pub payload: Vec<u8>,
}

impl DataPacket {
    pub fn to_bytes(&self) -> (r: Vec<u8>)
        ensures
            r@ == be_bytes_u32(self.sequence_number) + be_bytes_u64(self.timestamp_ms)
                + self.payload@,
    {
        let mut bytes: Vec<u8> = Vec::new();
        push_be_u32(&mut bytes, self.sequence_number);
        push_be_u64(&mut bytes, self.timestamp_ms);
        let mut body = slice_to_vec(self.payload.as_slice());
        bytes.append(&mut body);
        bytes
    }

    /// Fails exactly when `data` is shorter than the 12-byte header.
    pub fn from_bytes(data: &[u8]) -> (r: Result<DataPacket, &'static str>)
        ensures
            r is Err <==> data@.len() < 12,
            r matches Ok(p) ==> {
                &&& p.sequence_number == u32_of_be_bytes(data@.subrange(0, 4))
                &&& p.timestamp_ms == u64_of_be_bytes(data@.subrange(4, 12))
                &&& p.payload@ == data@.subrange(12, data@.len() as int)
            },
    {
        if data.len() < 12 {
            return Err("Packet too short for header");
        }
        let sequence_number = read_be_u32(&data[0..4]);
        let timestamp_ms = read_be_u64(&data[4..12]);
        let payload = slice_to_vec(&data[12..data.len()]);
        Ok(DataPacket { sequence_number, timestamp_ms, payload })
    }
}

} // verus!
