//! The decisions of the UDP and TCP engines and of the role dispatcher.
//!
//! Each function here is one step of a send or receive loop: it takes what
//! the socket produced (bytes, a measured RTT) and the shared metrics, and
//! returns what the loop must send next. Sockets, timers and tasks belong to
//! the caller, which runs the loop around these steps.

use vstd::prelude::*;
use crate::anomalies::{appended, lemma_appended_trans, AnomalyType};
use crate::config::{Protocol, TcpBidirectionalMode, TestConfig, TestMode};
use crate::metrics::{out_of_order_text, TestMetrics};
use crate::packet::{
    be_bytes_u32, decode_packet, echo_reply_of, encode_packet, lemma_encoded_len, push_be_u32,
    read_be_u32, u32_of_be_bytes, CustomPacket, PacketError, PacketType, PacketView, HEADER_LEN,
};
use crate::text::{decimal, decimal_string};
use vstd::slice::slice_to_vec;
use vstd::string::StringSliceAdditionalSpecFns;

verus! {

/// `std::io::Error`, carried opaquely inside `NetworkError::IoError`.
#[verifier::external_type_specification]
#[verifier::external_body]
pub struct ExIoError(std::io::Error);

/// Why a run failed.
#[derive(Debug)]
pub enum NetworkError {
    IoError(std::io::Error),
    SerializationError(String),
    HandshakeError(String),
    Timeout,
    Other(String),
    InvalidAddress(String),
    UnsupportedMode(String),
}

impl From<std::io::Error> for NetworkError {
    fn from(err: std::io::Error) -> (r: NetworkError) {
        NetworkError::IoError(err)
    }
}

impl vstd::std_specs::convert::FromSpecImpl<std::io::Error> for NetworkError {
    open spec fn obeys_from_spec() -> bool {
        true
    }

    open spec fn from_spec(v: std::io::Error) -> NetworkError {
        NetworkError::IoError(v)
    }
}

/// A human-readable account of a decoding failure.
pub open spec fn packet_error_text(e: PacketError) -> Seq<char> {
    match e {
        PacketError::TooShort => "packet shorter than its header"@,
        PacketError::UnknownPacketType(tag) => "unknown packet type tag "@ + decimal(tag as nat),
        PacketError::PayloadTruncated => "payload runs past the end of the packet"@,
    }
}

/// The run error that stands for a decoding failure.
pub fn serialization_error(e: PacketError) -> (r: NetworkError)
    ensures
        r matches NetworkError::SerializationError(m) && m@ == packet_error_text(e),
{
    let message = match e {
        PacketError::TooShort => String::from_str("packet shorter than its header"),
        PacketError::UnknownPacketType(tag) => String::from_str("unknown packet type tag ").concat(
            decimal_string(tag as u128).as_str(),
        ),
        PacketError::PayloadTruncated => String::from_str("payload runs past the end of the packet"),
    };
    NetworkError::SerializationError(message)
}

// ---- sequencing and pacing ----

/// The sequence number after `seq`, wrapping modulo 2^32.
pub fn next_sequence_number(seq: u32) -> (r: u32)
    ensures
        r == (seq + 1) % 0x1_0000_0000,
{
    seq.wrapping_add(1)
}

/// Whether a sender may start another packet `elapsed_ms` into a run of
/// `duration_secs` seconds.
pub fn keep_sending(elapsed_ms: u128, duration_secs: u64) -> (r: bool)
    ensures
        r == (elapsed_ms < duration_secs * 1000),
{
    elapsed_ms < duration_secs as u128 * 1000
}

/// Longest wait for an echo reply, in nanoseconds.
pub const MAX_REPLY_WAIT_NANOS: u64 = 200_000_000;

/// How long a sender waits for the echo reply to each request: 200 ms, or
/// one pacing interval if that is shorter (tick rate 0 means no pacing).
pub fn reply_wait_nanos(tick_rate_hz: u32) -> (r: u64)
    ensures
        r == if tick_rate_hz > 0 && 1_000_000_000int / (tick_rate_hz as int) < MAX_REPLY_WAIT_NANOS {
            1_000_000_000int / (tick_rate_hz as int)
        } else {
            MAX_REPLY_WAIT_NANOS as int
        },
{
    if tick_rate_hz > 0 {
        let interval = 1_000_000_000u64 / tick_rate_hz as u64;
        if interval < MAX_REPLY_WAIT_NANOS {
            return interval;
        }
    }
    MAX_REPLY_WAIT_NANOS
}

/// Relies on `rand::Rng::gen_range` over `rand::thread_rng()`: a value drawn
/// from the inclusive range `lo..=hi`, which must not be empty.
#[verifier::external_body]
fn random_in_range(lo: usize, hi: usize) -> (r: usize)
    requires
        lo <= hi,
    ensures
        lo <= r <= hi,
{
    rand::Rng::gen_range(&mut rand::thread_rng(), lo..=hi)
}

/// The payload size of the next packet: the fixed size, or a size drawn
/// uniformly from the configured range.
pub fn next_payload_size(config: &TestConfig) -> (r: usize)
    requires
        config.valid_size_range(),
    ensures
        match config.packet_size_range {
            Some((lo, hi)) => lo <= r <= hi,
            None => r == config.packet_size_bytes,
        },
{
    match config.packet_size_range {
        Some((lo, hi)) => random_in_range(lo, hi),
        None => config.packet_size_bytes,
    }
}

/// A packet of the given kind, sequence number, timestamp and zero payload.
pub open spec fn zero_packet(kind: PacketType, seq: u32, ts: u64, size: nat) -> PacketView {
    PacketView {
        sequence_number: seq,
        timestamp_ms: ts,
        packet_type: kind,
        payload: Seq::new(size, |i: int| 0u8),
    }
}

// ---- UDP ----

/// One step of the UDP send loop: encodes an echo request with this
/// sequence number and a zero payload of `payload_size` bytes, counts the
/// datagram as sent, and returns it.
pub fn udp_next_datagram(
    metrics: &mut TestMetrics,
    sequence_number: u32,
    payload_size: usize,
) -> (datagram: Vec<u8>)
    requires
        old(metrics).wf(),
        old(metrics).sent_fits((payload_size + HEADER_LEN) as nat),
    ensures
        exists|ts: u64|
            datagram@ == encode_packet(
                #[trigger] zero_packet(PacketType::EchoRequest, sequence_number, ts, payload_size as nat),
            ),
        final(metrics).wf(),
        TestMetrics::sent_update(*old(metrics), *final(metrics), datagram@.len()),
{
    let packet = CustomPacket::new_echo_request(sequence_number, payload_size);
    let bytes = match packet.to_bytes() {
        Ok(b) => b,
        Err(_) => Vec::new(),
    };
    assert(packet@ == zero_packet(
        PacketType::EchoRequest,
        sequence_number,
        packet.header.timestamp_ms,
        payload_size as nat,
    ));
    proof {
        lemma_encoded_len(packet@);
    }
    metrics.record_packet_sent(bytes.len());
    bytes
}

/// Whether `reply` answers the request with sequence number `expected_seq`.
pub open spec fn is_matching_reply(reply: Seq<u8>, expected_seq: u32) -> bool {
    decode_packet(reply) matches Ok(p) && p.packet_type == PacketType::EchoReply
        && p.sequence_number == expected_seq
}

/// Handles a datagram that arrived on the sending socket `rtt_micros` after
/// the request `expected_seq` went out. An echo reply to that request counts
/// as a receipt with that RTT; anything else is ignored.
pub fn udp_handle_reply(
    metrics: &mut TestMetrics,
    expected_seq: u32,
    reply: &[u8],
    rtt_micros: u128,
) -> (matched: bool)
    requires
        old(metrics).wf(),
        old(metrics).received_fits(reply@.len(), rtt_micros),
    ensures
        final(metrics).wf(),
        matched == is_matching_reply(reply@, expected_seq),
        !matched ==> *final(metrics) == *old(metrics),
        matched ==> TestMetrics::received_update(
            *old(metrics),
            *final(metrics),
            reply@.len(),
            rtt_micros,
        ),
{
    match CustomPacket::from_bytes(reply) {
        Ok(p) => {
            if p.header.packet_type == PacketType::EchoReply && p.header.sequence_number
                == expected_seq {
                metrics.record_packet_received(reply.len(), rtt_micros);
                true
            } else {
                false
            }
        },
        Err(_) => false,
    }
}

/// Below this, a sequence number may have wrapped around.
pub const WRAP_LOW: u32 = 0x4000_0000;

/// Above this, the highest sequence number seen may be about to wrap around.
pub const WRAP_HIGH: u32 = 0xC000_0000;

/// Whether `current` arriving after `highest` is a reordering rather than
/// the sequence wrapping around.
pub open spec fn is_out_of_order(current: u32, highest: u32) -> bool {
    current < highest && !(current < WRAP_LOW && highest > WRAP_HIGH)
}

/// The highest sequence number seen after `current` arrives.
pub open spec fn next_highest(highest: Option<u32>, current: u32) -> u32 {
    match highest {
        Some(h) if h >= current => h,
        _ => current,
    }
}

/// The state of a UDP receive loop: the highest sequence number seen.
#[derive(Debug, Clone, Copy, PartialEq, Eq, Structural)]
pub struct UdpReceiver {
    pub highest_seq_received: Option<u32>,
}

impl UdpReceiver {
    pub fn new() -> (r: UdpReceiver)
        ensures
            r.highest_seq_received is None,
    {
        UdpReceiver { highest_seq_received: None }
    }

    /// Handles one datagram. A malformed one is rejected and changes
    /// nothing. Otherwise it counts as received (without RTT), is flagged if
    /// it arrived out of order, and, if it is an echo request, the encoded
    /// reply to send back to its source is returned.
    pub fn on_datagram(&mut self, metrics: &mut TestMetrics, data: &[u8]) -> (r: Result<
        Option<Vec<u8>>,
        PacketError,
    >)
        requires
            old(metrics).wf(),
            old(metrics).received_fits(data@.len(), 0),
            old(metrics).out_of_order_count < u64::MAX,
        ensures
            match decode_packet(data@) {
                Err(e) => {
                    &&& r == Err::<Option<Vec<u8>>, PacketError>(e)
                    &&& *final(metrics) == *old(metrics)
                    &&& *final(self) == *old(self)
                },
                Ok(p) => {
                    let ooo = old(self).highest_seq_received matches Some(h) && is_out_of_order(
                        p.sequence_number,
                        h,
                    );
                    &&& final(self).highest_seq_received == Some(
                        next_highest(old(self).highest_seq_received, p.sequence_number),
                    )
                    &&& final(metrics).wf()
                    &&& TestMetrics::received_update(
                        *old(metrics),
                        (TestMetrics {
                            out_of_order_count: old(metrics).out_of_order_count,
                            anomalies: old(metrics).anomalies,
                            ..*final(metrics)
                        }),
                        data@.len(),
                        0,
                    )
                    &&& final(metrics).out_of_order_count == old(metrics).out_of_order_count + (
                    if ooo {
                        1int
                    } else {
                        0int
                    })
                    &&& appended(
                        old(metrics).anomalies@,
                        final(metrics).anomalies@,
                        if ooo {
                            seq![
                                (
                                    AnomalyType::OutOfOrder,
                                    out_of_order_text(
                                        p.sequence_number,
                                        old(self).highest_seq_received->Some_0,
                                    ),
                                ),
                            ]
                        } else {
                            seq![]
                        },
                    )
                    &&& match r {
                        Ok(Some(reply)) => p.packet_type == PacketType::EchoRequest && reply@
                            == encode_packet(echo_reply_of(p)),
                        Ok(None) => p.packet_type != PacketType::EchoRequest,
                        Err(_) => false,
                    }
                },
            },
    {
        let packet = match CustomPacket::from_bytes(data) {
            Ok(p) => p,
            Err(e) => {
                return Err(e);
            },
        };
        let current_seq = packet.header.sequence_number;
        let ghost before = metrics.anomalies@;
        metrics.record_packet_received(data.len(), 0);
        let ghost mid = metrics.anomalies@;
        match self.highest_seq_received {
            Some(highest_seen) => {
                let is_likely_wrap = current_seq < WRAP_LOW && highest_seen > WRAP_HIGH;
                if current_seq < highest_seen && !is_likely_wrap {
                    metrics.record_out_of_order(current_seq, highest_seen);
                    proof {
                        let added = seq![
                            (AnomalyType::OutOfOrder, out_of_order_text(current_seq, highest_seen)),
                        ];
                        lemma_appended_trans(before, mid, metrics.anomalies@, seq![], added);
                        assert(seq![] + added =~= added);
                    }
                }
            },
            None => {},
        }
        self.highest_seq_received = Some(
            match self.highest_seq_received {
                Some(h) if h >= current_seq => h,
                _ => current_seq,
            },
        );
        if packet.header.packet_type == PacketType::EchoRequest {
            let reply_packet = CustomPacket::new_echo_reply(&packet);
            match reply_packet.to_bytes() {
                Ok(reply_bytes) => Ok(Some(reply_bytes)),
                Err(e) => Err(e),
            }
        } else {
            Ok(None)
        }
    }
}

// ---- TCP ----

/// Largest frame body a receiver accepts.
pub const MAX_FRAME_LEN: usize = 10 * 1024 * 1024;

/// Length of the prefix that carries a frame's body length.
pub const FRAME_PREFIX_LEN: usize = 4;

/// A frame on a TCP stream: the body length as 4 big-endian bytes, then the body.
pub open spec fn frame_of(body: Seq<u8>) -> Seq<u8> {
    be_bytes_u32(body.len() as u32) + body
}

/// Frames `body` for a TCP stream.
pub fn frame_body(body: &[u8]) -> (r: Vec<u8>)
    requires
        body@.len() <= u32::MAX,
    ensures
        r@ == frame_of(body@),
{
    let mut out: Vec<u8> = Vec::new();
    push_be_u32(&mut out, body.len() as u32);
    let mut rest = slice_to_vec(body);
    out.append(&mut rest);
    out
}

/// One step of the TCP send loop: encodes a data packet with this sequence
/// number and a zero payload of `payload_size` bytes, frames it, counts the
/// whole frame (prefix included) as sent, and returns it.
pub fn tcp_next_frame(
    metrics: &mut TestMetrics,
    sequence_number: u32,
    payload_size: usize,
) -> (frame: Vec<u8>)
    requires
        old(metrics).wf(),
        payload_size + HEADER_LEN <= u32::MAX,
        old(metrics).sent_fits((payload_size + HEADER_LEN + FRAME_PREFIX_LEN) as nat),
    ensures
        exists|ts: u64|
            frame@ == frame_of(
                encode_packet(
                    #[trigger] zero_packet(PacketType::Data, sequence_number, ts, payload_size as nat),
                ),
            ),
        frame@.len() == payload_size + HEADER_LEN + FRAME_PREFIX_LEN,
        final(metrics).wf(),
        TestMetrics::sent_update(*old(metrics), *final(metrics), frame@.len()),
{
    let packet = CustomPacket::new_data_packet(sequence_number, payload_size);
    let data = match packet.to_bytes() {
        Ok(b) => b,
        Err(_) => Vec::new(),
    };
    proof {
        lemma_encoded_len(packet@);
    }
    assert(packet@ == zero_packet(
        PacketType::Data,
        sequence_number,
        packet.header.timestamp_ms,
        payload_size as nat,
    ));
    let frame = frame_body(data.as_slice());
    metrics.record_packet_sent(frame.len());
    frame
}

/// Reads a frame prefix: `Ok(None)` for an empty frame, which carries
/// nothing and is skipped; `Ok(Some(n))` for a body of `n` bytes; an error
/// when the length is over the limit, after which the connection is closed.
pub fn frame_length(prefix: &[u8]) -> (r: Result<Option<usize>, NetworkError>)
    requires
        prefix@.len() == FRAME_PREFIX_LEN,
    ensures
        u32_of_be_bytes(prefix@) == 0 ==> r matches Ok(None),
        0 < u32_of_be_bytes(prefix@) <= MAX_FRAME_LEN ==> (r matches Ok(Some(n)) && n
            == u32_of_be_bytes(prefix@)),
        u32_of_be_bytes(prefix@) > MAX_FRAME_LEN ==> r matches Err(
            NetworkError::SerializationError(_),
        ),
{
    let packet_len = read_be_u32(prefix);
    if packet_len == 0 {
        Ok(None)
    } else if packet_len as usize > MAX_FRAME_LEN {
        Err(NetworkError::SerializationError(String::from_str("Excessive packet length")))
    } else {
        Ok(Some(packet_len as usize))
    }
}

/// Handles one frame body read from a TCP stream. A malformed packet is
/// rejected and changes nothing; otherwise the frame, prefix included,
/// counts as received (without RTT).
pub fn on_tcp_frame(metrics: &mut TestMetrics, body: &[u8]) -> (r: Result<(), PacketError>)
    requires
        old(metrics).wf(),
        body@.len() <= MAX_FRAME_LEN,
        old(metrics).received_fits(body@.len() + FRAME_PREFIX_LEN as nat, 0),
    ensures
        match decode_packet(body@) {
            Err(e) => r == Err::<(), PacketError>(e) && *final(metrics) == *old(metrics),
            Ok(_) => r is Ok && final(metrics).wf() && TestMetrics::received_update(
                *old(metrics),
                *final(metrics),
                body@.len() + FRAME_PREFIX_LEN as nat,
                0,
            ),
        },
{
    match CustomPacket::from_bytes(body) {
        Ok(_) => {
            metrics.record_packet_received(body.len() + FRAME_PREFIX_LEN, 0);
            Ok(())
        },
        Err(e) => Err(e),
    }
}

/// What a receiver does with a stream of bytes: reads a prefix, then a body
/// of that length, and again, until the stream ends. The bodies are what it
/// reads; a stream that ends inside a frame yields the bodies before it.
pub open spec fn stream_bodies(stream: Seq<u8>) -> Seq<Seq<u8>>
    decreases stream.len(),
{
    if stream.len() < FRAME_PREFIX_LEN {
        seq![]
    } else {
        let n = u32_of_be_bytes(stream.subrange(0, 4));
        if stream.len() < FRAME_PREFIX_LEN + n {
            seq![]
        } else {
            seq![stream.subrange(4, 4 + n)] + stream_bodies(
                stream.subrange(4 + n, stream.len() as int),
            )
        }
    }
}

/// The stream a sender writes: its frames one after another.
pub open spec fn stream_of(bodies: Seq<Seq<u8>>) -> Seq<u8>
    decreases bodies.len(),
{
    if bodies.len() == 0 {
        seq![]
    } else {
        frame_of(bodies[0]) + stream_of(bodies.drop_first())
    }
}

/// Total bytes a sender counts for its frames, prefixes included.
pub open spec fn framed_bytes(bodies: Seq<Seq<u8>>) -> nat
    decreases bodies.len(),
{
    if bodies.len() == 0 {
        0
    } else {
        bodies[0].len() + FRAME_PREFIX_LEN as nat + framed_bytes(bodies.drop_first())
    }
}

proof fn lemma_be_u32_round_trip(x: u32)
    ensures
        u32_of_be_bytes(be_bytes_u32(x)) == x,
{
    let b = be_bytes_u32(x);
    let b0 = (x >> 24u32) as u8;
    let b1 = (x >> 16u32) as u8;
    let b2 = (x >> 8u32) as u8;
    let b3 = x as u8;
    assert(b[0] == b0 && b[1] == b1 && b[2] == b2 && b[3] == b3);
    assert(((x >> 24u32) as u8) as u32 == (x >> 24u32) & 0xff) by (bit_vector);
    assert(((x >> 16u32) as u8) as u32 == (x >> 16u32) & 0xff) by (bit_vector);
    assert(((x >> 8u32) as u8) as u32 == (x >> 8u32) & 0xff) by (bit_vector);
    assert((x as u8) as u32 == x & 0xff) by (bit_vector);
    assert(((x >> 24u32) & 0xff) << 24u32 | ((x >> 16u32) & 0xff) << 16u32 | ((x >> 8u32) & 0xff)
        << 8u32 | (x & 0xff) == x) by (bit_vector);
}

/// A frame of a body within the size limit reads back as that body: the
/// prefix gives the body's length, and the sender's count of the frame
/// equals the receiver's count of body plus prefix.
pub proof fn law_frame_round_trip(body: Seq<u8>)
    requires
        body.len() <= MAX_FRAME_LEN,
    ensures
        u32_of_be_bytes(frame_of(body).subrange(0, 4)) == body.len(),
        frame_of(body).subrange(4, frame_of(body).len() as int) == body,
        frame_of(body).len() == body.len() + FRAME_PREFIX_LEN,
{
    lemma_be_u32_round_trip(body.len() as u32);
    assert(frame_of(body).subrange(0, 4) =~= be_bytes_u32(body.len() as u32));
    assert(frame_of(body).subrange(4, frame_of(body).len() as int) =~= body);
}

/// On one TCP stream the receiver reads back exactly the frames the sender
/// wrote, in order: as many packets are received as were sent, and the
/// bytes the receiver counts (each body plus its prefix) equal the bytes
/// the sender counted.
pub proof fn law_stream_round_trip(bodies: Seq<Seq<u8>>)
    requires
        forall|i: int| 0 <= i < bodies.len() ==> (#[trigger] bodies[i]).len() <= MAX_FRAME_LEN,
    ensures
        stream_bodies(stream_of(bodies)) == bodies,
        stream_of(bodies).len() == framed_bytes(bodies),
    decreases bodies.len(),
{
    if bodies.len() == 0 {
        assert(stream_bodies(stream_of(bodies)) =~= bodies);
    } else {
        let rest = bodies.drop_first();
        assert forall|i: int| 0 <= i < rest.len() implies (#[trigger] rest[i]).len()
            <= MAX_FRAME_LEN by {
            assert(rest[i] == bodies[i + 1]);
        }
        law_stream_round_trip(rest);
        let body = bodies[0];
        law_frame_round_trip(body);
        let s = stream_of(bodies);
        let f = frame_of(body);
        let n = body.len();
        assert(s == f + stream_of(rest));
        assert(s.subrange(0, 4) =~= f.subrange(0, 4));
        assert(s.subrange(4, 4 + n as int) =~= body);
        assert(s.subrange(4 + n as int, s.len() as int) =~= stream_of(rest));
        assert(stream_bodies(s) =~= seq![body] + stream_bodies(stream_of(rest)));
        assert(seq![body] + rest =~= bodies);
    }
}

/// A stream cut short anywhere, as when the connection ends early, reads
/// back as the first frames the sender wrote: never more packets than were
/// sent.
pub proof fn law_stream_prefix_received_at_most_sent(bodies: Seq<Seq<u8>>, cut: int)
    requires
        forall|i: int| 0 <= i < bodies.len() ==> (#[trigger] bodies[i]).len() <= MAX_FRAME_LEN,
        0 <= cut <= stream_of(bodies).len(),
    ensures
        stream_bodies(stream_of(bodies).subrange(0, cut)).len() <= bodies.len(),
        stream_bodies(stream_of(bodies).subrange(0, cut)) == bodies.subrange(
            0,
            stream_bodies(stream_of(bodies).subrange(0, cut)).len() as int,
        ),
    decreases bodies.len(),
{
    let s = stream_of(bodies);
    let p = s.subrange(0, cut);
    if bodies.len() == 0 {
        assert(p.len() == 0);
        assert(stream_bodies(p) =~= bodies.subrange(0, 0));
    } else {
        let rest = bodies.drop_first();
        assert forall|i: int| 0 <= i < rest.len() implies (#[trigger] rest[i]).len()
            <= MAX_FRAME_LEN by {
            assert(rest[i] == bodies[i + 1]);
        }
        let body = bodies[0];
        let n = body.len() as int;
        law_frame_round_trip(body);
        let f = frame_of(body);
        assert(s == f + stream_of(rest));
        if cut < FRAME_PREFIX_LEN {
            assert(stream_bodies(p) =~= bodies.subrange(0, 0));
        } else {
            assert(p.subrange(0, 4) =~= f.subrange(0, 4));
            if cut < 4 + n {
                assert(stream_bodies(p) =~= bodies.subrange(0, 0));
            } else {
                let tail_cut = cut - 4 - n;
                law_stream_prefix_received_at_most_sent(rest, tail_cut);
                assert(p.subrange(4, 4 + n) =~= body);
                assert(p.subrange(4 + n, p.len() as int) =~= stream_of(rest).subrange(0, tail_cut));
                let tail = stream_bodies(stream_of(rest).subrange(0, tail_cut));
                assert(stream_bodies(p) == seq![body] + tail);
                assert(seq![body] + tail =~= bodies.subrange(0, tail.len() + 1int));
            }
        }
    }
}

// ---- receive loop events ----

/// What a receive loop sees besides a datagram or a complete frame.
#[derive(Debug, Clone, Copy, PartialEq, Eq, Structural)]
pub enum ReceiveEvent {
    /// The shutdown deadline (run length plus grace) has passed.
    Deadline,
    /// The 1 Hz bandwidth sampler fired.
    SampleTick,
    /// A UDP receive reported a connection reset (an ICMP port unreachable).
    ConnectionReset,
    /// The stream ended cleanly, between frames.
    EndOfStream,
    /// The stream ended inside a frame body.
    EndOfStreamInFrame,
    /// Any other read error.
    ReadFailed,
}

/// What the loop does next.
#[derive(Debug, Clone, Copy, PartialEq, Eq, Structural)]
pub enum LoopAction {
    Continue,
    /// End the loop cleanly.
    Stop,
    /// End the loop with the error that caused the event.
    Fail,
}

/// The action for an event.
pub open spec fn action_of(event: ReceiveEvent) -> LoopAction {
    match event {
        ReceiveEvent::Deadline => LoopAction::Stop,
        ReceiveEvent::SampleTick => LoopAction::Continue,
        ReceiveEvent::ConnectionReset => LoopAction::Continue,
        ReceiveEvent::EndOfStream => LoopAction::Stop,
        ReceiveEvent::EndOfStreamInFrame => LoopAction::Fail,
        ReceiveEvent::ReadFailed => LoopAction::Fail,
    }
}

/// Whether an event closes a bandwidth interval: every sampler tick, and
/// the final sample of a loop that ends cleanly.
pub open spec fn samples_on(event: ReceiveEvent) -> bool {
    event == ReceiveEvent::Deadline || event == ReceiveEvent::SampleTick || event
        == ReceiveEvent::EndOfStream
}

/// The time a sample is taken at: the elapsed time read from the clock,
/// never earlier than the previous sample.
pub open spec fn sample_time(last: Option<u128>, elapsed_ms: u128) -> u128 {
    match last {
        Some(t) if t > elapsed_ms => t,
        _ => elapsed_ms,
    }
}

/// Handles a receive-loop event `elapsed_ms` into the run: takes a
/// bandwidth sample where the event calls for one, and says how the loop
/// goes on.
pub fn on_receive_event(
    metrics: &mut TestMetrics,
    event: ReceiveEvent,
    elapsed_ms: u128,
) -> (r: LoopAction)
    requires
        old(metrics).wf(),
    ensures
        r == action_of(event),
        final(metrics).wf(),
        samples_on(event) ==> TestMetrics::sample_update(
            *old(metrics),
            *final(metrics),
            sample_time(old(metrics).last_bandwidth_sample_time_ms, elapsed_ms),
        ),
        !samples_on(event) ==> *final(metrics) == *old(metrics),
{
    let takes_sample = match event {
        ReceiveEvent::Deadline | ReceiveEvent::SampleTick | ReceiveEvent::EndOfStream => true,
        _ => false,
    };
    if takes_sample {
        let at = match metrics.last_bandwidth_sample_time_ms {
            Some(t) if t > elapsed_ms => t,
            _ => elapsed_ms,
        };
        metrics.take_bandwidth_sample(at);
    }
    match event {
        ReceiveEvent::Deadline => LoopAction::Stop,
        ReceiveEvent::SampleTick => LoopAction::Continue,
        ReceiveEvent::ConnectionReset => LoopAction::Continue,
        ReceiveEvent::EndOfStream => LoopAction::Stop,
        ReceiveEvent::EndOfStreamInFrame => LoopAction::Fail,
        ReceiveEvent::ReadFailed => LoopAction::Fail,
    }
}

// ---- role dispatch ----

/// The tasks a run starts, by role, protocol and sub-mode.
#[derive(Debug, Clone, Copy, PartialEq, Eq, Structural)]
pub enum TestPlan {
    /// Client over UDP: one primary send loop.
    UdpSend,
    /// Server over UDP: one receive loop.
    UdpReceive,
    /// Client over TCP: connect, then one send loop.
    TcpConnectSend,
    /// Server over TCP: listen, accept one connection, then one receive loop.
    TcpAcceptReceive,
    /// Bidirectional UDP: a send loop and a receive loop on the listening socket.
    UdpSendReceive,
    /// Bidirectional TCP over two connections: one connects out and sends
    /// (and receives), the other accepts and receives (and sends as secondary).
    TcpDualStream,
    /// Bidirectional TCP over one connection, both directions on it.
    TcpSingleStream,
}

pub open spec fn plan_of(
    mode: TestMode,
    protocol: Protocol,
    bidi: Option<TcpBidirectionalMode>,
) -> TestPlan {
    match (mode, protocol) {
        (TestMode::Client, Protocol::Udp) => TestPlan::UdpSend,
        (TestMode::Client, Protocol::Tcp) => TestPlan::TcpConnectSend,
        (TestMode::Server, Protocol::Udp) => TestPlan::UdpReceive,
        (TestMode::Server, Protocol::Tcp) => TestPlan::TcpAcceptReceive,
        (TestMode::Bidirectional, Protocol::Udp) => TestPlan::UdpSendReceive,
        (TestMode::Bidirectional, Protocol::Tcp) => if bidi == Some(
            TcpBidirectionalMode::SingleStream,
        ) {
            TestPlan::TcpSingleStream
        } else {
            TestPlan::TcpDualStream
        },
    }
}

/// Which tasks `config` calls for. A bidirectional TCP run without a
/// sub-mode uses two streams.
pub fn plan_network_test(config: &TestConfig) -> (r: TestPlan)
    ensures
        r == plan_of(config.test_mode, config.protocol, config.tcp_bidirectional_mode),
{
    match config.test_mode {
        TestMode::Client => match config.protocol {
            Protocol::Udp => TestPlan::UdpSend,
            Protocol::Tcp => TestPlan::TcpConnectSend,
        },
        TestMode::Server => match config.protocol {
            Protocol::Udp => TestPlan::UdpReceive,
            Protocol::Tcp => TestPlan::TcpAcceptReceive,
        },
        TestMode::Bidirectional => match config.protocol {
            Protocol::Udp => TestPlan::UdpSendReceive,
            Protocol::Tcp => match config.tcp_bidirectional_mode {
                Some(TcpBidirectionalMode::SingleStream) => TestPlan::TcpSingleStream,
                _ => TestPlan::TcpDualStream,
            },
        },
    }
}

/// Byte-wise lexicographic order, a proper prefix coming first.
pub open spec fn lex_less(a: Seq<u8>, b: Seq<u8>) -> bool
    decreases a.len(),
{
    if a.len() == 0 {
        b.len() > 0
    } else if b.len() == 0 {
        false
    } else if a[0] != b[0] {
        a[0] < b[0]
    } else {
        lex_less(a.drop_first(), b.drop_first())
    }
}

/// Single-stream election: the peer whose address text is smaller connects,
/// the other listens. Equal texts elect neither, so both peers must be
/// given distinct addresses.
pub fn should_initiate_connection(local_addr: &str, remote_addr: &str) -> (r: bool)
    ensures
        r == lex_less(local_addr.spec_bytes(), remote_addr.spec_bytes()),
{
    let a = local_addr.as_bytes();
    let b = remote_addr.as_bytes();
    let mut i: usize = 0;
    assert(a@.skip(0) =~= a@);
    assert(b@.skip(0) =~= b@);
    while i < a.len() && i < b.len()
        invariant
            i <= a@.len(),
            i <= b@.len(),
            a@ == local_addr.spec_bytes(),
            b@ == remote_addr.spec_bytes(),
            lex_less(a@, b@) == lex_less(a@.skip(i as int), b@.skip(i as int)),
        decreases a@.len() - i,
    {
        if a[i] != b[i] {
            return a[i] < b[i];
        }
        assert(a@.skip(i as int).drop_first() =~= a@.skip(i + 1));
        assert(b@.skip(i as int).drop_first() =~= b@.skip(i + 1));
        i = i + 1;
    }
    a.len() < b.len()
}

} // verus!
