//! Configuration of a run. It does not change once the run has started.

use vstd::prelude::*;
use crate::clock::{duration_from_nanos, duration_from_secs, duration_nanos};

verus! {

#[derive(Debug, Clone, Copy, PartialEq, Eq, Structural)]
pub enum Protocol {
    Tcp,
    Udp,
}

/// How a bidirectional TCP run uses its connections.
#[derive(Debug, Clone, Copy, PartialEq, Eq, Structural)]
pub enum TcpBidirectionalMode {
    /// Each peer opens a stream of its own for sending.
    DualStream,
    /// One peer connects, and both directions share that stream.
    SingleStream,
}

#[derive(Debug, Clone, Copy, PartialEq, Eq, Structural)]
pub enum TestMode {
    /// Sends data.
    Client,
    /// Receives data.
    Server,
    /// Sends and receives at the same time.
    Bidirectional,
}

#[derive(Debug, Clone)]
pub struct TestConfig {
    pub target_ip: String,
    pub target_port: u16,
    pub test_duration_secs: u64,
    /// Packets per second; 0 sends as fast as possible (UDP only).
    pub tick_rate_hz: u32,
    /// Payload size when no range is given.
    pub packet_size_bytes: usize,
    /// Inclusive bounds for a payload size drawn at random for each packet.
    pub packet_size_range: Option<(usize, usize)>,
    pub protocol: Protocol,
    pub test_mode: TestMode,
    /// Only read when the protocol is TCP and the mode bidirectional.
    pub tcp_bidirectional_mode: Option<TcpBidirectionalMode>,
    pub latency_spike_threshold_ms: Option<u64>,
    pub jitter_spike_threshold_ms: Option<u64>,
    /// Loss, in whole percent, at or above which a run is flagged.
    pub packet_loss_threshold_percent: Option<u64>,
}

impl TestConfig {
    /// A size range, where present, is non-empty and excludes zero.
    pub open spec fn valid_size_range(&self) -> bool {
        self.packet_size_range matches Some((lo, hi)) ==> 0 < lo <= hi
    }

    /// Time between two packets: one second divided by the tick rate, in
    /// whole nanoseconds.
    pub fn tick_interval(&self) -> (r: std::time::Duration)
        requires
            self.tick_rate_hz > 0,
        ensures
            duration_nanos(r) == 1_000_000_000int / (self.tick_rate_hz as int),
    {
        duration_from_nanos(1_000_000_000u64 / self.tick_rate_hz as u64)
    }

    /// The configured length of the run.
    pub fn total_duration(&self) -> (r: std::time::Duration)
        ensures
            duration_nanos(r) == self.test_duration_secs * 1_000_000_000,
    {
        duration_from_secs(self.test_duration_secs)
    }
}

impl Default for TestConfig {
    /// A 10 s UDP client run against 127.0.0.1:5001 at 20 Hz with 1024-byte
    /// payloads, flagging 200 ms latency, 50 ms jitter and 5% loss.
    fn default() -> (r: TestConfig)
        ensures
            r.target_ip@ == "127.0.0.1"@,
            r.target_port == 5001,
            r.test_duration_secs == 10,
            r.tick_rate_hz == 20,
            r.packet_size_bytes == 1024,
            r.packet_size_range is None,
            r.protocol == Protocol::Udp,
            r.test_mode == TestMode::Client,
            r.tcp_bidirectional_mode == Some(TcpBidirectionalMode::DualStream),
            r.latency_spike_threshold_ms == Some(200u64),
            r.jitter_spike_threshold_ms == Some(50u64),
            r.packet_loss_threshold_percent == Some(5u64),
    {
        TestConfig {
            target_ip: String::from_str("127.0.0.1"),
            target_port: 5001,
            test_duration_secs: 10,
            tick_rate_hz: 20,
            packet_size_bytes: 1024,
            packet_size_range: None,
            protocol: Protocol::Udp,
            test_mode: TestMode::Client,
            tcp_bidirectional_mode: Some(TcpBidirectionalMode::DualStream),
            latency_spike_threshold_ms: Some(200),
            jitter_spike_threshold_ms: Some(50),
            packet_loss_threshold_percent: Some(5),
        }
    }
}

} // verus!
