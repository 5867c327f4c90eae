//! The metrics aggregator: counters, RTT and jitter statistics, bandwidth
//! samples and the anomaly log of one run.

use vstd::prelude::*;
use crate::anomalies::{
    appended, lemma_appended_none, lemma_appended_push, lemma_appended_trans, AnomalyEvent,
    AnomalyType,
};
use crate::clock::{elapsed_millis, instant_now};
use crate::config::TestConfig;
use crate::text::{decimal, decimal_string, hundredths, hundredths_string, rounded_div};

verus! {

/// Total bytes over a sequence of bandwidth samples.
pub open spec fn sample_bytes(s: Seq<(u128, u64)>) -> nat
    decreases s.len(),
{
    if s.len() == 0 {
        0
    } else {
        sample_bytes(s.drop_last()) + s.last().1 as nat
    }
}

/// Sample timestamps never decrease.
pub open spec fn samples_ordered(s: Seq<(u128, u64)>) -> bool {
    forall|i: int, j: int| 0 <= i <= j < s.len() ==> #[trigger] s[i].0 <= #[trigger] s[j].0
}

pub open spec fn abs_diff(a: u128, b: u128) -> nat {
    if a >= b {
        (a - b) as nat
    } else {
        (b - a) as nat
    }
}

/// `label`, a duration given in microseconds shown in milliseconds with two
/// decimals (rounded, halves up), and " ms".
pub open spec fn millis_text(label: Seq<char>, micros: nat) -> Seq<char> {
    label + hundredths(rounded_div(micros, 10)) + " ms"@
}

pub open spec fn latency_text(rtt_micros: nat) -> Seq<char> {
    millis_text("RTT: "@, rtt_micros)
}

pub open spec fn jitter_text(jitter_micros: nat) -> Seq<char> {
    millis_text("Jitter: "@, jitter_micros)
}

pub open spec fn out_of_order_text(seq: u32, highest: u32) -> Seq<char> {
    "UDP Packet Seq: "@ + decimal(seq as nat) + " received after "@ + decimal(highest as nat)
}

pub open spec fn packet_loss_text(loss_hundredths: nat, threshold_percent: u64) -> Seq<char> {
    "High packet loss detected: "@ + hundredths(loss_hundredths) + "% (threshold: "@ + decimal(
        threshold_percent as nat,
    ) + "%)"@
}

/// The event that a sample over a threshold raises, if any.
pub open spec fn spike(
    threshold: Option<u128>,
    value: nat,
    kind: AnomalyType,
    text: Seq<char>,
) -> Seq<(AnomalyType, Seq<char>)> {
    if threshold matches Some(t) && value > t {
        seq![(kind, text)]
    } else {
        seq![]
    }
}

/// Packets sent that were not received (0 if more were received).
pub open spec fn lost_packets(sent: u64, received: u64) -> nat {
    if sent > received {
        (sent - received) as nat
    } else {
        0
    }
}

/// Loss in hundredths of a percent, rounded halves up; 0 when nothing was sent.
pub open spec fn loss_hundredths(sent: u64, received: u64) -> nat {
    if sent == 0 {
        0
    } else {
        rounded_div(lost_packets(sent, received) * 10000, sent as nat)
    }
}

proof fn lemma_sample_bytes_push(s: Seq<(u128, u64)>, x: (u128, u64))
    ensures
        sample_bytes(s.push(x)) == sample_bytes(s) + x.1,
{
    assert(s.push(x).drop_last() =~= s);
}

proof fn lemma_rtt_bounds_step(c: nat, total: nat, mn: nat, mx: nat, r: nat, new_mn: nat, new_mx: nat)
    requires
        c * mn <= total <= c * mx,
        new_mn <= mn,
        new_mn <= r,
        mx <= new_mx,
        r <= new_mx,
    ensures
        (c + 1) * new_mn <= total + r <= (c + 1) * new_mx,
{
    assert(c * new_mn <= c * mn) by (nonlinear_arith)
        requires
            new_mn <= mn,
    ;
    assert(c * mx <= c * new_mx) by (nonlinear_arith)
        requires
            mx <= new_mx,
    ;
    assert((c + 1) * new_mn == c * new_mn + new_mn) by (nonlinear_arith);
    assert((c + 1) * new_mx == c * new_mx + new_mx) by (nonlinear_arith);
}

fn millis_string(label: &str, micros: u128) -> (s: String)
    ensures
        s@ == millis_text(label@, micros as nat),
{
    let h = micros / 10 + if micros % 10 >= 5 {
        1
    } else {
        0
    };
    assert(h == rounded_div(micros as nat, 10));
    String::from_str(label).concat(hundredths_string(h).as_str()).concat(" ms")
}

/// Counters and statistics of one run.
#[derive(Debug)]
pub struct TestMetrics {
    pub packets_sent: u64,
    pub packets_received: u64,
    pub bytes_sent: u64,
    pub bytes_received: u64,
    pub total_rtt_micros: u128,
    pub rtt_count: u64,
    pub min_rtt_micros: Option<u128>,
    pub max_rtt_micros: Option<u128>,
    /// Sum of the absolute differences between successive RTT samples.
    pub inter_arrival_jitter_micros_sum: u128,
    pub jitter_count: u64,
    /// `(ms since the start of the run, bytes received in the interval that ends then)`.
    pub bandwidth_samples: Vec<(u128, u64)>,
    pub last_bandwidth_sample_time_ms: Option<u128>,
    /// Bytes received since the last bandwidth sample.
    pub bytes_since_last_bandwidth_sample: u64,
    pub test_start_time: Option<std::time::Instant>,
    /// The previous RTT sample, for jitter.
    pub last_rtt_micros: Option<u128>,
    pub anomalies: Vec<AnomalyEvent>,
    pub latency_spike_threshold_micros: Option<u128>,
    pub jitter_spike_threshold_micros: Option<u128>,
    pub out_of_order_count: u64,
}

impl TestMetrics {
    /// The invariant that every operation keeps.
    pub open spec fn wf(&self) -> bool {
        &&& self.rtt_wf()
        &&& self.bandwidth_wf()
    }

    /// RTT statistics agree with each other: the total lies between
    /// `count * min` and `count * max`.
    pub open spec fn rtt_wf(&self) -> bool {
        &&& (self.rtt_count == 0 <==> self.min_rtt_micros is None)
        &&& (self.rtt_count == 0 <==> self.max_rtt_micros is None)
        &&& self.rtt_count == 0 ==> self.total_rtt_micros == 0
        &&& self.rtt_count > 0 ==> {
            let mn = self.min_rtt_micros->Some_0;
            let mx = self.max_rtt_micros->Some_0;
            &&& self.rtt_count * mn <= self.total_rtt_micros <= self.rtt_count * mx
            &&& mn <= mx
        }
    }

    /// Bandwidth samples account for every byte received, in time order.
    pub open spec fn bandwidth_wf(&self) -> bool {
        &&& self.bytes_received == sample_bytes(self.bandwidth_samples@)
            + self.bytes_since_last_bandwidth_sample
        &&& samples_ordered(self.bandwidth_samples@)
        &&& (self.test_start_time is None <==> self.last_bandwidth_sample_time_ms is None)
        &&& self.test_start_time is None ==> {
            &&& self.bytes_since_last_bandwidth_sample == 0
            &&& self.bandwidth_samples@.len() == 0
        }
        &&& self.last_bandwidth_sample_time_ms matches Some(t) ==> forall|i: int|
            0 <= i < self.bandwidth_samples@.len() ==> #[trigger] self.bandwidth_samples@[i].0
                <= t
    }

    /// `new` is `old` once the run's start has been recorded.
    pub open spec fn started_from(old: TestMetrics, new: TestMetrics) -> bool {
        &&& new.test_start_time is Some
        &&& old.test_start_time is Some ==> new.test_start_time == old.test_start_time
        &&& new.last_bandwidth_sample_time_ms == if old.test_start_time is None {
            Some(0u128)
        } else {
            old.last_bandwidth_sample_time_ms
        }
    }

    /// The counters can take one more sent packet of `size` bytes.
    pub open spec fn sent_fits(&self, size: nat) -> bool {
        &&& self.packets_sent < u64::MAX
        &&& self.bytes_sent + size <= u64::MAX
    }

    /// The sums can take one more jitter sample.
    pub open spec fn jitter_fits(&self, jitter: nat) -> bool {
        &&& self.inter_arrival_jitter_micros_sum + jitter <= u128::MAX
        &&& self.jitter_count < u64::MAX
    }

    /// The counters and sums can take one more received packet.
    pub open spec fn received_fits(&self, size: nat, rtt_micros: u128) -> bool {
        &&& self.packets_received < u64::MAX
        &&& self.bytes_received + size <= u64::MAX
        &&& rtt_micros > 0 ==> {
            &&& self.total_rtt_micros + rtt_micros <= u128::MAX
            &&& self.rtt_count < u64::MAX
            &&& self.last_rtt_micros matches Some(l) ==> self.jitter_fits(abs_diff(rtt_micros, l))
        }
    }

    /// The events that receiving a packet with this RTT raises.
    pub open spec fn received_anomalies(&self, rtt_micros: u128) -> Seq<(AnomalyType, Seq<char>)> {
        if rtt_micros == 0 {
            seq![]
        } else {
            let jitter_part = match self.last_rtt_micros {
                Some(l) => spike(
                    self.jitter_spike_threshold_micros,
                    abs_diff(rtt_micros, l),
                    AnomalyType::JitterSpike,
                    jitter_text(abs_diff(rtt_micros, l)),
                ),
                None => seq![],
            };
            jitter_part + spike(
                self.latency_spike_threshold_micros,
                rtt_micros as nat,
                AnomalyType::HighLatencySpike,
                latency_text(rtt_micros as nat),
            )
        }
    }

    /// Nothing recorded yet: every counter zero, no start time.
    pub open spec fn is_fresh(&self) -> bool {
        &&& self.wf()
        &&& self.packets_sent == 0
        &&& self.packets_received == 0
        &&& self.bytes_sent == 0
        &&& self.bytes_received == 0
        &&& self.total_rtt_micros == 0
        &&& self.rtt_count == 0
        &&& self.min_rtt_micros is None
        &&& self.max_rtt_micros is None
        &&& self.inter_arrival_jitter_micros_sum == 0
        &&& self.jitter_count == 0
        &&& self.bandwidth_samples@.len() == 0
        &&& self.last_bandwidth_sample_time_ms is None
        &&& self.bytes_since_last_bandwidth_sample == 0
        &&& self.test_start_time is None
        &&& self.last_rtt_micros is None
        &&& self.anomalies@.len() == 0
        &&& self.latency_spike_threshold_micros is None
        &&& self.jitter_spike_threshold_micros is None
        &&& self.out_of_order_count == 0
    }

    /// Empty metrics: every counter zero, nothing recorded, no start time.
    pub fn new() -> (r: TestMetrics)
        ensures
            r.is_fresh(),
    {
        TestMetrics {
            packets_sent: 0,
            packets_received: 0,
            bytes_sent: 0,
            bytes_received: 0,
            total_rtt_micros: 0,
            rtt_count: 0,
            min_rtt_micros: None,
            max_rtt_micros: None,
            inter_arrival_jitter_micros_sum: 0,
            jitter_count: 0,
            bandwidth_samples: Vec::new(),
            last_bandwidth_sample_time_ms: None,
            bytes_since_last_bandwidth_sample: 0,
            test_start_time: None,
            last_rtt_micros: None,
            anomalies: Vec::new(),
            latency_spike_threshold_micros: None,
            jitter_spike_threshold_micros: None,
            out_of_order_count: 0,
        }
    }

    /// Copies the latency and jitter thresholds of `config`, converted from
    /// milliseconds to microseconds.
    pub fn configure_anomaly_detection(&mut self, config: &TestConfig)
        ensures
            final(self).latency_spike_threshold_micros == match config.latency_spike_threshold_ms {
                Some(ms) => Some((ms * 1000) as u128),
                None => None::<u128>,
            },
            final(self).jitter_spike_threshold_micros == match config.jitter_spike_threshold_ms {
                Some(ms) => Some((ms * 1000) as u128),
                None => None::<u128>,
            },
            (TestMetrics {
                latency_spike_threshold_micros: old(self).latency_spike_threshold_micros,
                jitter_spike_threshold_micros: old(self).jitter_spike_threshold_micros,
                ..*final(self)
            }) == *old(self),
    {
        self.latency_spike_threshold_micros = match config.latency_spike_threshold_ms {
            Some(ms) => Some(ms as u128 * 1000),
            None => None,
        };
        self.jitter_spike_threshold_micros = match config.jitter_spike_threshold_ms {
            Some(ms) => Some(ms as u128 * 1000),
            None => None,
        };
    }

    /// Records the start of the run on the first call; later calls change nothing.
    pub fn init_start_time(&mut self)
        requires
            old(self).wf(),
        ensures
            final(self).wf(),
            Self::started_from(*old(self), *final(self)),
            (TestMetrics {
                test_start_time: old(self).test_start_time,
                last_bandwidth_sample_time_ms: old(self).last_bandwidth_sample_time_ms,
                ..*final(self)
            }) == *old(self),
    {
        if self.test_start_time.is_none() {
            self.test_start_time = Some(instant_now());
            self.last_bandwidth_sample_time_ms = Some(0);
            self.bytes_since_last_bandwidth_sample = 0;
        }
    }

    /// Milliseconds since the start of the run, or 0 before it.
    fn elapsed_ms(&self) -> (r: u128) {
        match &self.test_start_time {
            Some(start) => elapsed_millis(start),
            None => 0,
        }
    }

    /// `new` is `old` after `record_packet_sent(size)`.
    pub open spec fn sent_update(old: TestMetrics, new: TestMetrics, size: nat) -> bool {
        &&& Self::started_from(old, new)
        &&& new.packets_sent == old.packets_sent + 1
        &&& new.bytes_sent == old.bytes_sent + size
        &&& (TestMetrics {
            packets_sent: old.packets_sent,
            bytes_sent: old.bytes_sent,
            test_start_time: old.test_start_time,
            last_bandwidth_sample_time_ms: old.last_bandwidth_sample_time_ms,
            ..new
        }) == old
    }

    /// Counts one sent packet of `size_bytes` bytes.
    pub fn record_packet_sent(&mut self, size_bytes: usize)
        requires
            old(self).wf(),
            old(self).sent_fits(size_bytes as nat),
        ensures
            final(self).wf(),
            Self::sent_update(*old(self), *final(self), size_bytes as nat),
    {
        self.init_start_time();
        self.packets_sent = self.packets_sent + 1;
        self.bytes_sent = self.bytes_sent + size_bytes as u64;
    }

    /// `new` is `old` after `record_packet_received(size, rtt_micros)`.
    pub open spec fn received_update(
        old: TestMetrics,
        new: TestMetrics,
        size: nat,
        rtt_micros: u128,
    ) -> bool {
        &&& Self::started_from(old, new)
        &&& new.packets_received == old.packets_received + 1
        &&& new.bytes_received == old.bytes_received + size
        &&& new.bytes_since_last_bandwidth_sample
            == old.bytes_since_last_bandwidth_sample + size
        &&& appended(
            old.anomalies@,
            new.anomalies@,
            old.received_anomalies(rtt_micros),
        )
        &&& rtt_micros == 0 ==> (TestMetrics {
            packets_received: old.packets_received,
            bytes_received: old.bytes_received,
            bytes_since_last_bandwidth_sample: old.bytes_since_last_bandwidth_sample,
            test_start_time: old.test_start_time,
            last_bandwidth_sample_time_ms: old.last_bandwidth_sample_time_ms,
            ..new
        }) == old
        &&& rtt_micros > 0 ==> {
            &&& new.total_rtt_micros == old.total_rtt_micros + rtt_micros
            &&& new.rtt_count == old.rtt_count + 1
            &&& new.min_rtt_micros == Some(
                match old.min_rtt_micros {
                    Some(m) if m <= rtt_micros => m,
                    _ => rtt_micros,
                },
            )
            &&& new.max_rtt_micros == Some(
                match old.max_rtt_micros {
                    Some(m) if m >= rtt_micros => m,
                    _ => rtt_micros,
                },
            )
            &&& new.last_rtt_micros == Some(rtt_micros)
            &&& match old.last_rtt_micros {
                Some(l) => new.inter_arrival_jitter_micros_sum
                    == old.inter_arrival_jitter_micros_sum + abs_diff(rtt_micros, l)
                    && new.jitter_count == old.jitter_count + 1,
                None => new.inter_arrival_jitter_micros_sum
                    == old.inter_arrival_jitter_micros_sum && new.jitter_count
                    == old.jitter_count,
            }
            &&& (TestMetrics {
                packets_received: old.packets_received,
                bytes_received: old.bytes_received,
                bytes_since_last_bandwidth_sample: old.bytes_since_last_bandwidth_sample,
                test_start_time: old.test_start_time,
                last_bandwidth_sample_time_ms: old.last_bandwidth_sample_time_ms,
                anomalies: old.anomalies,
                total_rtt_micros: old.total_rtt_micros,
                rtt_count: old.rtt_count,
                min_rtt_micros: old.min_rtt_micros,
                max_rtt_micros: old.max_rtt_micros,
                last_rtt_micros: old.last_rtt_micros,
                inter_arrival_jitter_micros_sum: old.inter_arrival_jitter_micros_sum,
                jitter_count: old.jitter_count,
                ..new
            }) == old
        }
    }

    /// Counts one received packet of `size_bytes` bytes. A positive
    /// `rtt_micros` is an RTT sample: it updates the RTT statistics, feeds
    /// its difference from the previous sample to the jitter statistics, and
    /// is flagged when it exceeds the latency threshold. A zero RTT (as on a
    /// receiver, where it cannot be measured) only counts the bytes.
    pub fn record_packet_received(&mut self, size_bytes: usize, rtt_micros: u128)
        requires
            old(self).wf(),
            old(self).received_fits(size_bytes as nat, rtt_micros),
        ensures
            final(self).wf(),
            Self::received_update(*old(self), *final(self), size_bytes as nat, rtt_micros),
    {
        let ghost start = *self;
        self.init_start_time();
        let ghost before_samples = self.bandwidth_samples@;
        self.packets_received = self.packets_received + 1;
        self.bytes_received = self.bytes_received + size_bytes as u64;
        self.bytes_since_last_bandwidth_sample = self.bytes_since_last_bandwidth_sample
            + size_bytes as u64;
        if rtt_micros > 0 {
            proof {
                if start.rtt_count > 0 {
                    let mn = start.min_rtt_micros->Some_0;
                    let mx = start.max_rtt_micros->Some_0;
                    let new_mn = if mn <= rtt_micros {
                        mn
                    } else {
                        rtt_micros
                    };
                    let new_mx = if mx >= rtt_micros {
                        mx
                    } else {
                        rtt_micros
                    };
                    lemma_rtt_bounds_step(
                        start.rtt_count as nat,
                        start.total_rtt_micros as nat,
                        mn as nat,
                        mx as nat,
                        rtt_micros as nat,
                        new_mn as nat,
                        new_mx as nat,
                    );
                } else {
                    let r = rtt_micros as nat;
                    assert(1 * r <= r <= 1 * r) by (nonlinear_arith);
                }
            }
            self.total_rtt_micros = self.total_rtt_micros + rtt_micros;
            self.rtt_count = self.rtt_count + 1;
            self.min_rtt_micros = Some(
                match self.min_rtt_micros {
                    Some(m) if m <= rtt_micros => m,
                    _ => rtt_micros,
                },
            );
            self.max_rtt_micros = Some(
                match self.max_rtt_micros {
                    Some(m) if m >= rtt_micros => m,
                    _ => rtt_micros,
                },
            );
            let ghost before_jitter = self.anomalies@;
            match self.last_rtt_micros {
                Some(last_rtt) => {
                    let jitter_sample = if rtt_micros >= last_rtt {
                        rtt_micros - last_rtt
                    } else {
                        last_rtt - rtt_micros
                    };
                    assert(self.rtt_wf());
                    assert(self.bandwidth_wf());
                    self.record_jitter_value(jitter_sample);
                },
                None => {
                    proof {
                        lemma_appended_none(before_jitter);
                    }
                },
            }
            self.last_rtt_micros = Some(rtt_micros);
            let ghost before_latency = self.anomalies@;
            let ghost jitter_part = match start.last_rtt_micros {
                Some(l) => spike(
                    start.jitter_spike_threshold_micros,
                    abs_diff(rtt_micros, l),
                    AnomalyType::JitterSpike,
                    jitter_text(abs_diff(rtt_micros, l)),
                ),
                None => seq![],
            };
            match self.latency_spike_threshold_micros {
                Some(threshold) => {
                    if rtt_micros > threshold {
                        let now = self.elapsed_ms();
                        let event = AnomalyEvent {
                            timestamp_ms: now,
                            anomaly_type: AnomalyType::HighLatencySpike,
                            description: millis_string("RTT: ", rtt_micros),
                        };
                        proof {
                            lemma_appended_push(before_latency, event);
                        }
                        self.anomalies.push(event);
                    } else {
                        proof {
                            lemma_appended_none(before_latency);
                        }
                    }
                },
                None => {
                    proof {
                        lemma_appended_none(before_latency);
                    }
                },
            }
            proof {
                lemma_appended_trans(
                    start.anomalies@,
                    before_latency,
                    self.anomalies@,
                    jitter_part,
                    spike(
                        start.latency_spike_threshold_micros,
                        rtt_micros as nat,
                        AnomalyType::HighLatencySpike,
                        latency_text(rtt_micros as nat),
                    ),
                );
            }
        } else {
            proof {
                lemma_appended_none(start.anomalies@);
            }
        }
    }

    /// `new` is `old` after `take_bandwidth_sample(t)`.
    pub open spec fn sample_update(old: TestMetrics, new: TestMetrics, t: u128) -> bool {
        &&& new.test_start_time is Some
        &&& old.test_start_time is Some ==> new.test_start_time == old.test_start_time
        &&& new.bandwidth_samples@ == old.bandwidth_samples@.push(
            (t, old.bytes_since_last_bandwidth_sample),
        )
        &&& new.bytes_since_last_bandwidth_sample == 0
        &&& new.last_bandwidth_sample_time_ms == Some(t)
        &&& (TestMetrics {
            bandwidth_samples: old.bandwidth_samples,
            bytes_since_last_bandwidth_sample: old.bytes_since_last_bandwidth_sample,
            test_start_time: old.test_start_time,
            last_bandwidth_sample_time_ms: old.last_bandwidth_sample_time_ms,
            ..new
        }) == old
    }

    /// Closes the current bandwidth interval at `current_test_time_ms`: the
    /// bytes received since the previous sample are appended as a sample and
    /// the running count restarts from zero.
    pub fn take_bandwidth_sample(&mut self, current_test_time_ms: u128)
        requires
            old(self).wf(),
            old(self).last_bandwidth_sample_time_ms matches Some(t) ==> t <= current_test_time_ms,
        ensures
            final(self).wf(),
            Self::sample_update(*old(self), *final(self), current_test_time_ms),
    {
        if self.test_start_time.is_none() {
            self.init_start_time();
        }
        let sample_time = current_test_time_ms;
        proof {
            lemma_sample_bytes_push(
                self.bandwidth_samples@,
                (sample_time, self.bytes_since_last_bandwidth_sample),
            );
        }
        self.bandwidth_samples.push((sample_time, self.bytes_since_last_bandwidth_sample));
        self.bytes_since_last_bandwidth_sample = 0;
        self.last_bandwidth_sample_time_ms = Some(sample_time);
    }

    /// Adds one jitter sample, flagging it when it exceeds the jitter threshold.
    pub fn record_jitter_value(&mut self, jitter_sample_micros: u128)
        requires
            old(self).wf(),
            old(self).jitter_fits(jitter_sample_micros as nat),
        ensures
            final(self).wf(),
            Self::started_from(*old(self), *final(self)),
            final(self).inter_arrival_jitter_micros_sum == old(self).inter_arrival_jitter_micros_sum
                + jitter_sample_micros,
            final(self).jitter_count == old(self).jitter_count + 1,
            appended(
                old(self).anomalies@,
                final(self).anomalies@,
                spike(
                    old(self).jitter_spike_threshold_micros,
                    jitter_sample_micros as nat,
                    AnomalyType::JitterSpike,
                    jitter_text(jitter_sample_micros as nat),
                ),
            ),
            (TestMetrics {
                inter_arrival_jitter_micros_sum: old(self).inter_arrival_jitter_micros_sum,
                jitter_count: old(self).jitter_count,
                anomalies: old(self).anomalies,
                test_start_time: old(self).test_start_time,
                last_bandwidth_sample_time_ms: old(self).last_bandwidth_sample_time_ms,
                ..*final(self)
            }) == *old(self),
    {
        self.init_start_time();
        self.inter_arrival_jitter_micros_sum = self.inter_arrival_jitter_micros_sum
            + jitter_sample_micros;
        self.jitter_count = self.jitter_count + 1;
        let ghost before = self.anomalies@;
        match self.jitter_spike_threshold_micros {
            Some(threshold) => {
                if jitter_sample_micros > threshold {
                    let now = self.elapsed_ms();
                    let event = AnomalyEvent {
                        timestamp_ms: now,
                        anomaly_type: AnomalyType::JitterSpike,
                        description: millis_string("Jitter: ", jitter_sample_micros),
                    };
                    proof {
                        lemma_appended_push(before, event);
                    }
                    self.anomalies.push(event);
                } else {
                    proof {
                        lemma_appended_none(before);
                    }
                }
            },
            None => {
                proof {
                    lemma_appended_none(before);
                }
            },
        }
    }

    /// Counts a packet that arrived after one with a higher sequence number,
    /// and flags it.
    pub fn record_out_of_order(&mut self, sequence_number: u32, highest_seen: u32)
        requires
            old(self).out_of_order_count < u64::MAX,
        ensures
            final(self).out_of_order_count == old(self).out_of_order_count + 1,
            appended(
                old(self).anomalies@,
                final(self).anomalies@,
                seq![(AnomalyType::OutOfOrder, out_of_order_text(sequence_number, highest_seen))],
            ),
            (TestMetrics {
                out_of_order_count: old(self).out_of_order_count,
                anomalies: old(self).anomalies,
                ..*final(self)
            }) == *old(self),
    {
        self.out_of_order_count = self.out_of_order_count + 1;
        let now = self.elapsed_ms();
        let description = String::from_str("UDP Packet Seq: ").concat(
            decimal_string(sequence_number as u128).as_str(),
        ).concat(" received after ").concat(decimal_string(highest_seen as u128).as_str());
        let event = AnomalyEvent {
            timestamp_ms: now,
            anomaly_type: AnomalyType::OutOfOrder,
            description,
        };
        proof {
            lemma_appended_push(self.anomalies@, event);
        }
        self.anomalies.push(event);
    }

    /// Loss in hundredths of a percent: lost packets over packets sent,
    /// rounded halves up, and 0 when nothing was sent.
    pub fn packet_loss_hundredths(&self) -> (r: u64)
        ensures
            r == loss_hundredths(self.packets_sent, self.packets_received),
            r <= 10000,
            self.packets_sent == 0 ==> r == 0,
    {
        if self.packets_sent == 0 {
            return 0;
        }
        let lost: u64 = if self.packets_sent > self.packets_received {
            self.packets_sent - self.packets_received
        } else {
            0
        };
        let sent = self.packets_sent as u128;
        let numerator = lost as u128 * 10000 + sent / 2;
        let r = numerator / sent;
        proof {
            let l = lost as nat;
            let s = sent as nat;
            assert(l * 10000 <= s * 10000) by (nonlinear_arith)
                requires
                    l <= s,
            ;
            assert((l * 10000 + s / 2) / s <= 10000) by (nonlinear_arith)
                requires
                    l * 10000 <= s * 10000,
                    s > 0,
            ;
        }
        r as u64
    }

    /// The post-run loss check: flags the run when the loss percentage is at
    /// or above `threshold_percent`, stamping the event with `elapsed_ms`.
    /// With nothing sent the loss is 0, flagged only by a threshold of 0.
    pub fn check_packet_loss(&mut self, threshold_percent: u64, elapsed_ms: u128) -> (flagged: bool)
        ensures
            flagged == if old(self).packets_sent == 0 {
                threshold_percent == 0
            } else {
                lost_packets(old(self).packets_sent, old(self).packets_received) * 100
                    >= threshold_percent * old(self).packets_sent
            },
            appended(
                old(self).anomalies@,
                final(self).anomalies@,
                if flagged {
                    seq![
                        (
                            AnomalyType::PacketLoss,
                            packet_loss_text(
                                loss_hundredths(old(self).packets_sent, old(self).packets_received),
                                threshold_percent,
                            ),
                        ),
                    ]
                } else {
                    seq![]
                },
            ),
            flagged ==> final(self).anomalies@.last().timestamp_ms == elapsed_ms,
            (TestMetrics { anomalies: old(self).anomalies, ..*final(self) }) == *old(self),
    {
        let lost: u64 = if self.packets_sent > self.packets_received {
            self.packets_sent - self.packets_received
        } else {
            0
        };
        proof {
            let t = threshold_percent as nat;
            let n = self.packets_sent as nat;
            assert(t * n <= u64::MAX * u64::MAX) by (nonlinear_arith)
                requires
                    t <= u64::MAX,
                    n <= u64::MAX,
            ;
        }
        let flagged = if self.packets_sent == 0 {
            threshold_percent == 0
        } else {
            lost as u128 * 100 >= threshold_percent as u128 * self.packets_sent as u128
        };
        if flagged {
            let h = self.packet_loss_hundredths();
            let description = String::from_str("High packet loss detected: ").concat(
                hundredths_string(h as u128).as_str(),
            ).concat("% (threshold: ").concat(decimal_string(threshold_percent as u128).as_str()).concat(
            "%)");
            let event = AnomalyEvent {
                timestamp_ms: elapsed_ms,
                anomaly_type: AnomalyType::PacketLoss,
                description,
            };
            proof {
                lemma_appended_push(self.anomalies@, event);
            }
            self.anomalies.push(event);
        } else {
            proof {
                lemma_appended_none(self.anomalies@);
            }
        }
        flagged
    }

    /// Whether `record_packet_sent(size_bytes)` may be called.
    pub fn can_record_packet_sent(&self, size_bytes: usize) -> (r: bool)
        ensures
            r == self.sent_fits(size_bytes as nat),
    {
        self.packets_sent < u64::MAX && size_bytes as u128 + self.bytes_sent as u128
            <= u64::MAX as u128
    }

    /// Whether `record_packet_received(size_bytes, rtt_micros)` may be called.
    pub fn can_record_packet_received(&self, size_bytes: usize, rtt_micros: u128) -> (r: bool)
        ensures
            r == self.received_fits(size_bytes as nat, rtt_micros),
    {
        if self.packets_received == u64::MAX || size_bytes as u128 + self.bytes_received as u128
            > u64::MAX as u128 {
            return false;
        }
        if rtt_micros == 0 {
            return true;
        }
        if rtt_micros > u128::MAX - self.total_rtt_micros || self.rtt_count == u64::MAX {
            return false;
        }
        match self.last_rtt_micros {
            Some(l) => {
                let jitter = if rtt_micros >= l {
                    rtt_micros - l
                } else {
                    l - rtt_micros
                };
                jitter <= u128::MAX - self.inter_arrival_jitter_micros_sum && self.jitter_count
                    < u64::MAX
            },
            None => true,
        }
    }
}

impl Default for TestMetrics {
    /// The same as `TestMetrics::new()`.
    fn default() -> (r: TestMetrics)
        ensures
            r.is_fresh(),
    {
        TestMetrics::new()
    }
}

/// The mean RTT lies between the smallest and the largest sample, both
/// exactly (`count * min <= total <= count * max`) and after integer division.
pub proof fn law_rtt_average_within_bounds(m: TestMetrics)
    requires
        m.wf(),
        m.rtt_count >= 1,
    ensures
        m.min_rtt_micros->Some_0 <= m.max_rtt_micros->Some_0,
        m.rtt_count * m.min_rtt_micros->Some_0 <= m.total_rtt_micros,
        m.total_rtt_micros <= m.rtt_count * m.max_rtt_micros->Some_0,
        m.min_rtt_micros->Some_0 <= (m.total_rtt_micros as int) / (m.rtt_count as int),
        (m.total_rtt_micros as int) / (m.rtt_count as int) <= m.max_rtt_micros->Some_0,
{
    let c = m.rtt_count as int;
    let t = m.total_rtt_micros as int;
    let mn = m.min_rtt_micros->Some_0 as int;
    let mx = m.max_rtt_micros->Some_0 as int;
    assert(mn <= t / c) by (nonlinear_arith)
        requires
            c * mn <= t,
            c >= 1,
            mn >= 0,
    {
        vstd::arithmetic::div_mod::lemma_div_is_ordered(c * mn, t, c);
        vstd::arithmetic::div_mod::lemma_div_multiples_vanish(mn, c);
    }
    assert(t / c <= mx) by (nonlinear_arith)
        requires
            t <= c * mx,
            c >= 1,
            mx >= 0,
    {
        vstd::arithmetic::div_mod::lemma_div_is_ordered(t, c * mx, c);
        vstd::arithmetic::div_mod::lemma_div_multiples_vanish(mx, c);
    }
}

/// Every byte received is either in a bandwidth sample or in the running
/// count of the current interval; right after a sample, the samples alone
/// add up to the bytes received.
pub proof fn law_received_bytes_in_samples(m: TestMetrics)
    requires
        m.wf(),
    ensures
        m.bytes_received == sample_bytes(m.bandwidth_samples@)
            + m.bytes_since_last_bandwidth_sample,
        m.bytes_since_last_bandwidth_sample == 0 ==> m.bytes_received == sample_bytes(
            m.bandwidth_samples@,
        ),
{
}

/// A sample closes the running interval: afterwards the samples alone add
/// up to the bytes received, and the newest sample is the one just taken.
pub proof fn law_sample_flushes_received_bytes(old: TestMetrics, new: TestMetrics, t: u128)
    requires
        new.wf(),
        TestMetrics::sample_update(old, new, t),
    ensures
        new.bytes_received == sample_bytes(new.bandwidth_samples@),
        new.bandwidth_samples@.len() > 0,
        new.bandwidth_samples@.last().0 == t,
        forall|i: int|
            0 <= i < new.bandwidth_samples@.len() ==> #[trigger] new.bandwidth_samples@[i].0 <= t,
{
}

/// Bandwidth sample timestamps never decrease, and none lies after the
/// time of the latest sample.
pub proof fn law_sample_times_ordered(m: TestMetrics)
    requires
        m.wf(),
    ensures
        forall|i: int, j: int|
            0 <= i <= j < m.bandwidth_samples@.len() ==> #[trigger] m.bandwidth_samples@[i].0
                <= #[trigger] m.bandwidth_samples@[j].0,
        m.last_bandwidth_sample_time_ms matches Some(t) ==> forall|i: int|
            0 <= i < m.bandwidth_samples@.len() ==> #[trigger] m.bandwidth_samples@[i].0 <= t,
{
}

/// With no packet sent, the loss is zero, whatever was received.
pub proof fn law_no_loss_without_sends(received: u64)
    ensures
        loss_hundredths(0, received) == 0,
{
}

} // verus!
