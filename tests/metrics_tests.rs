use netstats_core::anomalies::AnomalyType;
use netstats_core::config::TestConfig;
use netstats_core::metrics::TestMetrics;

#[test]
fn test_new_metrics_is_default() {
    let metrics = TestMetrics::new();
    let default_metrics = TestMetrics::default();
    assert_eq!(metrics.packets_sent, default_metrics.packets_sent);
    assert_eq!(metrics.bytes_received, default_metrics.bytes_received);
    assert!(metrics.test_start_time.is_none());
}

#[test]
fn test_init_start_time() {
    let mut metrics = TestMetrics::new();
    assert!(metrics.test_start_time.is_none());
    metrics.init_start_time();
    assert!(metrics.test_start_time.is_some());
    let first_start_time = metrics.test_start_time.unwrap();
    metrics.init_start_time();
    assert_eq!(metrics.test_start_time.unwrap(), first_start_time);
    assert_eq!(metrics.last_bandwidth_sample_time_ms, Some(0));
}

#[test]
fn test_record_packet_sent() {
    let mut metrics = TestMetrics::new();
    metrics.record_packet_sent(100);
    assert_eq!(metrics.packets_sent, 1);
    assert_eq!(metrics.bytes_sent, 100);
    assert!(metrics.test_start_time.is_some());

    metrics.record_packet_sent(50);
    assert_eq!(metrics.packets_sent, 2);
    assert_eq!(metrics.bytes_sent, 150);
}

#[test]
fn test_record_packet_received() {
    let mut metrics = TestMetrics::new();
    metrics.record_packet_received(120, 10000);
    assert_eq!(metrics.packets_received, 1);
    assert_eq!(metrics.bytes_received, 120);
    assert_eq!(metrics.bytes_since_last_bandwidth_sample, 120);
    assert_eq!(metrics.total_rtt_micros, 10000);
    assert_eq!(metrics.rtt_count, 1);
    assert_eq!(metrics.min_rtt_micros, Some(10000));
    assert_eq!(metrics.max_rtt_micros, Some(10000));
    assert!(metrics.test_start_time.is_some());

    metrics.record_packet_received(80, 5000);
    assert_eq!(metrics.packets_received, 2);
    assert_eq!(metrics.bytes_received, 200);
    assert_eq!(metrics.bytes_since_last_bandwidth_sample, 200);
    assert_eq!(metrics.total_rtt_micros, 15000);
    assert_eq!(metrics.rtt_count, 2);
    assert_eq!(metrics.min_rtt_micros, Some(5000));
    assert_eq!(metrics.max_rtt_micros, Some(10000));
}

#[test]
fn test_record_packet_received_rtt_zero() {
    let mut metrics = TestMetrics::new();
    metrics.record_packet_received(100, 0);
    assert_eq!(metrics.rtt_count, 0);
    assert_eq!(metrics.total_rtt_micros, 0);
    assert!(metrics.min_rtt_micros.is_none());
    assert!(metrics.max_rtt_micros.is_none());
}

#[test]
fn test_record_jitter_value_separate() {
    let mut metrics = TestMetrics::new();
    metrics.record_jitter_value(100);
    assert_eq!(metrics.inter_arrival_jitter_micros_sum, 100);
    assert_eq!(metrics.jitter_count, 1);
    metrics.record_jitter_value(50);
    assert_eq!(metrics.inter_arrival_jitter_micros_sum, 150);
    assert_eq!(metrics.jitter_count, 2);
}

#[test]
fn test_take_bandwidth_sample() {
    let mut metrics = TestMetrics::new();
    metrics.init_start_time();

    metrics.bytes_since_last_bandwidth_sample = 1000;
    let sample_time_ms_1 = 1000;
    metrics.take_bandwidth_sample(sample_time_ms_1);
    assert_eq!(metrics.bandwidth_samples.len(), 1);
    assert_eq!(metrics.bandwidth_samples[0], (sample_time_ms_1, 1000));
    assert_eq!(metrics.bytes_since_last_bandwidth_sample, 0);
    assert_eq!(metrics.last_bandwidth_sample_time_ms, Some(sample_time_ms_1));

    metrics.bytes_since_last_bandwidth_sample = 500;
    let sample_time_ms_2 = 1500;
    metrics.take_bandwidth_sample(sample_time_ms_2);
    assert_eq!(metrics.bandwidth_samples.len(), 2);
    assert_eq!(metrics.bandwidth_samples[1], (sample_time_ms_2, 500));
    assert_eq!(metrics.bytes_since_last_bandwidth_sample, 0);
    assert_eq!(metrics.last_bandwidth_sample_time_ms, Some(sample_time_ms_2));

    let sample_time_ms_3 = 2000;
    metrics.take_bandwidth_sample(sample_time_ms_3);
    assert_eq!(metrics.bandwidth_samples.len(), 3);
    assert_eq!(metrics.bandwidth_samples[2], (sample_time_ms_3, 0));
}

#[test]
fn bandwidth_sample_always_appended() {
    let mut metrics = TestMetrics::new();
    metrics.init_start_time();
    metrics.take_bandwidth_sample(0);
    assert_eq!(metrics.bandwidth_samples, vec![(0, 0)]);
    metrics.record_packet_received(10, 0);
    metrics.take_bandwidth_sample(0);
    assert_eq!(metrics.bandwidth_samples, vec![(0, 0), (0, 10)]);
    metrics.take_bandwidth_sample(0);
    assert_eq!(metrics.bandwidth_samples, vec![(0, 0), (0, 10), (0, 0)]);
}

#[test]
fn received_bytes_equal_sample_total_after_final_sample() {
    let mut metrics = TestMetrics::new();
    metrics.record_packet_received(100, 0);
    metrics.record_packet_received(50, 0);
    metrics.take_bandwidth_sample(1000);
    metrics.record_packet_received(25, 0);
    metrics.take_bandwidth_sample(2000);
    let total: u64 = metrics.bandwidth_samples.iter().map(|s| s.1).sum();
    assert_eq!(total, metrics.bytes_received);
    assert_eq!(total, 175);
    let times: Vec<u128> = metrics.bandwidth_samples.iter().map(|s| s.0).collect();
    assert_eq!(times, vec![1000, 2000]);
}

#[test]
fn rtt_mean_between_min_and_max() {
    let mut metrics = TestMetrics::new();
    for rtt in [300u128, 100, 500, 200] {
        metrics.record_packet_received(10, rtt);
    }
    let min = metrics.min_rtt_micros.unwrap();
    let max = metrics.max_rtt_micros.unwrap();
    let mean = metrics.total_rtt_micros / metrics.rtt_count as u128;
    assert_eq!((min, mean, max), (100, 275, 500));
    assert!(min <= mean && mean <= max);
}

#[test]
fn jitter_from_successive_rtts() {
    let mut metrics = TestMetrics::new();
    metrics.record_packet_received(10, 1000);
    assert_eq!(metrics.jitter_count, 0);
    metrics.record_packet_received(10, 1300);
    metrics.record_packet_received(10, 1100);
    assert_eq!(metrics.jitter_count, 2);
    assert_eq!(metrics.inter_arrival_jitter_micros_sum, 500);
    assert_eq!(metrics.last_rtt_micros, Some(1100));
}

#[test]
fn latency_spike_flagged_once() {
    let mut config = TestConfig::default();
    config.latency_spike_threshold_ms = Some(1);
    config.jitter_spike_threshold_ms = None;
    let mut metrics = TestMetrics::new();
    metrics.configure_anomaly_detection(&config);
    assert_eq!(metrics.latency_spike_threshold_micros, Some(1000));
    assert_eq!(metrics.jitter_spike_threshold_micros, None);
    metrics.record_packet_received(64, 5000);
    assert_eq!(metrics.anomalies.len(), 1);
    let event = &metrics.anomalies[0];
    assert_eq!(event.anomaly_type, AnomalyType::HighLatencySpike);
    assert!(event.description.contains("5"));
    assert_eq!(event.description, "RTT: 5.00 ms");
    metrics.record_packet_received(64, 900);
    assert_eq!(metrics.anomalies.len(), 1);
}

#[test]
fn latency_text_rounds_to_hundredths() {
    let mut metrics = TestMetrics::new();
    metrics.latency_spike_threshold_micros = Some(0);
    metrics.record_packet_received(1, 12345);
    metrics.record_packet_received(1, 7);
    assert_eq!(metrics.anomalies[0].description, "RTT: 12.35 ms");
    assert_eq!(metrics.anomalies[1].description, "RTT: 0.01 ms");
}

#[test]
fn jitter_spike_flagged_before_latency_spike() {
    let mut config = TestConfig::default();
    config.latency_spike_threshold_ms = Some(2);
    config.jitter_spike_threshold_ms = Some(1);
    let mut metrics = TestMetrics::new();
    metrics.configure_anomaly_detection(&config);
    metrics.record_packet_received(10, 1000);
    assert!(metrics.anomalies.is_empty());
    metrics.record_packet_received(10, 3500);
    assert_eq!(metrics.anomalies.len(), 2);
    assert_eq!(metrics.anomalies[0].anomaly_type, AnomalyType::JitterSpike);
    assert_eq!(metrics.anomalies[0].description, "Jitter: 2.50 ms");
    assert_eq!(metrics.anomalies[1].anomaly_type, AnomalyType::HighLatencySpike);
    assert_eq!(metrics.anomalies[1].description, "RTT: 3.50 ms");
}

#[test]
fn out_of_order_recorded_with_sequence_numbers() {
    let mut metrics = TestMetrics::new();
    metrics.record_out_of_order(3, 4);
    assert_eq!(metrics.out_of_order_count, 1);
    assert_eq!(metrics.anomalies.len(), 1);
    assert_eq!(metrics.anomalies[0].anomaly_type, AnomalyType::OutOfOrder);
    assert_eq!(metrics.anomalies[0].description, "UDP Packet Seq: 3 received after 4");
}

#[test]
fn packet_loss_hundredths_values() {
    let mut metrics = TestMetrics::new();
    assert_eq!(metrics.packet_loss_hundredths(), 0);
    metrics.packets_sent = 10;
    metrics.packets_received = 10;
    assert_eq!(metrics.packet_loss_hundredths(), 0);
    metrics.packets_received = 5;
    assert_eq!(metrics.packet_loss_hundredths(), 5000);
    metrics.packets_received = 0;
    assert_eq!(metrics.packet_loss_hundredths(), 10000);
    metrics.packets_sent = 3;
    metrics.packets_received = 2;
    assert_eq!(metrics.packet_loss_hundredths(), 3333);
    metrics.packets_received = 7;
    assert_eq!(metrics.packet_loss_hundredths(), 0);
    metrics.packets_sent = 0;
    metrics.packets_received = 0;
    assert_eq!(metrics.packet_loss_hundredths(), 0);
}

#[test]
fn packet_loss_over_threshold_is_flagged() {
    let mut metrics = TestMetrics::new();
    metrics.packets_sent = 100;
    metrics.packets_received = 90;
    assert!(metrics.check_packet_loss(5, 1234));
    assert_eq!(metrics.anomalies.len(), 1);
    let event = &metrics.anomalies[0];
    assert_eq!(event.anomaly_type, AnomalyType::PacketLoss);
    assert_eq!(event.timestamp_ms, 1234);
    assert!(event.description.contains("10.00% (threshold: 5%)"));
    assert_eq!(event.description, "High packet loss detected: 10.00% (threshold: 5%)");
}

#[test]
fn packet_loss_under_threshold_is_not_flagged() {
    let mut metrics = TestMetrics::new();
    metrics.packets_sent = 100;
    metrics.packets_received = 96;
    assert!(!metrics.check_packet_loss(5, 0));
    metrics.packets_received = 95;
    assert!(metrics.check_packet_loss(5, 0));
    assert_eq!(metrics.anomalies.len(), 1);
}

#[test]
fn packet_loss_with_nothing_sent() {
    let mut metrics = TestMetrics::new();
    metrics.packets_received = 3;
    assert!(!metrics.check_packet_loss(5, 0));
    assert!(metrics.anomalies.is_empty());
    assert!(metrics.check_packet_loss(0, 0));
    assert_eq!(metrics.anomalies[0].description, "High packet loss detected: 0.00% (threshold: 0%)");
}

#[test]
fn capacity_checks() {
    let mut metrics = TestMetrics::new();
    assert!(metrics.can_record_packet_sent(100));
    assert!(metrics.can_record_packet_received(100, 5));
    metrics.packets_sent = u64::MAX;
    assert!(!metrics.can_record_packet_sent(1));
    metrics.bytes_received = u64::MAX - 10;
    assert!(metrics.can_record_packet_received(10, 0));
    assert!(!metrics.can_record_packet_received(11, 0));
    metrics.bytes_received = 0;
    metrics.total_rtt_micros = u128::MAX;
    assert!(!metrics.can_record_packet_received(1, 1));
    assert!(metrics.can_record_packet_received(1, 0));
}
