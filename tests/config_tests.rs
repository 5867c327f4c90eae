use netstats_core::config::{Protocol, TcpBidirectionalMode, TestConfig, TestMode};
use std::time::Duration;

#[test]
fn test_tick_interval() {
    let config_20hz = TestConfig { tick_rate_hz: 20, ..Default::default() };
    assert_eq!(config_20hz.tick_interval(), Duration::from_millis(50));

    let config_1hz = TestConfig { tick_rate_hz: 1, ..Default::default() };
    assert_eq!(config_1hz.tick_interval(), Duration::from_secs(1));

    let config_1000hz = TestConfig { tick_rate_hz: 1000, ..Default::default() };
    assert_eq!(config_1000hz.tick_interval(), Duration::from_millis(1));
}

#[test]
fn test_total_duration() {
    let config_10s = TestConfig { test_duration_secs: 10, ..Default::default() };
    assert_eq!(config_10s.total_duration(), Duration::from_secs(10));

    let config_1s = TestConfig { test_duration_secs: 1, ..Default::default() };
    assert_eq!(config_1s.total_duration(), Duration::from_secs(1));
}

#[test]
fn test_custom_config_values() {
    let config = TestConfig {
        target_ip: "192.168.1.100".to_string(),
        target_port: 8888,
        test_duration_secs: 5,
        tick_rate_hz: 50,
        packet_size_bytes: 128,
        packet_size_range: Some((64, 256)),
        protocol: Protocol::Tcp,
        test_mode: TestMode::Bidirectional,
        tcp_bidirectional_mode: Some(TcpBidirectionalMode::SingleStream),
        latency_spike_threshold_ms: None,
        jitter_spike_threshold_ms: None,
        packet_loss_threshold_percent: None,
    };
    assert_eq!(config.target_ip, "192.168.1.100");
    assert_eq!(config.target_port, 8888);
    assert_eq!(config.test_duration_secs, 5);
    assert_eq!(config.tick_rate_hz, 50);
    assert_eq!(config.packet_size_bytes, 128);
    assert_eq!(config.packet_size_range, Some((64, 256)));
    assert_eq!(config.protocol, Protocol::Tcp);
    assert_eq!(config.test_mode, TestMode::Bidirectional);
    assert_eq!(config.tcp_bidirectional_mode, Some(TcpBidirectionalMode::SingleStream));
}

#[test]
fn test_default_config() {
    let config = TestConfig::default();
    assert_eq!(config.target_ip, "127.0.0.1");
    assert_eq!(config.target_port, 5001);
    assert_eq!(config.test_duration_secs, 10);
    assert_eq!(config.tick_rate_hz, 20);
    assert_eq!(config.packet_size_bytes, 1024);
    assert_eq!(config.protocol, Protocol::Udp);
    assert_eq!(config.test_mode, TestMode::Client);
    assert!(config.packet_size_range.is_none());
    assert_eq!(config.tcp_bidirectional_mode, Some(TcpBidirectionalMode::DualStream));
    assert_eq!(config.latency_spike_threshold_ms, Some(200));
    assert_eq!(config.jitter_spike_threshold_ms, Some(50));
    assert_eq!(config.packet_loss_threshold_percent, Some(5));
}

#[test]
fn tick_interval_truncates_to_nanoseconds() {
    let config = TestConfig { tick_rate_hz: 3, ..Default::default() };
    assert_eq!(config.tick_interval(), Duration::from_nanos(333_333_333));
    let long = TestConfig { test_duration_secs: 0, ..Default::default() };
    assert_eq!(long.total_duration(), Duration::ZERO);
}
