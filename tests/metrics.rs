use airjedi::{Duration, GlobalMetrics, MetricsSnapshot};
use std::sync::atomic::Ordering;

#[test]
fn test_metrics_increment() {
    let m = GlobalMetrics::new();
    assert_eq!(m.packets_crc_passed.load(Ordering::Relaxed), 0);

    m.packets_crc_passed.fetch_add(1, Ordering::Relaxed);
    assert_eq!(m.packets_crc_passed.load(Ordering::Relaxed), 1);
}

fn sample() -> MetricsSnapshot {
    MetricsSnapshot {
        preambles_detected: 0,
        packets_crc_passed: 1000,
        packets_crc_failed: 50,
        packets_decoded: 980,
        packets_decode_failed: 20,
        msg_identification: 100,
        msg_position: 600,
        msg_velocity: 280,
        msg_other: 0,
        aircraft_tracked: 45,
        updates_processed: 980,
        output_beast: 0,
        output_raw: 0,
        output_sbs1: 0,
        output_websocket: 0,
        uptime: Duration::from_secs(10),
    }
}

#[test]
fn test_format_summary() {
    let snap = sample();

    let summary = snap.format_summary();
    assert!(summary.contains("1050 pkts"));
    assert!(summary.contains("95.2% CRC OK"));
    assert!(summary.contains("980 decoded"));
    assert!(summary.contains("45 aircraft"));
}

#[test]
fn summary_line_in_full() {
    assert_eq!(
        sample().format_summary(),
        "1050 pkts (95.2% CRC OK), 980 decoded, 45 aircraft, Types: 100 ID, 600 Pos, 280 Vel | 98 msg/s"
    );
}

#[test]
fn detailed_summary_in_full() {
    let mut snap = sample();
    snap.output_beast = 7;
    assert_eq!(
        snap.format_detailed(),
        "Metrics Summary:\n├─ Decoder: 1050 packets (95.2% CRC OK), 980 decoded (98.0% success)\n├─ Messages: 100 ID, 600 Pos, 280 Vel, 0 Other\n├─ Aircraft: 45 tracked, 980 updates processed\n├─ Outputs: 7 BEAST, 0 Raw, 0 SBS-1, 0 WebSocket\n└─ Performance: 98 msg/s over 10s uptime"
    );
}

#[test]
fn rates_and_totals() {
    let snap = sample();
    assert_eq!(snap.total_packets(), 1050);
    assert_eq!(snap.crc_pass_rate(), 952);
    assert_eq!(snap.decode_success_rate(), 980);
    assert_eq!(snap.messages_per_second(), 98);
    let mut idle = sample();
    idle.packets_crc_passed = 0;
    idle.packets_crc_failed = 0;
    idle.uptime = Duration::from_millis(0);
    assert_eq!(idle.crc_pass_rate(), 0);
    assert_eq!(idle.messages_per_second(), 0);
    assert!(idle.format_summary().starts_with("0 pkts (0.0% CRC OK)"));
    let mut outs = sample();
    outs.output_beast = 1;
    outs.output_raw = 2;
    outs.output_sbs1 = 3;
    outs.output_websocket = 4;
    assert_eq!(outs.total_output_messages(), 10);
}

#[test]
fn rounding_ties_go_to_even() {
    let mut snap = sample();
    // 1 of 16 is 6.25 %: the tie rounds to 6.2.
    snap.packets_crc_passed = 1;
    snap.packets_crc_failed = 15;
    assert_eq!(snap.crc_pass_rate(), 62);
    // 3 of 16 is 18.75 %: the tie rounds to 18.8.
    snap.packets_crc_passed = 3;
    snap.packets_crc_failed = 13;
    assert_eq!(snap.crc_pass_rate(), 188);
}

#[test]
fn test_snapshot() {
    let m = GlobalMetrics::new();
    m.packets_crc_passed.fetch_add(100, Ordering::Relaxed);
    m.packets_crc_failed.fetch_add(5, Ordering::Relaxed);
    let snap = m.snapshot();
    assert_eq!(snap.total_packets(), 105);
    // 100 of 105 is 95.238 %; the rate is held in tenths of a percent.
    assert!((snap.crc_pass_rate() as f64 / 10.0 - 95.238).abs() < 0.05);
    assert_eq!(snap.crc_pass_rate(), 952);
}
