use sidecar::layout::{ConnKey, ConnMetrics};
use sidecar::metrics::{connection_sample, connection_samples, format_bytes, route, Route, HEALTH_BODY};
use sidecar::text::{decimal, ipv4_dotted};

#[test]
fn format_bytes_units() {
    assert_eq!(format_bytes(0), "0 B");
    assert_eq!(format_bytes(512), "512 B");
    assert_eq!(format_bytes(1023), "1023 B");
    assert_eq!(format_bytes(1024), "1.00 KB");
    assert_eq!(format_bytes(1536), "1.50 KB");
    assert_eq!(format_bytes(1_048_575), "1024.00 KB");
    assert_eq!(format_bytes(1_048_576), "1.00 MB");
    assert_eq!(format_bytes(5_347_737), "5.10 MB");
    assert_eq!(format_bytes(1_073_741_824), "1.00 GB");
    assert_eq!(format_bytes(3 * 1_073_741_824 + 536_870_912), "3.50 GB");
}

#[test]
fn format_bytes_rounds_ties_to_even() {
    // 1152 / 1024 = 1.125 exactly
    assert_eq!(format_bytes(1152), "1.12 KB");
    // 1034 / 1024 = 1.009765625
    assert_eq!(format_bytes(1034), "1.01 KB");
}

#[test]
fn dotted_and_decimal_labels() {
    assert_eq!(ipv4_dotted(u32::from_le_bytes([10, 0, 0, 1])), "10.0.0.1");
    assert_eq!(ipv4_dotted(u32::from_le_bytes([93, 184, 216, 34])), "93.184.216.34");
    assert_eq!(ipv4_dotted(u32::MAX), "255.255.255.255");
    assert_eq!(ipv4_dotted(0), "0.0.0.0");
    assert_eq!(decimal(0), "0");
    assert_eq!(decimal(443), "443");
    assert_eq!(decimal(u64::MAX), "18446744073709551615");
}

#[test]
fn sample_of_connection() {
    let key = ConnKey {
        src_ip: u32::from_le_bytes([10, 0, 0, 1]),
        dst_ip: u32::from_le_bytes([93, 184, 216, 34]),
        src_port: 5000,
        dst_port: 443,
    };
    let mut m = ConnMetrics::fresh(1_000);
    m.last_seen_ns = 3_001_000;
    m.bytes_sent = 1500;
    m.packets_sent = 2;
    m.retransmits = 4;
    let s = connection_sample(&key, &m);
    assert_eq!(s.src_ip, "10.0.0.1");
    assert_eq!(s.dst_ip, "93.184.216.34");
    assert_eq!(s.dst_port, "443");
    assert_eq!(s.bytes_sent, 1500);
    assert_eq!(s.packets_sent, 2);
    assert_eq!(s.retransmits, 4);
    assert_eq!(s.duration_ns, 3_000_000);
    let all = connection_samples(&vec![(key, m), (key, ConnMetrics::fresh(0))]);
    assert_eq!(all.len(), 2);
    assert_eq!(all[1].duration_ns, 0);
}

#[test]
fn routes() {
    assert_eq!(route("/metrics"), Route::Metrics);
    assert_eq!(route("/health"), Route::Health);
    assert_eq!(route("/"), Route::NotFound);
    assert_eq!(route("/metrics/"), Route::NotFound);
    assert_eq!(route("/metric"), Route::NotFound);
    assert_eq!(route("/metrics").status(), 200);
    assert_eq!(route("/nope").status(), 404);
    assert_eq!(HEALTH_BODY, "OK");
    // the same request twice gives the same answer
    assert_eq!(route("/metrics"), route("/metrics"));
}
