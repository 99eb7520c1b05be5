use sidecar::aggregate::{aggregate_by_destination, EndpointMetrics};
use sidecar::layout::{ConnKey, ConnMetrics};

fn rec(src_port: u16, dst_ip: u32, dst_port: u16, sent: u64, start: u64, last: u64, rtx: u32) -> (ConnKey, ConnMetrics) {
    let mut m = ConnMetrics::fresh(start);
    m.last_seen_ns = last;
    m.bytes_sent = sent;
    m.bytes_recv = sent / 2;
    m.packets_sent = 1;
    m.packets_recv = 2;
    m.retransmits = rtx;
    (ConnKey { src_ip: 7, dst_ip, src_port, dst_port }, m)
}

fn find(r: &[((u32, u16), EndpointMetrics)], ep: (u32, u16)) -> EndpointMetrics {
    r.iter().find(|(e, _)| *e == ep).unwrap().1
}

#[test]
fn groups_by_destination() {
    let conns = vec![
        rec(1, 100, 443, 1000, 0, 2_000_000, 1),
        rec(2, 200, 80, 10, 0, 1_000_000, 0),
        rec(3, 100, 443, 500, 1_000_000, 5_000_000, 2),
        rec(4, 100, 8443, 1, 0, 0, 0),
    ];
    let r = aggregate_by_destination(&conns);
    assert_eq!(r.len(), 3);
    assert_eq!(r[0].0, (100, 443));
    assert_eq!(r[1].0, (200, 80));
    assert_eq!(r[2].0, (100, 8443));
    let e = find(&r, (100, 443));
    assert_eq!(e.total_bytes_sent, 1500);
    assert_eq!(e.total_bytes_recv, 750);
    assert_eq!(e.total_packets_sent, 2);
    assert_eq!(e.total_packets_recv, 4);
    assert_eq!(e.total_retransmits, 3);
    assert_eq!(e.connection_count, 2);
    assert_eq!(e.total_duration_ns, 6_000_000);
    assert_eq!(e.avg_duration_ns(), 3_000_000);
}

#[test]
fn aggregation_is_order_independent() {
    let conns = vec![
        rec(1, 100, 443, 1000, 0, 2_000_000, 1),
        rec(2, 100, 443, 7, 5, 9, 0),
        rec(3, 100, 443, 500, 1_000_000, 5_000_000, 2),
        rec(4, 100, 443, u64::MAX, 0, 3, 0),
    ];
    let mut reversed = conns.clone();
    reversed.reverse();
    let mut rotated = conns.clone();
    rotated.rotate_left(2);
    let a = find(&aggregate_by_destination(&conns), (100, 443));
    let b = find(&aggregate_by_destination(&reversed), (100, 443));
    let c = find(&aggregate_by_destination(&rotated), (100, 443));
    assert_eq!(a, b);
    assert_eq!(a, c);
    assert_eq!(a.total_bytes_sent, u64::MAX);
    assert_eq!(a.connection_count, 4);
    assert_eq!(a.avg_duration_ns(), b.avg_duration_ns());
}

#[test]
fn empty_input_gives_no_groups() {
    assert!(aggregate_by_destination(&Vec::new()).is_empty());
    assert_eq!(EndpointMetrics::default().avg_duration_ns(), 0);
    assert_eq!(EndpointMetrics::zero(), EndpointMetrics::default());
}
