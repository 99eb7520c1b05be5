use sidecar::layout::{ConnKey, SidecarConfig};
use sidecar::probe::{
    pid_of, read_conn_key_from_sock, read_conn_key_from_tracepoint, should_trace,
    trace_tcp_close, trace_tcp_connect, trace_tcp_recvmsg, trace_tcp_recvmsg_ret,
    trace_tcp_retransmit, trace_tcp_sendmsg, try_trace_tcp_close, try_trace_tcp_connect,
    try_trace_tcp_retransmit, ConfigSlot, ERR_FAULT,
};
use sidecar::table::{ConnTable, ERR_TABLE_FULL, MAX_CONNECTIONS};

fn ip(a: [u8; 4]) -> u32 {
    u32::from_le_bytes(a)
}

fn sock_bytes(src: [u8; 4], dst: [u8; 4], sport: u16, dport: u16) -> Vec<u8> {
    let mut s = vec![0u8; 16];
    s[0..4].copy_from_slice(&dst);
    s[4..8].copy_from_slice(&src);
    s[12..14].copy_from_slice(&dport.to_be_bytes());
    s[14..16].copy_from_slice(&sport.to_le_bytes());
    s
}

fn retransmit_record(key: &ConnKey) -> Vec<u8> {
    let mut r = vec![0u8; 28];
    r[16..20].copy_from_slice(&key.src_ip.to_le_bytes());
    r[20..24].copy_from_slice(&key.dst_ip.to_le_bytes());
    r[24..26].copy_from_slice(&key.src_port.to_le_bytes());
    r[26..28].copy_from_slice(&key.dst_port.to_le_bytes());
    r
}

fn example_key() -> ConnKey {
    ConnKey { src_ip: ip([10, 0, 0, 1]), dst_ip: ip([93, 184, 216, 34]), src_port: 5000, dst_port: 443 }
}

fn pid_config(pid: u32) -> ConfigSlot {
    let mut slot = ConfigSlot::new();
    let mut c = SidecarConfig::default();
    c.target_pid = pid;
    slot.set(c);
    slot
}

#[test]
fn reads_four_tuple_from_sock() {
    let s = sock_bytes([10, 0, 0, 1], [93, 184, 216, 34], 5000, 443);
    assert_eq!(read_conn_key_from_sock(&s), Ok(example_key()));
}

#[test]
fn short_sock_reads_fail_with_status() {
    let s = sock_bytes([10, 0, 0, 1], [93, 184, 216, 34], 5000, 443);
    assert_eq!(read_conn_key_from_sock(&s[..7]), Err(1));
    assert_eq!(read_conn_key_from_sock(&s[..8]), Err(3));
    assert_eq!(read_conn_key_from_sock(&s[..15]), Err(3));
    assert_eq!(read_conn_key_from_sock(&[]), Err(1));
}

#[test]
fn reads_four_tuple_from_tracepoint() {
    let key = example_key();
    let r = retransmit_record(&key);
    assert_eq!(read_conn_key_from_tracepoint(&r), Ok(key));
    assert_eq!(read_conn_key_from_tracepoint(&r[..27]), Err(ERR_FAULT));
}

#[test]
fn pid_is_upper_half() {
    assert_eq!(pid_of((1234u64 << 32) | 99), 1234);
    assert_eq!(pid_of(99), 0);
}

#[test]
fn empty_config_traces_everything() {
    let slot = ConfigSlot::new();
    assert!(should_trace(&slot, 7u64 << 32));
    assert!(should_trace(&pid_config(0), 7u64 << 32));
    assert!(should_trace(&pid_config(7), 7u64 << 32));
    assert!(!should_trace(&pid_config(8), 7u64 << 32));
}

#[test]
fn scenario_connect_send_send_close() {
    let mut table = ConnTable::new();
    let slot = ConfigSlot::new();
    let s = sock_bytes([10, 0, 0, 1], [93, 184, 216, 34], 5000, 443);
    let key = example_key();
    assert_eq!(trace_tcp_connect(&mut table, &slot, 1u64 << 32, &s, 0), 0);
    assert_eq!(trace_tcp_sendmsg(&mut table, &slot, 1u64 << 32, &s, 1000, 1_000_000), 0);
    assert_eq!(trace_tcp_sendmsg(&mut table, &slot, 1u64 << 32, &s, 500, 2_000_000), 0);
    let m = table.get(&key).unwrap();
    assert_eq!(m.bytes_sent, 1500);
    assert_eq!(m.packets_sent, 2);
    assert_eq!(m.start_ns, 0);
    assert_eq!(m.last_seen_ns, 2_000_000);
    let report = try_trace_tcp_close(&mut table, &s, 3_000_000).unwrap().unwrap();
    assert_eq!(report.key, key);
    assert_eq!(report.metrics.bytes_sent, 1500);
    assert_eq!(report.metrics.packets_sent, 2);
    assert_eq!(report.duration_ns, 3_000_000);
    assert!(table.get(&key).is_none());
    assert!(table.snapshot().is_empty());
}

#[test]
fn close_removes_and_sums_sends() {
    for (a, b) in [(0u64, 0u64), (1, 2), (123_456, 789), (u64::MAX - 5, 5)] {
        let mut table = ConnTable::new();
        let slot = ConfigSlot::new();
        let s = sock_bytes([192, 168, 1, 2], [1, 1, 1, 1], 40000, 80);
        assert_eq!(trace_tcp_connect(&mut table, &slot, 0, &s, 10), 0);
        trace_tcp_sendmsg(&mut table, &slot, 0, &s, a, 11);
        trace_tcp_sendmsg(&mut table, &slot, 0, &s, b, 12);
        let key = read_conn_key_from_sock(&s).unwrap();
        assert_eq!(table.get(&key).unwrap().bytes_sent, a + b);
        assert_eq!(trace_tcp_close(&mut table, &s, 13), 0);
        assert!(!table.contains_key(&key));
    }
}

#[test]
fn send_saturates_at_max() {
    let mut table = ConnTable::new();
    let slot = ConfigSlot::new();
    let s = sock_bytes([10, 0, 0, 1], [10, 0, 0, 2], 1, 2);
    trace_tcp_connect(&mut table, &slot, 0, &s, 0);
    trace_tcp_sendmsg(&mut table, &slot, 0, &s, u64::MAX, 1);
    trace_tcp_sendmsg(&mut table, &slot, 0, &s, 10, 2);
    let key = read_conn_key_from_sock(&s).unwrap();
    assert_eq!(table.get(&key).unwrap().bytes_sent, u64::MAX);
}

#[test]
fn other_pid_creates_no_entry() {
    let mut table = ConnTable::new();
    let slot = pid_config(42);
    let s = sock_bytes([10, 0, 0, 1], [93, 184, 216, 34], 5000, 443);
    assert_eq!(trace_tcp_connect(&mut table, &slot, 7u64 << 32, &s, 0), 0);
    assert_eq!(table.len(), 0);
    assert_eq!(trace_tcp_connect(&mut table, &slot, 42u64 << 32, &s, 0), 0);
    assert_eq!(table.len(), 1);
}

#[test]
fn wildcard_pid_traces_any_process() {
    let slot = pid_config(0);
    for pid in [0u32, 1, 42, u32::MAX] {
        let mut table = ConnTable::new();
        let s = sock_bytes([10, 0, 0, 1], [93, 184, 216, 34], 5000, 443);
        assert_eq!(trace_tcp_connect(&mut table, &slot, (pid as u64) << 32, &s, 5), 0);
        let m = table.get(&example_key()).unwrap();
        assert_eq!(m.start_ns, 5);
        assert_eq!(m.last_seen_ns, 5);
        assert_eq!(m.bytes_sent, 0);
    }
}

#[test]
fn full_table_drops_new_connection() {
    let mut table = ConnTable::new();
    let slot = ConfigSlot::new();
    for i in 0..MAX_CONNECTIONS as u32 {
        let s = sock_bytes([10, 0, (i >> 8) as u8, i as u8], [10, 1, 1, 1], 1000, 80);
        assert_eq!(trace_tcp_connect(&mut table, &slot, 0, &s, i as u64), 0);
    }
    assert_eq!(table.len(), MAX_CONNECTIONS);
    let extra = sock_bytes([10, 9, 9, 9], [10, 1, 1, 1], 1000, 80);
    assert_eq!(try_trace_tcp_connect(&mut table, &slot, 0, &extra, 99), Err(ERR_TABLE_FULL));
    assert_eq!(trace_tcp_connect(&mut table, &slot, 0, &extra, 99), 1);
    assert_eq!(table.len(), MAX_CONNECTIONS);
    let extra_key = read_conn_key_from_sock(&extra).unwrap();
    let snap = table.snapshot();
    assert!(snap.iter().all(|(k, _)| *k != extra_key));
    for (i, (k, m)) in snap.iter().enumerate() {
        assert_eq!(k.src_ip, ip([10, 0, (i >> 8) as u8, i as u8]));
        assert_eq!(m.start_ns, i as u64);
    }
    // an existing key is still refreshed while the table is full
    let first = sock_bytes([10, 0, 0, 0], [10, 1, 1, 1], 1000, 80);
    assert_eq!(trace_tcp_connect(&mut table, &slot, 0, &first, 500), 0);
}

#[test]
fn retransmit_untracked_is_noop() {
    let mut table = ConnTable::new();
    let key = example_key();
    assert_eq!(trace_tcp_retransmit(&mut table, &retransmit_record(&key)), 0);
    assert_eq!(table.len(), 0);
    assert!(table.get(&key).is_none());
}

#[test]
fn retransmit_tracked_counts() {
    let mut table = ConnTable::new();
    let slot = ConfigSlot::new();
    let s = sock_bytes([10, 0, 0, 1], [93, 184, 216, 34], 5000, 443);
    trace_tcp_connect(&mut table, &slot, 0, &s, 0);
    let key = example_key();
    assert_eq!(try_trace_tcp_retransmit(&mut table, &retransmit_record(&key)), Ok(()));
    trace_tcp_retransmit(&mut table, &retransmit_record(&key));
    assert_eq!(table.get(&key).unwrap().retransmits, 2);
    assert_eq!(trace_tcp_retransmit(&mut table, &[0u8; 10]), 1);
}

#[test]
fn receive_counts_packets_only() {
    let mut table = ConnTable::new();
    let slot = ConfigSlot::new();
    let s = sock_bytes([10, 0, 0, 1], [93, 184, 216, 34], 5000, 443);
    trace_tcp_connect(&mut table, &slot, 0, &s, 100);
    assert_eq!(trace_tcp_recvmsg(&mut table, &slot, 0, &s, 200), 0);
    assert_eq!(trace_tcp_recvmsg_ret(4096), 0);
    assert_eq!(trace_tcp_recvmsg_ret(-11), 0);
    let m = table.get(&example_key()).unwrap();
    assert_eq!(m.packets_recv, 1);
    assert_eq!(m.bytes_recv, 0);
    assert_eq!(m.last_seen_ns, 200);
}

#[test]
fn send_on_untracked_creates_nothing() {
    let mut table = ConnTable::new();
    let slot = ConfigSlot::new();
    let s = sock_bytes([10, 0, 0, 1], [93, 184, 216, 34], 5000, 443);
    assert_eq!(trace_tcp_sendmsg(&mut table, &slot, 0, &s, 10, 1), 0);
    assert_eq!(trace_tcp_recvmsg(&mut table, &slot, 0, &s, 1), 0);
    assert_eq!(table.len(), 0);
    assert_eq!(trace_tcp_sendmsg(&mut table, &slot, 0, &s[..4], 10, 1), 1);
}

#[test]
fn close_without_entry_still_succeeds() {
    let mut table = ConnTable::new();
    let s = sock_bytes([10, 0, 0, 1], [93, 184, 216, 34], 5000, 443);
    assert_eq!(try_trace_tcp_close(&mut table, &s, 5), Ok(None));
    assert_eq!(trace_tcp_close(&mut table, &s[..3], 5), 1);
}
