//! The probe state machine: what each kernel hook does to the connection
//! table.
//!
//! A probe receives plain values: the current pid/tgid word, the bytes
//! readable behind the connection-state pointer (or the trace record), the
//! size argument and the monotonic time. Every raw read is bounds checked; a
//! failed read aborts that invocation with a non-zero status and leaves the
//! table untouched.

use vstd::prelude::*;
use crate::layout::{ConnKey, ConnMetrics, SidecarConfig};
use crate::table::ConnTable;

verus! {

/// Byte offset of the local address in the connection-state structure.
pub const SOCK_SADDR_OFFSET: usize = 4;

/// Byte offset of the remote address in the connection-state structure.
pub const SOCK_DADDR_OFFSET: usize = 0;

/// Byte offset of the local port (host order) in the connection-state structure.
pub const SOCK_SPORT_OFFSET: usize = 14;

/// Byte offset of the remote port (network order) in the connection-state structure.
pub const SOCK_DPORT_OFFSET: usize = 12;

/// Byte offset of the local address in the retransmission trace record.
pub const TP_SADDR_OFFSET: usize = 16;

/// Byte offset of the remote address in the retransmission trace record.
pub const TP_DADDR_OFFSET: usize = 20;

/// Byte offset of the local port in the retransmission trace record.
pub const TP_SPORT_OFFSET: usize = 24;

/// Byte offset of the remote port in the retransmission trace record.
pub const TP_DPORT_OFFSET: usize = 26;

/// Status of a failed read of a trace-record field.
pub const ERR_FAULT: i64 = -14;

/// The integer stored little-endian in the four bytes of `s` at `off`.
pub open spec fn le_u32(s: Seq<u8>, off: int) -> u32 {
    (s[off] as int + s[off + 1] as int * 0x100 + s[off + 2] as int * 0x1_0000 + s[off + 3] as int
        * 0x100_0000) as u32
}

/// The integer stored little-endian in the two bytes of `s` at `off`.
pub open spec fn le_u16(s: Seq<u8>, off: int) -> u16 {
    (s[off] as int + s[off + 1] as int * 0x100) as u16
}

/// The integer stored big-endian (network order) in the two bytes of `s` at `off`.
pub open spec fn be_u16(s: Seq<u8>, off: int) -> u16 {
    (s[off] as int * 0x100 + s[off + 1] as int) as u16
}

fn read_u32_le(s: &[u8], off: usize) -> (r: u32)
    requires
        off + 4 <= s@.len(),
    ensures
        r == le_u32(s@, off as int),
{
    s[off] as u32 + s[off + 1] as u32 * 0x100 + s[off + 2] as u32 * 0x1_0000 + s[off + 3] as u32
        * 0x100_0000
}

fn read_u16_le(s: &[u8], off: usize) -> (r: u16)
    requires
        off + 2 <= s@.len(),
    ensures
        r == le_u16(s@, off as int),
{
    s[off] as u16 + s[off + 1] as u16 * 0x100
}

fn read_u16_be(s: &[u8], off: usize) -> (r: u16)
    requires
        off + 2 <= s@.len(),
    ensures
        r == be_u16(s@, off as int),
{
    s[off] as u16 * 0x100 + s[off + 1] as u16
}

/// The 4-tuple read out of the connection-state bytes `s`, or the status of
/// the first read that falls outside them.
pub open spec fn spec_sock_key(s: Seq<u8>) -> Result<ConnKey, i64> {
    if s.len() < 8 {
        Err(1)
    } else if s.len() < 16 {
        Err(3)
    } else {
        Ok(
            ConnKey {
                src_ip: le_u32(s, 4),
                dst_ip: le_u32(s, 0),
                src_port: le_u16(s, 14),
                dst_port: be_u16(s, 12),
            },
        )
    }
}

/// Reads the 4-tuple out of the connection-state bytes: the local address at
/// offset 4, the remote address at 0, the local port at 14 (host order) and
/// the remote port at 12 (network order, converted to host order). The reads
/// are made in that order; the first one out of bounds aborts with its
/// status (1, 2, 3 or 4).
pub fn read_conn_key_from_sock(sock: &[u8]) -> (r: Result<ConnKey, i64>)
    ensures
        r == spec_sock_key(sock@),
{
    if sock.len() < SOCK_SADDR_OFFSET + 4 {
        return Err(1);
    }
    let src_ip = read_u32_le(sock, SOCK_SADDR_OFFSET);
    if sock.len() < SOCK_DADDR_OFFSET + 4 {
        return Err(2);
    }
    let dst_ip = read_u32_le(sock, SOCK_DADDR_OFFSET);
    if sock.len() < SOCK_SPORT_OFFSET + 2 {
        return Err(3);
    }
    let src_port = read_u16_le(sock, SOCK_SPORT_OFFSET);
    if sock.len() < SOCK_DPORT_OFFSET + 2 {
        return Err(4);
    }
    let dst_port = read_u16_be(sock, SOCK_DPORT_OFFSET);
    Ok(ConnKey { src_ip, dst_ip, src_port, dst_port })
}

/// The 4-tuple of a retransmission trace record, or `ERR_FAULT` when the
/// record is too short.
pub open spec fn spec_retransmit_key(s: Seq<u8>) -> Result<ConnKey, i64> {
    if s.len() < 28 {
        Err(ERR_FAULT)
    } else {
        Ok(
            ConnKey {
                src_ip: le_u32(s, 16),
                dst_ip: le_u32(s, 20),
                src_port: le_u16(s, 24),
                dst_port: le_u16(s, 26),
            },
        )
    }
}

/// Reads the 4-tuple out of a retransmission trace record: addresses at 16
/// and 20, ports at 24 and 26, each as stored.
pub fn read_conn_key_from_tracepoint(record: &[u8]) -> (r: Result<ConnKey, i64>)
    ensures
        r == spec_retransmit_key(record@),
{
    if record.len() < TP_DPORT_OFFSET + 2 {
        return Err(ERR_FAULT);
    }
    Ok(
        ConnKey {
            src_ip: read_u32_le(record, TP_SADDR_OFFSET),
            dst_ip: read_u32_le(record, TP_DADDR_OFFSET),
            src_port: read_u16_le(record, TP_SPORT_OFFSET),
            dst_port: read_u16_le(record, TP_DPORT_OFFSET),
        },
    )
}

/// The process id in a pid/tgid word: its upper 32 bits.
pub open spec fn spec_pid_of(pid_tgid: u64) -> u32 {
    (pid_tgid / 0x1_0000_0000) as u32
}

/// The process id in a pid/tgid word.
pub fn pid_of(pid_tgid: u64) -> (r: u32)
    ensures
        r == spec_pid_of(pid_tgid),
{
    (pid_tgid / 0x1_0000_0000) as u32
}

/// Whether a probe fired in process `pid` is traced under `config`. An empty
/// configuration slot traces everything; a target pid of 0 traces every
/// process.
pub open spec fn spec_should_trace(config: Option<SidecarConfig>, pid: u32) -> bool {
    match config {
        None => true,
        Some(c) => c.target_pid == 0 || c.target_pid == pid,
    }
}

/// Whether a probe fired under the pid/tgid word `pid_tgid` is traced.
pub fn should_trace(config: &ConfigSlot, pid_tgid: u64) -> (r: bool)
    ensures
        r == spec_should_trace(config@, spec_pid_of(pid_tgid)),
{
    match config.get() {
        None => true,
        Some(c) => {
            if c.target_pid != 0 {
                let pid = pid_of(pid_tgid);
                if pid != c.target_pid {
                    return false;
                }
            }
            true
        },
    }
}

/// The single-slot channel through which userspace hands the probes their
/// configuration. It starts empty; every write replaces the value.
pub struct ConfigSlot {
    value: Option<SidecarConfig>,
}

impl View for ConfigSlot {
    type V = Option<SidecarConfig>;

    closed spec fn view(&self) -> Option<SidecarConfig> {
        self.value
    }
}

impl ConfigSlot {
    /// A slot that has never been written.
    pub fn new() -> (r: ConfigSlot)
        ensures
            r@ == None::<SidecarConfig>,
    {
        ConfigSlot { value: None }
    }

    /// Replaces the configuration.
    pub fn set(&mut self, config: SidecarConfig)
        ensures
            final(self)@ == Some(config),
    {
        self.value = Some(config);
    }

    /// The latest configuration written, if any.
    pub fn get(&self) -> (r: Option<SidecarConfig>)
        ensures
            r == self@,
    {
        self.value
    }
}

/// `a + b`, held at `u64::MAX`.
pub open spec fn sat_add(a: u64, b: u64) -> u64 {
    if a + b > u64::MAX {
        u64::MAX
    } else {
        (a + b) as u64
    }
}

/// `a + 1`, held at `u32::MAX`.
pub open spec fn sat_inc32(a: u32) -> u32 {
    if a == u32::MAX {
        a
    } else {
        (a + 1) as u32
    }
}

/// The later of two instants.
pub open spec fn later(a: u64, b: u64) -> u64 {
    if a >= b {
        a
    } else {
        b
    }
}

/// A record after a send of `size` bytes at `now`.
pub open spec fn after_send(m: ConnMetrics, size: u64, now: u64) -> ConnMetrics {
    ConnMetrics {
        bytes_sent: sat_add(m.bytes_sent, size),
        packets_sent: sat_add(m.packets_sent, 1),
        last_seen_ns: later(m.last_seen_ns, now),
        ..m
    }
}

/// A record after a receive at `now`.
pub open spec fn after_recv(m: ConnMetrics, now: u64) -> ConnMetrics {
    ConnMetrics { packets_recv: sat_add(m.packets_recv, 1), last_seen_ns: later(m.last_seen_ns, now), ..m }
}

/// A record after a retransmission.
pub open spec fn after_retransmit(m: ConnMetrics) -> ConnMetrics {
    ConnMetrics { retransmits: sat_inc32(m.retransmits), ..m }
}

/// The table after a traced connect of `key` at `now`: a fresh record when
/// the key is already present or the table has room, else no change.
pub open spec fn connect_step(
    t: Map<ConnKey, ConnMetrics>,
    cap: nat,
    key: ConnKey,
    now: u64,
) -> Map<ConnKey, ConnMetrics> {
    if t.contains_key(key) || t.dom().len() < cap {
        t.insert(key, ConnMetrics::spec_fresh(now))
    } else {
        t
    }
}

/// The table after a connect of `key` at `now` in process `pid` under
/// `config`: the filter decides whether the connect is traced at all.
pub open spec fn traced_connect(
    t: Map<ConnKey, ConnMetrics>,
    cap: nat,
    config: Option<SidecarConfig>,
    pid: u32,
    key: ConnKey,
    now: u64,
) -> Map<ConnKey, ConnMetrics> {
    if spec_should_trace(config, pid) {
        connect_step(t, cap, key, now)
    } else {
        t
    }
}

/// The table after a traced send on `key`: only an existing record changes.
pub open spec fn send_step(
    t: Map<ConnKey, ConnMetrics>,
    key: ConnKey,
    size: u64,
    now: u64,
) -> Map<ConnKey, ConnMetrics> {
    if t.contains_key(key) {
        t.insert(key, after_send(t[key], size, now))
    } else {
        t
    }
}

/// The table after a traced receive on `key`: only an existing record changes.
pub open spec fn recv_step(t: Map<ConnKey, ConnMetrics>, key: ConnKey, now: u64) -> Map<
    ConnKey,
    ConnMetrics,
> {
    if t.contains_key(key) {
        t.insert(key, after_recv(t[key], now))
    } else {
        t
    }
}

/// The table after a retransmission on `key`: only an existing record changes.
pub open spec fn retransmit_step(t: Map<ConnKey, ConnMetrics>, key: ConnKey) -> Map<
    ConnKey,
    ConnMetrics,
> {
    if t.contains_key(key) {
        t.insert(key, after_retransmit(t[key]))
    } else {
        t
    }
}

/// The table after a close of `key`: the entry is gone.
pub open spec fn close_step(t: Map<ConnKey, ConnMetrics>, key: ConnKey) -> Map<
    ConnKey,
    ConnMetrics,
> {
    t.remove(key)
}

/// Record of a connection at the moment its close probe fired.
#[derive(Clone, Copy, Debug, PartialEq, Eq, Structural)]
pub struct CloseReport {
    /// The connection closed.
    pub key: ConnKey,
    /// Its counters just before removal.
    pub metrics: ConnMetrics,
    /// Time from creation to the close, in nanoseconds.
    pub duration_ns: u64,
}

/// On-connect: when the process is traced and the 4-tuple can be read, a
/// fresh record with `start_ns == last_seen_ns == now` is inserted. A full
/// table refuses a new key with `ERR_TABLE_FULL` and keeps every entry.
pub fn try_trace_tcp_connect(
    table: &mut ConnTable,
    config: &ConfigSlot,
    pid_tgid: u64,
    sock: &[u8],
    now: u64,
) -> (r: Result<(), i64>)
    requires
        old(table).wf(),
    ensures
        final(table).wf(),
        final(table).capacity() == old(table).capacity(),
        !spec_should_trace(config@, spec_pid_of(pid_tgid)) ==> r == Ok::<(), i64>(()) && final(table)@ == old(table)@,
        spec_should_trace(config@, spec_pid_of(pid_tgid)) ==> match spec_sock_key(sock@) {
            Err(e) => r == Err::<(), i64>(e) && final(table)@ == old(table)@,
            Ok(key) => {
                &&& final(table)@ == connect_step(old(table)@, old(table).capacity(), key, now)
                &&& (r is Ok <==> old(table)@.contains_key(key) || old(table)@.dom().len()
                    < old(table).capacity())
                &&& r is Err ==> r == Err::<(), i64>(crate::table::ERR_TABLE_FULL)
            },
        },        spec_sock_key(sock@) is Ok ==> final(table)@ == traced_connect(
            old(table)@,
            old(table).capacity(),
            config@,
            spec_pid_of(pid_tgid),
            spec_sock_key(sock@)->Ok_0,
            now,
        ),
{
    if !should_trace(config, pid_tgid) {
        return Ok(());
    }
    let key = read_conn_key_from_sock(sock)?;
    let metrics = ConnMetrics::fresh(now);
    table.insert(&key, &metrics)?;
    Ok(())
}

/// Hook entry for a connect; see `try_trace_tcp_connect`.
pub fn trace_tcp_connect(
    table: &mut ConnTable,
    config: &ConfigSlot,
    pid_tgid: u64,
    sock: &[u8],
    now: u64,
) -> (r: u32)
    requires
        old(table).wf(),
    ensures
        final(table).wf(),
        final(table).capacity() == old(table).capacity(),
        !spec_should_trace(config@, spec_pid_of(pid_tgid)) ==> r == 0 && final(table)@ == old(table)@,
        spec_should_trace(config@, spec_pid_of(pid_tgid)) ==> match spec_sock_key(sock@) {
            Err(e) => r == 1 && final(table)@ == old(table)@,
            Ok(key) => {
                &&& final(table)@ == connect_step(old(table)@, old(table).capacity(), key, now)
                &&& (r == 0 <==> old(table)@.contains_key(key) || old(table)@.dom().len()
                    < old(table).capacity())
                &&& r <= 1
            },
        },
{
    match try_trace_tcp_connect(table, config, pid_tgid, sock, now) {
        Ok(()) => 0,
        Err(_) => 1,
    }
}

/// On-send: when traced and the 4-tuple can be read, an existing record gets
/// `size` more bytes sent, one more packet sent and its activity time moved
/// to `now`. A connection not in the table stays absent.
pub fn try_trace_tcp_sendmsg(
    table: &mut ConnTable,
    config: &ConfigSlot,
    pid_tgid: u64,
    sock: &[u8],
    size: u64,
    now: u64,
) -> (r: Result<(), i64>)
    requires
        old(table).wf(),
    ensures
        final(table).wf(),
        final(table).capacity() == old(table).capacity(),
        !spec_should_trace(config@, spec_pid_of(pid_tgid)) ==> r == Ok::<(), i64>(()) && final(table)@ == old(table)@,
        spec_should_trace(config@, spec_pid_of(pid_tgid)) ==> match spec_sock_key(sock@) {
            Err(e) => r == Err::<(), i64>(e) && final(table)@ == old(table)@,
            Ok(key) => r == Ok::<(), i64>(()) && final(table)@ == send_step(
                old(table)@,
                key,
                size,
                now,
            ),
        },
{
    if !should_trace(config, pid_tgid) {
        return Ok(());
    }
    let key = read_conn_key_from_sock(sock)?;
    proof {
        table.lemma_view_wf();
    }
    if let Some(m) = table.get(&key) {
        let updated = ConnMetrics {
            bytes_sent: m.bytes_sent.saturating_add(size),
            packets_sent: m.packets_sent.saturating_add(1),
            last_seen_ns: if now >= m.last_seen_ns {
                now
            } else {
                m.last_seen_ns
            },
            ..m
        };
        table.update(&key, &updated);
    }
    Ok(())
}

/// Hook entry for a send; see `try_trace_tcp_sendmsg`.
pub fn trace_tcp_sendmsg(
    table: &mut ConnTable,
    config: &ConfigSlot,
    pid_tgid: u64,
    sock: &[u8],
    size: u64,
    now: u64,
) -> (r: u32)
    requires
        old(table).wf(),
    ensures
        final(table).wf(),
        final(table).capacity() == old(table).capacity(),
        !spec_should_trace(config@, spec_pid_of(pid_tgid)) ==> r == 0 && final(table)@ == old(table)@,
        spec_should_trace(config@, spec_pid_of(pid_tgid)) ==> match spec_sock_key(sock@) {
            Err(e) => r == 1 && final(table)@ == old(table)@,
            Ok(key) => r == 0 && final(table)@ == send_step(old(table)@, key, size, now),
        },
{
    match try_trace_tcp_sendmsg(table, config, pid_tgid, sock, size, now) {
        Ok(()) => 0,
        Err(_) => 1,
    }
}

/// On-receive (entry): when traced and the 4-tuple can be read, an existing
/// record gets one more packet received and its activity time moved to
/// `now`. Received bytes are not counted here.
pub fn try_trace_tcp_recvmsg(
    table: &mut ConnTable,
    config: &ConfigSlot,
    pid_tgid: u64,
    sock: &[u8],
    now: u64,
) -> (r: Result<(), i64>)
    requires
        old(table).wf(),
    ensures
        final(table).wf(),
        final(table).capacity() == old(table).capacity(),
        !spec_should_trace(config@, spec_pid_of(pid_tgid)) ==> r == Ok::<(), i64>(()) && final(table)@ == old(table)@,
        spec_should_trace(config@, spec_pid_of(pid_tgid)) ==> match spec_sock_key(sock@) {
            Err(e) => r == Err::<(), i64>(e) && final(table)@ == old(table)@,
            Ok(key) => r == Ok::<(), i64>(()) && final(table)@ == recv_step(
                old(table)@,
                key,
                now,
            ),
        },
{
    if !should_trace(config, pid_tgid) {
        return Ok(());
    }
    let key = read_conn_key_from_sock(sock)?;
    proof {
        table.lemma_view_wf();
    }
    if let Some(m) = table.get(&key) {
        let updated = ConnMetrics {
            packets_recv: m.packets_recv.saturating_add(1),
            last_seen_ns: if now >= m.last_seen_ns {
                now
            } else {
                m.last_seen_ns
            },
            ..m
        };
        table.update(&key, &updated);
    }
    Ok(())
}

/// Hook entry for a receive; see `try_trace_tcp_recvmsg`.
pub fn trace_tcp_recvmsg(
    table: &mut ConnTable,
    config: &ConfigSlot,
    pid_tgid: u64,
    sock: &[u8],
    now: u64,
) -> (r: u32)
    requires
        old(table).wf(),
    ensures
        final(table).wf(),
        final(table).capacity() == old(table).capacity(),
        !spec_should_trace(config@, spec_pid_of(pid_tgid)) ==> r == 0 && final(table)@ == old(table)@,
        spec_should_trace(config@, spec_pid_of(pid_tgid)) ==> match spec_sock_key(sock@) {
            Err(e) => r == 1 && final(table)@ == old(table)@,
            Ok(key) => r == 0 && final(table)@ == recv_step(old(table)@, key, now),
        },
{
    match try_trace_tcp_recvmsg(table, config, pid_tgid, sock, now) {
        Ok(()) => 0,
        Err(_) => 1,
    }
}

/// On-receive (return): `ret` is the byte count the receive produced, or a
/// negative error. The return probe carries no connection identity, so the
/// byte count is not attributed to any entry and the table is not touched.
pub fn try_trace_tcp_recvmsg_ret(ret: i64) -> (r: Result<(), i64>)
    ensures
        r == Ok::<(), i64>(()),
{
    if ret <= 0 {
        return Ok(());
    }
    Ok(())
}

/// Hook entry for a receive return; see `try_trace_tcp_recvmsg_ret`.
pub fn trace_tcp_recvmsg_ret(ret: i64) -> (r: u32)
    ensures
        r == 0,
{
    match try_trace_tcp_recvmsg_ret(ret) {
        Ok(()) => 0,
        Err(_) => 1,
    }
}

/// The report a close of `key` at `now` produces from the table `t`.
pub open spec fn spec_close_report(t: Map<ConnKey, ConnMetrics>, key: ConnKey, now: u64) -> Option<
    CloseReport,
> {
    if t.contains_key(key) {
        Some(
            CloseReport {
                key,
                metrics: t[key],
                duration_ns: if now >= t[key].start_ns {
                    (now - t[key].start_ns) as u64
                } else {
                    0
                },
            },
        )
    } else {
        None
    }
}

/// On-close: reads the final record of the connection (for telemetry), then
/// removes the entry whether or not one existed. Applies to every process.
pub fn try_trace_tcp_close(table: &mut ConnTable, sock: &[u8], now: u64) -> (r: Result<
    Option<CloseReport>,
    i64,
>)
    requires
        old(table).wf(),
    ensures
        final(table).wf(),
        final(table).capacity() == old(table).capacity(),
        match spec_sock_key(sock@) {
            Err(e) => r == Err::<Option<CloseReport>, i64>(e) && final(table)@ == old(table)@,
            Ok(key) => r == Ok::<Option<CloseReport>, i64>(
                spec_close_report(old(table)@, key, now),
            ) && final(table)@ == close_step(old(table)@, key),
        },
{
    let key = read_conn_key_from_sock(sock)?;
    let report = match table.get(&key) {
        Some(metrics) => Some(
            CloseReport { key, metrics, duration_ns: now.saturating_sub(metrics.start_ns) },
        ),
        None => None,
    };
    let _ = table.remove(&key);
    Ok(report)
}

/// Hook entry for a close; see `try_trace_tcp_close`.
pub fn trace_tcp_close(table: &mut ConnTable, sock: &[u8], now: u64) -> (r: u32)
    requires
        old(table).wf(),
    ensures
        final(table).wf(),
        final(table).capacity() == old(table).capacity(),
        match spec_sock_key(sock@) {
            Err(e) => r == 1 && final(table)@ == old(table)@,
            Ok(key) => r == 0 && final(table)@ == close_step(old(table)@, key),
        },
{
    match try_trace_tcp_close(table, sock, now) {
        Ok(_) => 0,
        Err(_) => 1,
    }
}

/// On-retransmit: the 4-tuple comes from the trace record; an existing
/// record gets one more retransmission. No record is created. Applies to
/// every process.
pub fn try_trace_tcp_retransmit(table: &mut ConnTable, record: &[u8]) -> (r: Result<(), i64>)
    requires
        old(table).wf(),
    ensures
        final(table).wf(),
        final(table).capacity() == old(table).capacity(),
        match spec_retransmit_key(record@) {
            Err(e) => r == Err::<(), i64>(e) && final(table)@ == old(table)@,
            Ok(key) => r == Ok::<(), i64>(()) && final(table)@ == retransmit_step(
                old(table)@,
                key,
            ),
        },
{
    let key = read_conn_key_from_tracepoint(record)?;
    proof {
        table.lemma_view_wf();
    }
    if let Some(m) = table.get(&key) {
        let updated = ConnMetrics { retransmits: m.retransmits.saturating_add(1), ..m };
        table.update(&key, &updated);
    }
    Ok(())
}

/// Hook entry for a retransmission; see `try_trace_tcp_retransmit`.
pub fn trace_tcp_retransmit(table: &mut ConnTable, record: &[u8]) -> (r: u32)
    requires
        old(table).wf(),
    ensures
        final(table).wf(),
        final(table).capacity() == old(table).capacity(),
        match spec_retransmit_key(record@) {
            Err(e) => r == 1 && final(table)@ == old(table)@,
            Ok(key) => r == 0 && final(table)@ == retransmit_step(old(table)@, key),
        },
{
    match try_trace_tcp_retransmit(table, record) {
        Ok(()) => 0,
        Err(_) => 1,
    }
}

} // verus!
