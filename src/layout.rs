//! Fixed-layout records exchanged between the kernel probes and userspace.
//!
//! default value.

use vstd::prelude::*;

verus! {

/// Identity of a TCP connection: its 4-tuple.
///
/// Addresses are kept in network byte order, ports in host byte order.
/// The layout is 12 bytes without padding.
#[derive(Clone, Copy, Debug, PartialEq, Eq, Structural, Hash)]
pub struct ConnKey {
    /// Source address (network byte order).
    pub src_ip: u32,
    /// Destination address (network byte order).
    pub dst_ip: u32,
    /// Source port (host byte order).
    pub src_port: u16,
    /// Destination port (host byte order).
    pub dst_port: u16,
}

impl Default for ConnKey {
    fn default() -> (r: Self)
        ensures
            r == (ConnKey { src_ip: 0, dst_ip: 0, src_port: 0, dst_port: 0 }),
    {
        ConnKey { src_ip: 0, dst_ip: 0, src_port: 0, dst_port: 0 }
    }
}

/// Counters kept for one tracked connection (48 bytes).
#[derive(Clone, Copy, Debug, PartialEq, Eq, Structural)]
pub struct ConnMetrics {
    /// Bytes handed to the send path.
    pub bytes_sent: u64,
    /// Bytes received.
    pub bytes_recv: u64,
    /// Number of send calls observed.
    pub packets_sent: u64,
    /// Number of receive calls observed.
    pub packets_recv: u64,
    /// Creation time, monotonic nanoseconds.
    pub start_ns: u64,
    /// Time of the last activity, monotonic nanoseconds.
    pub last_seen_ns: u64,
    /// Retransmissions observed.
    pub retransmits: u32,
    /// Alignment pad, always zero when written by the probes.
    pub _padding: u32,
}

impl ConnMetrics {
    /// The record invariant: activity never precedes creation.
    pub open spec fn wf(&self) -> bool {
        self.last_seen_ns >= self.start_ns
    }

    /// A fresh record for a connection first seen at `now`.
    pub open spec fn spec_fresh(now: u64) -> ConnMetrics {
        ConnMetrics {
            bytes_sent: 0,
            bytes_recv: 0,
            packets_sent: 0,
            packets_recv: 0,
            start_ns: now,
            last_seen_ns: now,
            retransmits: 0,
            _padding: 0,
        }
    }

    /// A fresh record for a connection first seen at `now`: all counters zero.
    pub fn fresh(now: u64) -> (r: ConnMetrics)
        ensures
            r == ConnMetrics::spec_fresh(now),
            r.wf(),
    {
        ConnMetrics {
            bytes_sent: 0,
            bytes_recv: 0,
            packets_sent: 0,
            packets_recv: 0,
            start_ns: now,
            last_seen_ns: now,
            retransmits: 0,
            _padding: 0,
        }
    }

    /// Lifetime of the connection so far, in nanoseconds (zero for a record
    /// whose activity time precedes its creation time).
    pub open spec fn spec_duration_ns(&self) -> u64 {
        if self.last_seen_ns >= self.start_ns {
            (self.last_seen_ns - self.start_ns) as u64
        } else {
            0
        }
    }

    /// Lifetime of the connection so far, in nanoseconds.
    pub fn duration_ns(&self) -> (r: u64)
        ensures
            r == self.spec_duration_ns(),
            self.wf() ==> r == self.last_seen_ns - self.start_ns,
    {
        self.last_seen_ns.saturating_sub(self.start_ns)
    }
}

impl Default for ConnMetrics {
    fn default() -> (r: Self)
        ensures
            r == ConnMetrics::spec_fresh(0),
    {
        ConnMetrics::fresh(0)
    }
}

/// A request/response record for layer-7 observation. Reserved: the current
/// probes never produce one.
#[derive(Clone, Copy, Debug)]
pub struct HttpEvent {
    /// Connection the exchange belongs to.
    pub conn: ConnKey,
    /// Request/response latency in nanoseconds.
    pub latency_ns: u64,
    /// Response status code.
    pub status_code: u16,
    /// Method code, one of the constants of `http_method`.
    pub method: u8,
    /// Alignment pad.
    pub _padding: u8,
    /// Hash of the request path.
    pub path_hash: u32,
}

impl Default for HttpEvent {
    fn default() -> (r: Self)
        ensures
            r.conn == (ConnKey { src_ip: 0, dst_ip: 0, src_port: 0, dst_port: 0 }),
            r.latency_ns == 0,
            r.status_code == 0,
            r.method == 0,
            r._padding == 0,
            r.path_hash == 0,
    {
        HttpEvent {
            conn: ConnKey::default(),
            latency_ns: 0,
            status_code: 0,
            method: 0,
            _padding: 0,
            path_hash: 0,
        }
    }
}

/// Identity of a process, used to scope tracing.
#[derive(Clone, Copy, Debug)]
pub struct ProcessInfo {
    /// Process id.
    pub pid: u32,
    /// Thread-group id.
    pub tgid: u32,
    /// User id.
    pub uid: u32,
    /// Group id.
    pub gid: u32,
    /// Control-group id.
    pub cgroup_id: u64,
}

impl Default for ProcessInfo {
    fn default() -> (r: Self)
        ensures
            r.pid == 0 && r.tgid == 0 && r.uid == 0 && r.gid == 0 && r.cgroup_id == 0,
    {
        ProcessInfo { pid: 0, tgid: 0, uid: 0, gid: 0, cgroup_id: 0 }
    }
}

/// Most ports a `SidecarConfig` can name.
pub const MAX_TARGET_PORTS: usize = 8;

/// Filtering rules pushed by userspace and read by every probe.
#[derive(Clone, Copy, Debug)]
pub struct SidecarConfig {
    /// Process to trace; 0 traces every process.
    pub target_pid: u32,
    /// Control group to trace; 0 traces every control group.
    pub target_cgroup: u64,
    /// Ports to trace; only the first `num_target_ports` are meaningful.
    pub target_ports: [u16; 8],
    /// How many entries of `target_ports` are in use.
    pub num_target_ports: u8,
    /// Layer-7 inspection switch (1 = on).
    pub enable_http: u8,
    /// Probe-side debug logging switch (1 = on).
    pub debug_mode: u8,
    /// Trailing pad byte.
    pub _padding: u8,
}

impl Default for SidecarConfig {
    fn default() -> (r: Self)
        ensures
            r.target_pid == 0,
            r.target_cgroup == 0,
            r.target_ports@ == seq![0u16; 8],
            r.num_target_ports == 0,
            r.enable_http == 0,
            r.debug_mode == 0,
            r._padding == 0,
    {
        SidecarConfig {
            target_pid: 0,
            target_cgroup: 0,
            target_ports: [0u16; 8],
            num_target_ports: 0,
            enable_http: 0,
            debug_mode: 0,
            _padding: 0,
        }
    }
}

} // verus!
