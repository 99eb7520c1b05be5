//! Properties of the probe state machine over whole event sequences.

use vstd::prelude::*;
use crate::layout::{ConnKey, ConnMetrics, SidecarConfig};
use crate::probe::{
    close_step, connect_step, recv_step, retransmit_step, send_step, spec_close_report,
    traced_connect,
};

verus! {

/// A traced connect, two traced sends of `size1` and `size2` bytes and a
/// close on one 4-tuple: just before the close the record shows the two sizes
/// summed and two packets, the close report carries that record and the time
/// since the connect, and after the close the table holds no entry for the
/// key. Every other entry is as it was before the connect. The connect must
/// find room (or the key already present), and the two sizes must not sum
/// past `u64::MAX`.
pub proof fn lemma_connect_send_send_close(
    t: Map<ConnKey, ConnMetrics>,
    cap: nat,
    key: ConnKey,
    t_connect: u64,
    size1: u64,
    t_send1: u64,
    size2: u64,
    t_send2: u64,
    t_close: u64,
)
    requires
        t.contains_key(key) || t.dom().len() < cap,
        size1 + size2 <= u64::MAX,
        t_connect <= t_close,
    ensures
        ({
            let t1 = connect_step(t, cap, key, t_connect);
            let t2 = send_step(t1, key, size1, t_send1);
            let t3 = send_step(t2, key, size2, t_send2);
            let t4 = close_step(t3, key);
            &&& t3.contains_key(key)
            &&& t3[key].bytes_sent == size1 + size2
            &&& t3[key].packets_sent == 2
            &&& t3[key].start_ns == t_connect
            &&& spec_close_report(t3, key, t_close) matches Some(r) && r.metrics == t3[key]
                && r.duration_ns == t_close - t_connect
            &&& !t4.contains_key(key)
            &&& t4 == t.remove(key)
        }),
{
    let t1 = connect_step(t, cap, key, t_connect);
    let t2 = send_step(t1, key, size1, t_send1);
    let t3 = send_step(t2, key, size2, t_send2);
    assert(close_step(t3, key) =~= t.remove(key));
}

/// With a non-zero target pid, a connect from any other process leaves the
/// table exactly as it was.
pub proof fn lemma_other_pid_not_traced(
    t: Map<ConnKey, ConnMetrics>,
    cap: nat,
    config: SidecarConfig,
    pid: u32,
    key: ConnKey,
    now: u64,
)
    requires
        config.target_pid != 0,
        pid != config.target_pid,
    ensures
        traced_connect(t, cap, Some(config), pid, key, now) == t,
{
}

/// With a target pid of 0 (or no configuration at all), a connect from any
/// process creates a fresh entry, provided the table has room for it.
pub proof fn lemma_wildcard_pid_traced(
    t: Map<ConnKey, ConnMetrics>,
    cap: nat,
    config: Option<SidecarConfig>,
    pid: u32,
    key: ConnKey,
    now: u64,
)
    requires
        config matches Some(c) ==> c.target_pid == 0,
        t.contains_key(key) || t.dom().len() < cap,
    ensures
        traced_connect(t, cap, config, pid, key, now).contains_key(key),
        traced_connect(t, cap, config, pid, key, now)[key] == ConnMetrics::spec_fresh(now),
{
}

/// A connect of a new 4-tuple into a full table changes nothing: every
/// existing entry keeps its record and the new connection stays absent.
pub proof fn lemma_full_table_drops_new(
    t: Map<ConnKey, ConnMetrics>,
    cap: nat,
    key: ConnKey,
    now: u64,
)
    requires
        t.dom().len() >= cap,
        !t.contains_key(key),
    ensures
        connect_step(t, cap, key, now) == t,
        !connect_step(t, cap, key, now).contains_key(key),
{
}

/// A retransmission on a 4-tuple that is not tracked creates no entry and
/// changes no counter.
pub proof fn lemma_untracked_retransmit_noop(t: Map<ConnKey, ConnMetrics>, key: ConnKey)
    requires
        !t.contains_key(key),
    ensures
        retransmit_step(t, key) == t,
{
}

/// `b` is `a` one or more events later: no counter went down and activity
/// still does not precede creation.
pub open spec fn counters_grown(a: ConnMetrics, b: ConnMetrics) -> bool {
    &&& b.bytes_sent >= a.bytes_sent
    &&& b.bytes_recv >= a.bytes_recv
    &&& b.packets_sent >= a.packets_sent
    &&& b.packets_recv >= a.packets_recv
    &&& b.retransmits >= a.retransmits
    &&& b.start_ns == a.start_ns
    &&& b.last_seen_ns >= a.last_seen_ns
    &&& b.wf()
}

/// Sends, receives and retransmissions keep every tracked connection
/// tracked, never decrease its counters or move its creation time, and keep
/// `last_seen_ns >= start_ns`.
pub proof fn lemma_counters_non_decreasing(
    t: Map<ConnKey, ConnMetrics>,
    k: ConnKey,
    key: ConnKey,
    size: u64,
    now: u64,
)
    requires
        t.contains_key(k),
        t[k].wf(),
    ensures
        send_step(t, key, size, now).contains_key(k),
        counters_grown(t[k], send_step(t, key, size, now)[k]),
        recv_step(t, key, now).contains_key(k),
        counters_grown(t[k], recv_step(t, key, now)[k]),
        retransmit_step(t, key).contains_key(k),
        counters_grown(t[k], retransmit_step(t, key)[k]),
{
}

} // verus!
