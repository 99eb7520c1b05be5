//! Grouping of per-connection records by destination endpoint.
//!
//! Per group the totals of bytes, packets, retransmissions, connection count
//! and lifetime are summed, each held at `u64::MAX`. The mean lifetime is the
//! summed lifetime over the connection count; keeping the sum rather than a
//! running mean makes every figure independent of the order of the records.

use vstd::prelude::*;
use crate::layout::{ConnKey, ConnMetrics};
use crate::probe::sat_add;

verus! {

/// Totals for one destination endpoint.
#[derive(Clone, Copy, Debug, PartialEq, Eq, Structural)]
pub struct EndpointMetrics {
    pub total_bytes_sent: u64,
    pub total_bytes_recv: u64,
    pub total_packets_sent: u64,
    pub total_packets_recv: u64,
    pub total_retransmits: u64,
    pub connection_count: u64,
    /// Sum of the connection lifetimes, in nanoseconds.
    pub total_duration_ns: u64,
}

impl EndpointMetrics {
    /// Totals of an empty group.
    pub open spec fn spec_zero() -> EndpointMetrics {
        EndpointMetrics {
            total_bytes_sent: 0,
            total_bytes_recv: 0,
            total_packets_sent: 0,
            total_packets_recv: 0,
            total_retransmits: 0,
            connection_count: 0,
            total_duration_ns: 0,
        }
    }

    /// Totals after one more connection with counters `m`.
    pub open spec fn spec_add(self, m: ConnMetrics) -> EndpointMetrics {
        EndpointMetrics {
            total_bytes_sent: sat_add(self.total_bytes_sent, m.bytes_sent),
            total_bytes_recv: sat_add(self.total_bytes_recv, m.bytes_recv),
            total_packets_sent: sat_add(self.total_packets_sent, m.packets_sent),
            total_packets_recv: sat_add(self.total_packets_recv, m.packets_recv),
            total_retransmits: sat_add(self.total_retransmits, m.retransmits as u64),
            connection_count: sat_add(self.connection_count, 1),
            total_duration_ns: sat_add(self.total_duration_ns, m.spec_duration_ns()),
        }
    }

    /// Totals of an empty group.
    pub fn zero() -> (r: EndpointMetrics)
        ensures
            r == EndpointMetrics::spec_zero(),
    {
        EndpointMetrics {
            total_bytes_sent: 0,
            total_bytes_recv: 0,
            total_packets_sent: 0,
            total_packets_recv: 0,
            total_retransmits: 0,
            connection_count: 0,
            total_duration_ns: 0,
        }
    }

    /// Adds one connection with counters `m` to the totals.
    pub fn add(&self, m: &ConnMetrics) -> (r: EndpointMetrics)
        ensures
            r == self.spec_add(*m),
    {
        EndpointMetrics {
            total_bytes_sent: self.total_bytes_sent.saturating_add(m.bytes_sent),
            total_bytes_recv: self.total_bytes_recv.saturating_add(m.bytes_recv),
            total_packets_sent: self.total_packets_sent.saturating_add(m.packets_sent),
            total_packets_recv: self.total_packets_recv.saturating_add(m.packets_recv),
            total_retransmits: self.total_retransmits.saturating_add(m.retransmits as u64),
            connection_count: self.connection_count.saturating_add(1),
            total_duration_ns: self.total_duration_ns.saturating_add(m.duration_ns()),
        }
    }

    /// Mean connection lifetime in nanoseconds (0 for an empty group).
    pub fn avg_duration_ns(&self) -> (r: u64)
        ensures
            self.connection_count == 0 ==> r == 0,
            self.connection_count > 0 ==> r == self.total_duration_ns / self.connection_count,
    {
        if self.connection_count == 0 {
            0
        } else {
            self.total_duration_ns / self.connection_count
        }
    }
}

impl Default for EndpointMetrics {
    fn default() -> (r: Self)
        ensures
            r == EndpointMetrics::spec_zero(),
    {
        EndpointMetrics::zero()
    }
}

/// A destination endpoint: address (network byte order) and port.
pub type Endpoint = (u32, u16);

/// The destination endpoint of a connection.
pub open spec fn endpoint_of(k: ConnKey) -> Endpoint {
    (k.dst_ip, k.dst_port)
}

/// `e` with the record `x` added when `x` goes to `ep`.
pub open spec fn add_if(e: EndpointMetrics, x: (ConnKey, ConnMetrics), ep: Endpoint) -> EndpointMetrics {
    if endpoint_of(x.0) == ep {
        e.spec_add(x.1)
    } else {
        e
    }
}

/// Totals of the records of `s` whose destination is `ep`.
pub open spec fn endpoint_totals(s: Seq<(ConnKey, ConnMetrics)>, ep: Endpoint) -> EndpointMetrics
    decreases s.len(),
{
    if s.len() == 0 {
        EndpointMetrics::spec_zero()
    } else {
        add_if(endpoint_totals(s.drop_last(), ep), s.last(), ep)
    }
}

/// Some record of `s` goes to `ep`.
pub open spec fn has_endpoint(s: Seq<(ConnKey, ConnMetrics)>, ep: Endpoint) -> bool {
    exists|j: int| 0 <= j < s.len() && endpoint_of(#[trigger] s[j].0) == ep
}

proof fn lemma_totals_absent(s: Seq<(ConnKey, ConnMetrics)>, ep: Endpoint)
    requires
        !has_endpoint(s, ep),
    ensures
        endpoint_totals(s, ep) == EndpointMetrics::spec_zero(),
    decreases s.len(),
{
    if s.len() > 0 {
        assert(endpoint_of(s[s.len() - 1].0) != ep);
        assert forall|j: int| 0 <= j < s.drop_last().len() implies endpoint_of(
            #[trigger] s.drop_last()[j].0,
        ) != ep by {
            assert(s.drop_last()[j] == s[j]);
        }
        lemma_totals_absent(s.drop_last(), ep);
    }
}

proof fn lemma_add_if_commute(
    e: EndpointMetrics,
    a: (ConnKey, ConnMetrics),
    b: (ConnKey, ConnMetrics),
    ep: Endpoint,
)
    ensures
        add_if(add_if(e, a, ep), b, ep) == add_if(add_if(e, b, ep), a, ep),
{
}

proof fn lemma_totals_remove(s: Seq<(ConnKey, ConnMetrics)>, j: int, ep: Endpoint)
    requires
        0 <= j < s.len(),
    ensures
        endpoint_totals(s, ep) == add_if(endpoint_totals(s.remove(j), ep), s[j], ep),
    decreases s.len(),
{
    let p = s.drop_last();
    if j == s.len() - 1 {
        assert(s.remove(j) =~= p);
    } else {
        lemma_totals_remove(p, j, ep);
        assert(s.remove(j).drop_last() =~= p.remove(j));
        assert(s.remove(j).last() == s.last());
        assert(p[j] == s[j]);
        lemma_add_if_commute(endpoint_totals(p.remove(j), ep), s[j], s.last(), ep);
    }
}

/// Aggregation does not depend on the order of the records: two lists that
/// hold the same records, each as often, give every destination the same
/// totals, and so the same connection count and the same mean lifetime.
pub proof fn lemma_totals_order_independent(
    s1: Seq<(ConnKey, ConnMetrics)>,
    s2: Seq<(ConnKey, ConnMetrics)>,
    ep: Endpoint,
)
    requires
        s1.to_multiset() == s2.to_multiset(),
    ensures
        endpoint_totals(s1, ep) == endpoint_totals(s2, ep),
    decreases s1.len(),
{
    broadcast use vstd::seq_lib::group_to_multiset_ensures;

    if s1.len() == 0 {
        assert(s1.to_multiset().len() == 0);
        assert(s2.len() == s2.to_multiset().len());
        assert(s1 =~= s2);
    } else {
        let x = s1.last();
        let n = s1.len() - 1;
        assert(s1.to_multiset().count(x) > 0) by {
            assert(s1.contains(x)) by {
                assert(s1[n] == x);
            }
        }
        assert(s2.contains(x));
        let j = choose|j: int| 0 <= j < s2.len() && s2[j] == x;
        assert(s1.remove(n) =~= s1.drop_last());
        assert(s1.drop_last().to_multiset() =~= s1.to_multiset().remove(x));
        assert(s2.remove(j).to_multiset() =~= s2.to_multiset().remove(x));
        lemma_totals_order_independent(s1.drop_last(), s2.remove(j), ep);
        lemma_totals_remove(s2, j, ep);
    }
}

/// The endpoints of `out` are pairwise distinct.
pub open spec fn endpoints_unique(out: Seq<(Endpoint, EndpointMetrics)>) -> bool {
    forall|a: int, b: int| 0 <= a < b < out.len() ==> out[a].0 != out[b].0
}

/// `ep` is the endpoint of some entry of `out`.
pub open spec fn lists_endpoint(out: Seq<(Endpoint, EndpointMetrics)>, ep: Endpoint) -> bool {
    exists|a: int| 0 <= a < out.len() && out[a].0 == ep
}

fn find_endpoint(out: &Vec<(Endpoint, EndpointMetrics)>, ep: Endpoint) -> (r: Option<usize>)
    ensures
        match r {
            Some(i) => i < out@.len() && out@[i as int].0 == ep,
            None => forall|a: int| 0 <= a < out@.len() ==> out@[a].0 != ep,
        },
{
    let mut i: usize = 0;
    while i < out.len()
        invariant
            i <= out@.len(),
            forall|a: int| 0 <= a < i ==> out@[a].0 != ep,
        decreases out@.len() - i,
    {
        if out[i].0.0 == ep.0 && out[i].0.1 == ep.1 {
            return Some(i);
        }
        i = i + 1;
    }
    None
}

/// Groups connection records by destination endpoint. The result has one
/// entry per destination that occurs in `connections`, in order of first
/// occurrence, each with the totals of that destination's records.
pub fn aggregate_by_destination(connections: &Vec<(ConnKey, ConnMetrics)>) -> (r: Vec<
    (Endpoint, EndpointMetrics),
>)
    ensures
        endpoints_unique(r@),
        forall|a: int|
            0 <= a < r@.len() ==> #[trigger] r@[a].1 == endpoint_totals(connections@, r@[a].0),
        forall|a: int| 0 <= a < r@.len() ==> has_endpoint(connections@, #[trigger] r@[a].0),
        forall|j: int|
            0 <= j < connections@.len() ==> #[trigger] lists_endpoint(r@, endpoint_of(connections@[j].0)),
{
    let mut out: Vec<(Endpoint, EndpointMetrics)> = Vec::new();
    let mut i: usize = 0;
    while i < connections.len()
        invariant
            i <= connections@.len(),
            endpoints_unique(out@),
            forall|a: int|
                0 <= a < out@.len() ==> #[trigger] out@[a].1 == endpoint_totals(
                    connections@.subrange(0, i as int),
                    out@[a].0,
                ),
            forall|a: int|
                0 <= a < out@.len() ==> has_endpoint(
                    connections@.subrange(0, i as int),
                    #[trigger] out@[a].0,
                ),
            forall|j: int|
                0 <= j < i ==> #[trigger] lists_endpoint(out@, endpoint_of(connections@[j].0)),
        decreases connections@.len() - i,
    {
        let (key, metrics) = connections[i];
        let ep: Endpoint = (key.dst_ip, key.dst_port);
        let ghost prev = connections@.subrange(0, i as int);
        let ghost next = connections@.subrange(0, i + 1);
        let ghost old_out = out@;
        assert(forall|j: int| 0 <= j < i ==> #[trigger] lists_endpoint(old_out, endpoint_of(connections@[j].0)));
        proof {
            assert(next.drop_last() =~= prev);
            assert(next.last() == connections@[i as int]);
            assert forall|e: Endpoint| #[trigger] has_endpoint(prev, e) implies has_endpoint(
                next,
                e,
            ) by {
                let a = choose|a: int| 0 <= a < prev.len() && endpoint_of(#[trigger] prev[a].0) == e;
                assert(next[a] == prev[a]);
            }
        }
        match find_endpoint(&out, ep) {
            Some(idx) => {
                let updated = out[idx].1.add(&metrics);
                out.set(idx, (ep, updated));
                proof {
                    assert forall|a: int| 0 <= a < out@.len() implies #[trigger] out@[a].1
                        == endpoint_totals(next, out@[a].0) by {
                        if a != idx {
                            assert(old_out[a].0 != ep);
                        }
                    }
                    assert forall|a: int| 0 <= a < out@.len() implies has_endpoint(
                        next,
                        #[trigger] out@[a].0,
                    ) by {
                        assert(has_endpoint(prev, old_out[a].0));
                    }
                    assert forall|j: int| 0 <= j < i + 1 implies #[trigger] lists_endpoint(out@, endpoint_of(connections@[j].0)) by {
                        if j == i {
                            assert(out@[idx as int].0 == endpoint_of(connections@[j].0));
                        } else {
                            assert(lists_endpoint(old_out, endpoint_of(connections@[j].0)));
                            let a = choose|a: int|
                                0 <= a < old_out.len() && #[trigger] old_out[a].0 == endpoint_of(
                                    connections@[j].0,
                                );
                            assert(out@[a].0 == old_out[a].0);
                        }
                    }
                }
            },
            None => {
                let fresh = EndpointMetrics::zero().add(&metrics);
                proof {
                    if has_endpoint(prev, ep) {
                        let j = choose|j: int|
                            0 <= j < prev.len() && endpoint_of(#[trigger] prev[j].0) == ep;
                        assert(prev[j] == connections@[j]);
                        assert(lists_endpoint(old_out, endpoint_of(connections@[j].0)));
                        let a = choose|a: int| 0 <= a < old_out.len() && old_out[a].0 == ep;
                        assert(out@[a].0 == ep);
                        assert(false);
                    }
                    lemma_totals_absent(prev, ep);
                }
                out.push((ep, fresh));
                proof {
                    let n = old_out.len() as int;
                    assert(out@[n].0 == ep);
                    assert(next[i as int] == connections@[i as int]);
                    assert(has_endpoint(next, ep));
                    assert forall|a: int| 0 <= a < out@.len() implies #[trigger] out@[a].1
                        == endpoint_totals(next, out@[a].0) by {
                        if a < n {
                            assert(out@[a] == old_out[a]);
                            assert(old_out[a].0 != ep);
                        }
                    }
                    assert forall|a: int| 0 <= a < out@.len() implies has_endpoint(
                        next,
                        #[trigger] out@[a].0,
                    ) by {
                        if a < n {
                            assert(out@[a] == old_out[a]);
                            assert(has_endpoint(prev, old_out[a].0));
                        }
                    }
                    assert forall|j: int| 0 <= j < i + 1 implies #[trigger] lists_endpoint(out@, endpoint_of(connections@[j].0)) by {
                        if j == i {
                            assert(out@[n].0 == endpoint_of(connections@[j].0));
                        } else {
                            assert(lists_endpoint(old_out, endpoint_of(connections@[j].0)));
                            let a = choose|a: int|
                                0 <= a < old_out.len() && #[trigger] old_out[a].0 == endpoint_of(
                                    connections@[j].0,
                                );
                            assert(out@[a] == old_out[a]);
                        }
                    }
                }
            },
        }
        i = i + 1;
    }
    assert(connections@.subrange(0, connections@.len() as int) =~= connections@);
    out
}

} // verus!
