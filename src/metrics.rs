//! Userspace collection: per-connection samples for export, human-readable
//! sizes, and routing of export requests.

use vstd::prelude::*;
use vstd::string::StringExecFns;
use crate::layout::{ConnKey, ConnMetrics};
use crate::text::{dec, digit_char, dotted, ipv4_dotted, decimal, push_decimal, push_digit, str_equal};

verus! {

/// `n / d` rounded to the nearest integer, ties to the even one.
pub open spec fn div_round_even(n: nat, d: nat) -> nat
    recommends
        d > 0,
{
    let q = n / d;
    let r = n % d;
    if 2 * r > d || (2 * r == d && q % 2 == 1) {
        q + 1
    } else {
        q
    }
}

/// `n / unit` written with two decimals, rounded half to even.
pub open spec fn fixed2(n: nat, unit: nat) -> Seq<char> {
    let c = div_round_even(n * 100, unit);
    dec(c / 100) + seq!['.', digit_char(c % 100 / 10), digit_char(c % 10)]
}

/// Human-readable text of a byte count: `GB`, `MB` or `KB` with two
/// decimals from 1 GiB, 1 MiB and 1 KiB up, plain bytes below.
pub open spec fn spec_format_bytes(bytes: nat) -> Seq<char> {
    if bytes >= 1_073_741_824 {
        fixed2(bytes, 1_073_741_824) + seq![' ', 'G', 'B']
    } else if bytes >= 1_048_576 {
        fixed2(bytes, 1_048_576) + seq![' ', 'M', 'B']
    } else if bytes >= 1024 {
        fixed2(bytes, 1024) + seq![' ', 'K', 'B']
    } else {
        dec(bytes) + seq![' ', 'B']
    }
}

fn push_fixed2(s: &mut String, n: u64, unit: u64)
    requires
        unit > 0,
    ensures
        final(s)@ == old(s)@ + fixed2(n as nat, unit as nat),
{
    proof {
        reveal_strlit(".");
    }
    let m: u128 = n as u128 * 100;
    let u: u128 = unit as u128;
    let q: u128 = m / u;
    let r: u128 = m % u;
    let c: u128 = if 2 * r > u || (2 * r == u && q % 2 == 1) {
        q + 1
    } else {
        q
    };
    assert(c == div_round_even(n as nat * 100, unit as nat));
    push_decimal(s, c / 100);
    s.append(".");
    push_digit(s, (c % 100 / 10) as u64);
    push_digit(s, (c % 10) as u64);
    assert(final(s)@ =~= old(s)@ + fixed2(n as nat, unit as nat));
}

/// Human-readable text of a byte count (`"1.50 KB"`, `"512 B"`).
pub fn format_bytes(bytes: u64) -> (r: String)
    ensures
        r@ == spec_format_bytes(bytes as nat),
{
    proof {
        reveal_strlit(" GB");
        reveal_strlit(" MB");
        reveal_strlit(" KB");
        reveal_strlit(" B");
    }
    let mut s = String::new();
    if bytes >= 1_073_741_824 {
        push_fixed2(&mut s, bytes, 1_073_741_824);
        s.append(" GB");
    } else if bytes >= 1_048_576 {
        push_fixed2(&mut s, bytes, 1_048_576);
        s.append(" MB");
    } else if bytes >= 1024 {
        push_fixed2(&mut s, bytes, 1024);
        s.append(" KB");
    } else {
        push_decimal(&mut s, bytes as u128);
        s.append(" B");
    }
    assert(s@ =~= spec_format_bytes(bytes as nat));
    s
}

/// The exported figures of one connection: its labels (source address,
/// destination address, destination port) and its counters.
pub struct ConnectionSample {
    pub src_ip: String,
    pub dst_ip: String,
    pub dst_port: String,
    pub bytes_sent: u64,
    pub bytes_recv: u64,
    pub packets_sent: u64,
    pub packets_recv: u64,
    pub retransmits: u64,
    /// Connection age: last activity minus creation, in nanoseconds.
    pub duration_ns: u64,
}

/// `s` is the sample of the connection `key` with counters `m`.
pub open spec fn is_sample_of(s: ConnectionSample, key: ConnKey, m: ConnMetrics) -> bool {
    &&& s.src_ip@ == dotted(key.src_ip)
    &&& s.dst_ip@ == dotted(key.dst_ip)
    &&& s.dst_port@ == dec(key.dst_port as nat)
    &&& s.bytes_sent == m.bytes_sent
    &&& s.bytes_recv == m.bytes_recv
    &&& s.packets_sent == m.packets_sent
    &&& s.packets_recv == m.packets_recv
    &&& s.retransmits == m.retransmits as u64
    &&& s.duration_ns == m.spec_duration_ns()
}

/// The sample of one connection: addresses in dotted-decimal form, the
/// port in decimal, and the counters.
pub fn connection_sample(key: &ConnKey, m: &ConnMetrics) -> (r: ConnectionSample)
    ensures
        is_sample_of(r, *key, *m),
{
    ConnectionSample {
        src_ip: ipv4_dotted(key.src_ip),
        dst_ip: ipv4_dotted(key.dst_ip),
        dst_port: decimal(key.dst_port as u64),
        bytes_sent: m.bytes_sent,
        bytes_recv: m.bytes_recv,
        packets_sent: m.packets_sent,
        packets_recv: m.packets_recv,
        retransmits: m.retransmits as u64,
        duration_ns: m.duration_ns(),
    }
}

/// One collection cycle over a snapshot of the table: a sample per entry,
/// in the order of the snapshot. The number of active connections is the
/// length of the result.
pub fn connection_samples(entries: &Vec<(ConnKey, ConnMetrics)>) -> (r: Vec<ConnectionSample>)
    ensures
        r@.len() == entries@.len(),
        forall|i: int|
            0 <= i < r@.len() ==> is_sample_of(#[trigger] r@[i], entries@[i].0, entries@[i].1),
{
    let mut out: Vec<ConnectionSample> = Vec::new();
    let mut i: usize = 0;
    while i < entries.len()
        invariant
            i <= entries@.len(),
            out@.len() == i,
            forall|j: int|
                0 <= j < i ==> is_sample_of(#[trigger] out@[j], entries@[j].0, entries@[j].1),
        decreases entries@.len() - i,
    {
        let (key, m) = entries[i];
        out.push(connection_sample(&key, &m));
        i = i + 1;
    }
    out
}

/// What the export endpoint serves for a request path.
#[derive(Clone, Copy, Debug, PartialEq, Eq, Structural)]
pub enum Route {
    /// `/metrics`: the encoded metric snapshot.
    Metrics,
    /// `/health`: the liveness token.
    Health,
    /// Anything else.
    NotFound,
}

/// Body of a liveness response.
pub const HEALTH_BODY: &'static str = "OK";

/// Body of a response to an unknown path.
pub const NOT_FOUND_BODY: &'static str = "Not Found";

/// The route of a request path.
pub open spec fn spec_route(path: Seq<char>) -> Route {
    if path == "/metrics"@ {
        Route::Metrics
    } else if path == "/health"@ {
        Route::Health
    } else {
        Route::NotFound
    }
}

/// Routes a request path: `/metrics`, `/health`, or not found.
pub fn route(path: &str) -> (r: Route)
    ensures
        r == spec_route(path@),
{
    if str_equal(path, "/metrics") {
        Route::Metrics
    } else if str_equal(path, "/health") {
        Route::Health
    } else {
        Route::NotFound
    }
}

impl Route {
    /// HTTP status of a response on this route.
    pub fn status(&self) -> (r: u16)
        ensures
            *self == Route::NotFound ==> r == 404,
            *self != Route::NotFound ==> r == 200,
    {
        match self {
            Route::NotFound => 404,
            _ => 200,
        }
    }
}

} // verus!
