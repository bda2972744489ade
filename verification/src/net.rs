//! Socket addresses as the configuration and the cluster state hold them.
//!
//! An address is a plain value: the IP address (four octets, or eight
//! 16-bit segments), a port and, for IPv6, a scope. The text forms are
//! `std`'s: `a.b.c.d:port` and `[v6]:port` (or `[v6%scope]:port`), read with
//! the same grammar and written in the same compressed form.

use vstd::prelude::*;
use vstd::string::StringSliceAdditionalSpecFns;

use crate::text::{
    all_digit_bytes, decimal_string, decimal_text, digits_value, hex_string, hex_text, read_number,
};

verus! {

/// An IP address.
#[derive(Debug, Clone, Copy, PartialEq, Eq, Hash, Structural)]
pub enum IpAddress {
    V4(u8, u8, u8, u8),
    V6(u16, u16, u16, u16, u16, u16, u16, u16),
}

/// An IP address and a port; an IPv6 address may carry the scope of a
/// link-local address (0 when it has none, and always for IPv4).
#[derive(Debug, Clone, Copy, PartialEq, Eq, Hash, Structural)]
pub struct SocketAddress {
    pub ip: IpAddress,
    pub port: u16,
    pub scope_id: u32,
}

impl SocketAddress {
    /// The IPv4 address `a.b.c.d` with a port.
    pub fn v4(a: u8, b: u8, c: u8, d: u8, port: u16) -> (r: SocketAddress)
        ensures
            r == (SocketAddress { ip: IpAddress::V4(a, b, c, d), port, scope_id: 0 }),
    {
        SocketAddress { ip: IpAddress::V4(a, b, c, d), port, scope_id: 0 }
    }

    /// The port.
    pub fn port(&self) -> (r: u16)
        ensures
            r == self.port,
    {
        self.port
    }
}

// ---------------------------------------------------------------------------
// Reading `a.b.c.d:port`
// ---------------------------------------------------------------------------

/// `i` is the first position of byte `c` in `t`.
pub open spec fn first_at(t: Seq<u8>, c: u8, i: int) -> bool {
    &&& 0 <= i < t.len()
    &&& t[i] == c
    &&& forall|j: int| 0 <= j < i ==> t[j] != c
}

/// The parts of `t` before and after the first `c`, if `c` occurs.
pub open spec fn split_first(t: Seq<u8>, c: u8) -> Option<(Seq<u8>, Seq<u8>)> {
    if exists|i: int| first_at(t, c, i) {
        let i = choose|i: int| first_at(t, c, i);
        Some((t.subrange(0, i), t.subrange(i + 1, t.len() as int)))
    } else {
        None
    }
}

/// An octet: one to three digits, no leading zero, at most 255.
pub open spec fn octet_of(t: Seq<u8>) -> Option<u8> {
    if 1 <= t.len() <= 3 && all_digit_bytes(t) && (t.len() == 1 || t[0] != 48) && digits_value(t)
        < 256 {
        Some(digits_value(t) as u8)
    } else {
        None
    }
}

/// A port: one or more digits, at most 65535 (leading zeros allowed).
pub open spec fn port_of(t: Seq<u8>) -> Option<u16> {
    if 1 <= t.len() && all_digit_bytes(t) && digits_value(t) < 65536 {
        Some(digits_value(t) as u16)
    } else {
        None
    }
}

/// Four octets separated by dots.
pub open spec fn ipv4_of(t: Seq<u8>) -> Option<IpAddress> {
    match split_first(t, 46) {
        Some((p1, r1)) => match split_first(r1, 46) {
            Some((p2, r2)) => match split_first(r2, 46) {
                Some((p3, p4)) => match (octet_of(p1), octet_of(p2), octet_of(p3), octet_of(p4)) {
                    (Some(a), Some(b), Some(c), Some(d)) => Some(IpAddress::V4(a, b, c, d)),
                    _ => None,
                },
                None => None,
            },
            None => None,
        },
        None => None,
    }
}

/// `a.b.c.d:port`.
pub open spec fn socket4_of(t: Seq<u8>) -> Option<SocketAddress> {
    match split_first(t, 58) {
        Some((host, port)) => match (ipv4_of(host), port_of(port)) {
            (Some(ip), Some(p)) => Some(SocketAddress { ip, port: p, scope_id: 0 }),
            _ => None,
        },
        None => None,
    }
}

/// A socket address as `std` reads one: `a.b.c.d:port`, or
/// `[v6]:port` with an optional `%scope` after the address.
pub open spec fn socket_of(t: Seq<u8>) -> Option<SocketAddress> {
    if t.len() > 0 && t[0] == 91 {
        socket6_of(t)
    } else {
        socket4_of(t)
    }
}

proof fn lemma_first_at_unique(t: Seq<u8>, c: u8, i: int, k: int)
    requires
        first_at(t, c, i),
        first_at(t, c, k),
    ensures
        i == k,
{
    if i < k {
        assert(t[i] != c);
    } else if k < i {
        assert(t[k] != c);
    }
}

/// Finds the first `c` in `b[lo..hi]`, as a position in `b`.
fn find_byte(b: &[u8], lo: usize, hi: usize, c: u8) -> (r: Option<usize>)
    requires
        lo <= hi <= b@.len(),
    ensures
        match r {
            Some(i) => lo <= i < hi && first_at(b@.subrange(lo as int, hi as int), c, i - lo),
            None => !exists|i: int| first_at(b@.subrange(lo as int, hi as int), c, i),
        },
{
    let ghost t = b@.subrange(lo as int, hi as int);
    let mut i = lo;
    while i < hi
        invariant
            lo <= i <= hi <= b@.len(),
            t == b@.subrange(lo as int, hi as int),
            forall|j: int| 0 <= j < i - lo ==> t[j] != c,
        decreases hi - i,
    {
        if b[i] == c {
            assert(first_at(t, c, i - lo));
            return Some(i);
        }
        i = i + 1;
    }
    assert forall|k: int| !first_at(t, c, k) by {
        if first_at(t, c, k) {
            assert(t[k] != c);
        }
    }
    None
}

/// The parts before and after position `i` of a split.
proof fn lemma_split_at(t: Seq<u8>, c: u8, i: int)
    requires
        first_at(t, c, i),
    ensures
        split_first(t, c) == Some((t.subrange(0, i), t.subrange(i + 1, t.len() as int))),
{
    let k = choose|k: int| first_at(t, c, k);
    lemma_first_at_unique(t, c, i, k);
}

/// Reads an octet from `b[lo..hi]`.
fn read_octet(b: &[u8], lo: usize, hi: usize) -> (r: Option<u8>)
    requires
        lo <= hi <= b@.len(),
    ensures
        r == octet_of(b@.subrange(lo as int, hi as int)),
{
    let ghost t = b@.subrange(lo as int, hi as int);
    if hi - lo < 1 || hi - lo > 3 {
        return None;
    }
    if hi - lo > 1 && b[lo] == 48 {
        return None;
    }
    match read_number(b, lo, hi, 255u128) {
        Some(v) => Some(v as u8),
        None => None,
    }
}

/// Reads a port from `b[lo..hi]`.
fn read_port(b: &[u8], lo: usize, hi: usize) -> (r: Option<u16>)
    requires
        lo <= hi <= b@.len(),
    ensures
        r == port_of(b@.subrange(lo as int, hi as int)),
{
    if hi - lo < 1 {
        return None;
    }
    match read_number(b, lo, hi, 65535u128) {
        Some(v) => Some(v as u16),
        None => None,
    }
}

/// Reads four dotted octets from `b[lo..hi]`.
fn read_ipv4(b: &[u8], lo: usize, hi: usize) -> (r: Option<IpAddress>)
    requires
        lo <= hi <= b@.len(),
    ensures
        r == ipv4_of(b@.subrange(lo as int, hi as int)),
{
    let ghost t = b@.subrange(lo as int, hi as int);
    let d1 = match find_byte(b, lo, hi, 46) {
        Some(i) => i,
        None => {
            return None;
        },
    };
    proof {
        lemma_split_at(t, 46, d1 - lo);
        assert(t.subrange(0, d1 - lo) =~= b@.subrange(lo as int, d1 as int));
        assert(t.subrange(d1 - lo + 1, t.len() as int) =~= b@.subrange(d1 + 1, hi as int));
    }
    let ghost r1 = b@.subrange(d1 + 1, hi as int);
    let d2 = match find_byte(b, d1 + 1, hi, 46) {
        Some(i) => i,
        None => {
            return None;
        },
    };
    proof {
        lemma_split_at(r1, 46, d2 - d1 - 1);
        assert(r1.subrange(0, d2 - d1 - 1) =~= b@.subrange(d1 + 1, d2 as int));
        assert(r1.subrange(d2 - d1, r1.len() as int) =~= b@.subrange(d2 + 1, hi as int));
    }
    let ghost r2 = b@.subrange(d2 + 1, hi as int);
    let d3 = match find_byte(b, d2 + 1, hi, 46) {
        Some(i) => i,
        None => {
            return None;
        },
    };
    proof {
        lemma_split_at(r2, 46, d3 - d2 - 1);
        assert(r2.subrange(0, d3 - d2 - 1) =~= b@.subrange(d2 + 1, d3 as int));
        assert(r2.subrange(d3 - d2, r2.len() as int) =~= b@.subrange(d3 + 1, hi as int));
    }
    let a = read_octet(b, lo, d1);
    let bb = read_octet(b, d1 + 1, d2);
    let c = read_octet(b, d2 + 1, d3);
    let d = read_octet(b, d3 + 1, hi);
    match (a, bb, c, d) {
        (Some(a), Some(bb), Some(c), Some(d)) => Some(IpAddress::V4(a, bb, c, d)),
        _ => None,
    }
}

/// Reads `a.b.c.d:port`, as `std` reads an IPv4 socket address: each octet
/// has one to three digits and no leading zero, the port any number of
/// digits up to 65535, and nothing else may stand in the text.
fn read_socket4(b: &[u8]) -> (r: Option<SocketAddress>)
    ensures
        r == socket4_of(b@),
{
    let ghost t = b@;
    assert(b@.subrange(0, b@.len() as int) =~= t);
    let c = match find_byte(b, 0, b.len(), 58) {
        Some(i) => i,
        None => {
            return None;
        },
    };
    proof {
        lemma_split_at(t, 58, c as int);
    }
    let ip = read_ipv4(b, 0, c);
    let port = read_port(b, c + 1, b.len());
    match (ip, port) {
        (Some(ip), Some(port)) => Some(SocketAddress { ip, port, scope_id: 0 }),
        _ => None,
    }
}

// ---------------------------------------------------------------------------
// Reading `[v6]:port`
// ---------------------------------------------------------------------------

/// A hexadecimal digit, in either case.
pub open spec fn is_hex_byte(b: u8) -> bool {
    (48 <= b <= 57) || (65 <= b <= 70) || (97 <= b <= 102)
}

/// The value of a hexadecimal digit.
pub open spec fn hex_byte_value(b: u8) -> nat {
    if b <= 57 {
        (b - 48) as nat
    } else if b <= 70 {
        (b - 55) as nat
    } else {
        (b - 87) as nat
    }
}

/// The number that a run of hexadecimal digits spells.
pub open spec fn hex_value(t: Seq<u8>) -> nat
    decreases t.len(),
{
    if t.len() == 0 {
        0
    } else {
        hex_value(t.drop_last()) * 16 + hex_byte_value(t.last())
    }
}

/// A group of an IPv6 address: one to four hexadecimal digits.
pub open spec fn hex_group_of(t: Seq<u8>) -> Option<u16> {
    if 1 <= t.len() <= 4 && forall|i: int| 0 <= i < t.len() ==> is_hex_byte(#[trigger] t[i]) {
        Some(hex_value(t) as u16)
    } else {
        None
    }
}

/// The two segments that an IPv4 address fills in an IPv6 address.
pub open spec fn v4_segments(ip: IpAddress) -> Seq<u16> {
    match ip {
        IpAddress::V4(a, b, c, d) => seq![
            (a as int * 256 + b as int) as u16,
            (c as int * 256 + d as int) as u16,
        ],
        _ => Seq::empty(),
    }
}

/// Colon-separated groups; the empty text has none. With `ipv4_last`, the
/// last part may instead be an IPv4 address, which fills two segments.
pub open spec fn groups_of(t: Seq<u8>, ipv4_last: bool) -> Option<Seq<u16>>
    decreases t.len(),
{
    if t.len() == 0 {
        Some(Seq::empty())
    } else if exists|i: int| first_at(t, 58, i) {
        let i = choose|i: int| first_at(t, 58, i);
        let rest = t.subrange(i + 1, t.len() as int);
        if rest.len() == 0 {
            None
        } else {
            match (hex_group_of(t.subrange(0, i)), groups_of(rest, ipv4_last)) {
                (Some(g), Some(gs)) => Some(seq![g] + gs),
                _ => None,
            }
        }
    } else {
        match hex_group_of(t) {
            Some(g) => Some(seq![g]),
            None => if ipv4_last {
                match ipv4_of(t) {
                    Some(ip) => Some(v4_segments(ip)),
                    None => None,
                }
            } else {
                None
            },
        }
    }
}

/// `i` is the first position of `::` in `t`.
pub open spec fn double_colon_at(t: Seq<u8>, i: int) -> bool {
    &&& 0 <= i && i + 1 < t.len()
    &&& t[i] == 58 && t[i + 1] == 58
    &&& forall|j: int| 0 <= j < i ==> !(t[j] == 58 && #[trigger] t[j + 1] == 58)
}

/// `n` zero segments.
pub open spec fn zero_segments(n: int) -> Seq<u16> {
    Seq::new(n as nat, |k: int| 0u16)
}

/// The eight segments of an IPv6 address: eight groups, the last two of
/// which may be an IPv4 address; or groups before and after one `::`, which
/// stands for at least one zero segment, with an IPv4 address allowed only
/// at the very end.
pub open spec fn ipv6_segments(t: Seq<u8>) -> Option<Seq<u16>> {
    if exists|i: int| double_colon_at(t, i) {
        let i = choose|i: int| double_colon_at(t, i);
        match (groups_of(t.subrange(0, i), false), groups_of(t.subrange(i + 2, t.len() as int), true)) {
            (Some(h), Some(l)) => if h.len() + l.len() <= 7 {
                Some(h + zero_segments(8 - h.len() - l.len()) + l)
            } else {
                None
            },
            _ => None,
        }
    } else {
        match groups_of(t, true) {
            Some(l) => if l.len() == 8 {
                Some(l)
            } else {
                None
            },
            None => None,
        }
    }
}

/// A scope: one or more digits, below 2^32.
pub open spec fn scope_of(t: Seq<u8>) -> Option<u32> {
    if 1 <= t.len() && all_digit_bytes(t) && digits_value(t) <= u32::MAX {
        Some(digits_value(t) as u32)
    } else {
        None
    }
}

/// The address and the scope inside the brackets: `v6` or `v6%scope`.
pub open spec fn scoped_ipv6_of(t: Seq<u8>) -> Option<(Seq<u16>, u32)> {
    let (a, scope) = match split_first(t, 37) {
        Some((a, sc)) => (a, scope_of(sc)),
        None => (t, Some(0u32)),
    };
    match (ipv6_segments(a), scope) {
        (Some(g), Some(sc)) => Some((g, sc)),
        _ => None,
    }
}

/// `[v6]:port` or `[v6%scope]:port`.
pub open spec fn socket6_of(t: Seq<u8>) -> Option<SocketAddress> {
    if t.len() == 0 || t[0] != 91 {
        None
    } else {
        match split_first(t.subrange(1, t.len() as int), 93) {
            Some((inner, after)) => if after.len() >= 1 && after[0] == 58 {
                match (scoped_ipv6_of(inner), port_of(after.subrange(1, after.len() as int))) {
                    (Some((g, sc)), Some(port)) => Some(
                        SocketAddress {
                            ip: IpAddress::V6(g[0], g[1], g[2], g[3], g[4], g[5], g[6], g[7]),
                            port,
                            scope_id: sc,
                        },
                    ),
                    _ => None,
                }
            } else {
                None
            },
            None => None,
        }
    }
}

/// Reads one group from `b[lo..hi]`.
fn read_hex_group(b: &[u8], lo: usize, hi: usize) -> (r: Option<u16>)
    requires
        lo <= hi <= b@.len(),
    ensures
        r == hex_group_of(b@.subrange(lo as int, hi as int)),
{
    let ghost t = b@.subrange(lo as int, hi as int);
    if hi - lo < 1 || hi - lo > 4 {
        return None;
    }
    let mut v: u32 = 0;
    let mut i = lo;
    while i < hi
        invariant
            lo <= i <= hi <= b@.len(),
            hi - lo <= 4,
            t == b@.subrange(lo as int, hi as int),
            forall|k: int| 0 <= k < i - lo ==> is_hex_byte(#[trigger] t[k]),
            v == hex_value(t.take(i - lo)),
            i - lo == 0 ==> v == 0,
            i - lo == 1 ==> v < 16,
            i - lo == 2 ==> v < 256,
            i - lo == 3 ==> v < 4096,
            i - lo == 4 ==> v < 65536,
        decreases hi - i,
    {
        let c = b[i];
        let d: u32 = if 48 <= c && c <= 57 {
            (c - 48) as u32
        } else if 65 <= c && c <= 70 {
            (c - 55) as u32
        } else if 97 <= c && c <= 102 {
            (c - 87) as u32
        } else {
            assert(!is_hex_byte(t[i - lo]));
            return None;
        };
        proof {
            assert(t.take(i - lo + 1).drop_last() =~= t.take(i - lo));
            assert(t.take(i - lo + 1).last() == c);
        }
        v = v * 16 + d;
        i = i + 1;
    }
    assert(t.take(hi - lo) =~= t);
    Some(v as u16)
}

/// Finds the first `::` in `b[lo..hi]`, as a position in `b`.
fn find_double_colon(b: &[u8], lo: usize, hi: usize) -> (r: Option<usize>)
    requires
        lo <= hi <= b@.len(),
    ensures
        match r {
            Some(i) => lo <= i < hi && double_colon_at(b@.subrange(lo as int, hi as int), i - lo),
            None => !exists|i: int| double_colon_at(b@.subrange(lo as int, hi as int), i),
        },
{
    let ghost t = b@.subrange(lo as int, hi as int);
    let mut i = lo;
    while hi - i >= 2
        invariant
            lo <= i <= hi <= b@.len(),
            t == b@.subrange(lo as int, hi as int),
            forall|j: int| 0 <= j < i - lo ==> !(t[j] == 58 && #[trigger] t[j + 1] == 58),
        decreases hi - i,
    {
        if b[i] == 58 && b[i + 1] == 58 {
            assert(double_colon_at(t, i - lo));
            return Some(i);
        }
        i = i + 1;
    }
    assert forall|k: int| !double_colon_at(t, k) by {
        if double_colon_at(t, k) {
            assert(k < i - lo);
            assert(!(t[k] == 58 && t[k + 1] == 58));
        }
    }
    None
}

/// Reads colon-separated groups from `b[lo..hi]` (see `groups_of`).
fn read_groups(b: &[u8], lo: usize, hi: usize, ipv4_last: bool) -> (r: Option<Vec<u16>>)
    requires
        lo <= hi <= b@.len(),
    ensures
        match r {
            Some(v) => groups_of(b@.subrange(lo as int, hi as int), ipv4_last) == Some(v@),
            None => groups_of(b@.subrange(lo as int, hi as int), ipv4_last) is None,
        },
    decreases hi - lo,
{
    let ghost t = b@.subrange(lo as int, hi as int);
    if lo == hi {
        return Some(Vec::new());
    }
    match find_byte(b, lo, hi, 58) {
        Some(c) => {
            proof {
                lemma_split_at(t, 58, c - lo);
                let i = choose|i: int| first_at(t, 58, i);
                lemma_first_at_unique(t, 58, i, c - lo);
                assert(t.subrange(0, c - lo) =~= b@.subrange(lo as int, c as int));
                assert(t.subrange(c - lo + 1, t.len() as int) =~= b@.subrange(c + 1, hi as int));
            }
            if c + 1 == hi {
                return None;
            }
            let g = match read_hex_group(b, lo, c) {
                Some(g) => g,
                None => {
                    return None;
                },
            };
            match read_groups(b, c + 1, hi, ipv4_last) {
                Some(rest) => {
                    let mut out: Vec<u16> = Vec::new();
                    out.push(g);
                    let mut k: usize = 0;
                    while k < rest.len()
                        invariant
                            k <= rest@.len(),
                            out@ == seq![g] + rest@.take(k as int),
                        decreases rest@.len() - k,
                    {
                        out.push(rest[k]);
                        proof {
                            assert(rest@.take(k + 1) =~= rest@.take(k as int).push(rest@[k as int]));
                        }
                        k = k + 1;
                    }
                    assert(rest@.take(rest@.len() as int) =~= rest@);
                    Some(out)
                },
                None => None,
            }
        },
        None => {
            match read_hex_group(b, lo, hi) {
                Some(g) => {
                    let mut out: Vec<u16> = Vec::new();
                    out.push(g);
                    assert(out@ =~= seq![g]);
                    Some(out)
                },
                None => {
                    if !ipv4_last {
                        return None;
                    }
                    match read_ipv4(b, lo, hi) {
                        Some(IpAddress::V4(a, bb, c, d)) => {
                            let mut out: Vec<u16> = Vec::new();
                            out.push((a as u16) * 256 + bb as u16);
                            out.push((c as u16) * 256 + d as u16);
                            assert(out@ =~= v4_segments(IpAddress::V4(a, bb, c, d)));
                            Some(out)
                        },
                        _ => None,
                    }
                },
            }
        },
    }
}

/// Reads the eight segments of an IPv6 address from `b[lo..hi]`.
fn read_ipv6(b: &[u8], lo: usize, hi: usize) -> (r: Option<Vec<u16>>)
    requires
        lo <= hi <= b@.len(),
    ensures
        match r {
            Some(v) => ipv6_segments(b@.subrange(lo as int, hi as int)) == Some(v@) && v@.len() == 8,
            None => ipv6_segments(b@.subrange(lo as int, hi as int)) is None,
        },
{
    let ghost t = b@.subrange(lo as int, hi as int);
    match find_double_colon(b, lo, hi) {
        Some(i) => {
            proof {
                let k = choose|k: int| double_colon_at(t, k);
                if k < i - lo {
                    assert(!(t[k] == 58 && t[k + 1] == 58));
                } else if k > i - lo {
                    assert(!(t[i - lo] == 58 && t[i - lo + 1] == 58));
                }
                assert(t.subrange(0, i - lo) =~= b@.subrange(lo as int, i as int));
                assert(t.subrange(i - lo + 2, t.len() as int) =~= b@.subrange(i + 2, hi as int));
            }
            let head = match read_groups(b, lo, i, false) {
                Some(h) => h,
                None => {
                    return None;
                },
            };
            let tail = match read_groups(b, i + 2, hi, true) {
                Some(l) => l,
                None => {
                    return None;
                },
            };
            if head.len() > 7 || tail.len() > 7 - head.len() {
                return None;
            }
            let zeros = 8 - head.len() - tail.len();
            let mut out: Vec<u16> = Vec::new();
            let mut k: usize = 0;
            while k < head.len()
                invariant
                    k <= head@.len(),
                    out@ == head@.take(k as int),
                decreases head@.len() - k,
            {
                out.push(head[k]);
                proof {
                    assert(head@.take(k + 1) =~= head@.take(k as int).push(head@[k as int]));
                }
                k = k + 1;
            }
            assert(head@.take(head@.len() as int) =~= head@);
            let mut z: usize = 0;
            while z < zeros
                invariant
                    z <= zeros,
                    out@ == head@ + zero_segments(z as int),
                decreases zeros - z,
            {
                out.push(0u16);
                proof {
                    assert(zero_segments(z + 1) =~= zero_segments(z as int).push(0u16));
                }
                z = z + 1;
            }
            let mut k: usize = 0;
            while k < tail.len()
                invariant
                    k <= tail@.len(),
                    out@ == head@ + zero_segments(zeros as int) + tail@.take(k as int),
                decreases tail@.len() - k,
            {
                out.push(tail[k]);
                proof {
                    assert(tail@.take(k + 1) =~= tail@.take(k as int).push(tail@[k as int]));
                }
                k = k + 1;
            }
            assert(tail@.take(tail@.len() as int) =~= tail@);
            Some(out)
        },
        None => {
            match read_groups(b, lo, hi, true) {
                Some(l) => if l.len() == 8 {
                    Some(l)
                } else {
                    None
                },
                None => None,
            }
        },
    }
}

/// Reads `[v6]:port` or `[v6%scope]:port`, where `b[0]` is `[`.
fn read_socket6(b: &[u8]) -> (r: Option<SocketAddress>)
    requires
        b@.len() > 0,
        b@[0] == 91,
    ensures
        r == socket6_of(b@),
{
    let ghost t = b@;
    let ghost rest = t.subrange(1, t.len() as int);
    assert(b@.subrange(1, b@.len() as int) =~= rest);
    let close = match find_byte(b, 1, b.len(), 93) {
        Some(i) => i,
        None => {
            return None;
        },
    };
    proof {
        lemma_split_at(rest, 93, close - 1);
        assert(rest.subrange(0, close - 1) =~= b@.subrange(1, close as int));
        assert(rest.subrange(close as int, rest.len() as int) =~= b@.subrange(close + 1, b@.len() as int));
    }
    let ghost inner = b@.subrange(1, close as int);
    let ghost after = b@.subrange(close + 1, b@.len() as int);
    if close + 1 >= b.len() || b[close + 1] != 58 {
        return None;
    }
    proof {
        assert(after.subrange(1, after.len() as int) =~= b@.subrange(close + 2, b@.len() as int));
    }
    let port = match read_port(b, close + 2, b.len()) {
        Some(p) => p,
        None => {
            return None;
        },
    };
    let (addr_end, scope) = match find_byte(b, 1, close, 37) {
        Some(pct) => {
            proof {
                lemma_split_at(inner, 37, pct - 1);
                assert(inner.subrange(0, pct - 1) =~= b@.subrange(1, pct as int));
                assert(inner.subrange(pct as int, inner.len() as int) =~= b@.subrange(pct + 1, close as int));
            }
            let sc = if pct + 1 < close {
                match read_number(b, pct + 1, close, 4294967295u128) {
                    Some(v) => Some(v as u32),
                    None => None,
                }
            } else {
                None
            };
            (pct, sc)
        },
        None => (close, Some(0u32)),
    };
    let segs = match read_ipv6(b, 1, addr_end) {
        Some(s) => s,
        None => {
            return None;
        },
    };
    match scope {
        Some(sc) => Some(
            SocketAddress {
                ip: IpAddress::V6(segs[0], segs[1], segs[2], segs[3], segs[4], segs[5], segs[6], segs[7]),
                port,
                scope_id: sc,
            },
        ),
        None => None,
    }
}

/// Reads a socket address as `std` does (see `socket_of`).
pub fn parse_socket_address(s: &str) -> (r: Option<SocketAddress>)
    ensures
        r == socket_of(s.spec_bytes()),
{
    let b = s.as_bytes();
    if b.len() > 0 && b[0] == 91 {
        read_socket6(b)
    } else {
        read_socket4(b)
    }
}

// ---------------------------------------------------------------------------
// Writing addresses
// ---------------------------------------------------------------------------

/// `a.b.c.d`.
pub open spec fn ipv4_text(a: u8, b: u8, c: u8, d: u8) -> Seq<char> {
    decimal_text(a as nat) + "."@ + decimal_text(b as nat) + "."@ + decimal_text(c as nat) + "."@
        + decimal_text(d as nat)
}

/// The segments `s[lo..hi]` in hexadecimal, joined by colons.
pub open spec fn segments_text(s: Seq<u16>, lo: int, hi: int) -> Seq<char>
    decreases hi - lo,
{
    if hi <= lo {
        Seq::empty()
    } else if hi - lo == 1 {
        hex_text(s[lo] as nat)
    } else {
        segments_text(s, lo, hi - 1) + ":"@ + hex_text(s[hi - 1] as nat)
    }
}

/// Length of the run of zero segments that ends just before `i`.
pub open spec fn zero_run_before(s: Seq<u16>, i: int) -> nat
    decreases i,
{
    if i <= 0 || s[i - 1] != 0 {
        0
    } else {
        zero_run_before(s, i - 1) + 1
    }
}

/// The first longest run of zero segments among the first `i`:
/// its start and its length.
pub open spec fn longest_zero_run(s: Seq<u16>, i: int) -> (int, nat)
    decreases i,
{
    if i <= 0 {
        (0, 0)
    } else {
        let best = longest_zero_run(s, i - 1);
        let cur = zero_run_before(s, i);
        if cur > best.1 {
            (i - cur, cur)
        } else {
            best
        }
    }
}

/// An IPv6 address as `std` writes it: an IPv4-mapped address as
/// `::ffff:a.b.c.d`; otherwise the segments in hexadecimal, with the first
/// longest run of two or more zero segments written as `::`.
pub open spec fn ipv6_text(s: Seq<u16>) -> Seq<char> {
    if s[0] == 0 && s[1] == 0 && s[2] == 0 && s[3] == 0 && s[4] == 0 && s[5] == 0xffff {
        "::ffff:"@ + ipv4_text(
            (s[6] / 256) as u8,
            (s[6] % 256) as u8,
            (s[7] / 256) as u8,
            (s[7] % 256) as u8,
        )
    } else {
        let z = longest_zero_run(s, 8);
        if z.1 > 1 {
            segments_text(s, 0, z.0) + "::"@ + segments_text(s, z.0 + z.1, 8)
        } else {
            segments_text(s, 0, 8)
        }
    }
}

/// An IP address as `std` writes it.
pub open spec fn ip_text(ip: IpAddress) -> Seq<char> {
    match ip {
        IpAddress::V4(a, b, c, d) => ipv4_text(a, b, c, d),
        IpAddress::V6(a, b, c, d, e, f, g, h) => ipv6_text(seq![a, b, c, d, e, f, g, h]),
    }
}

/// A socket address as `std` writes it: `a.b.c.d:port`, `[v6]:port`, or
/// `[v6%scope]:port` when the address has a scope.
pub open spec fn socket_text(a: SocketAddress) -> Seq<char> {
    match a.ip {
        IpAddress::V4(..) => ip_text(a.ip) + ":"@ + decimal_text(a.port as nat),
        IpAddress::V6(..) => if a.scope_id == 0 {
            "["@ + ip_text(a.ip) + "]:"@ + decimal_text(a.port as nat)
        } else {
            "["@ + ip_text(a.ip) + "%"@ + decimal_text(a.scope_id as nat) + "]:"@ + decimal_text(
                a.port as nat,
            )
        },
    }
}

fn ipv4_string(a: u8, b: u8, c: u8, d: u8) -> (r: String)
    ensures
        r@ == ipv4_text(a, b, c, d),
{
    let mut s = decimal_string(a as u64);
    s.append(".");
    s.append(decimal_string(b as u64).as_str());
    s.append(".");
    s.append(decimal_string(c as u64).as_str());
    s.append(".");
    s.append(decimal_string(d as u64).as_str());
    s
}

fn segments_string(s: &[u16], lo: usize, hi: usize) -> (r: String)
    requires
        lo <= hi <= 8,
        s@.len() == 8,
    ensures
        r@ == segments_text(s@, lo as int, hi as int),
{
    let mut out = String::new();
    let mut i = lo;
    while i < hi
        invariant
            lo <= i <= hi <= 8,
            s@.len() == 8,
            out@ == segments_text(s@, lo as int, i as int),
        decreases hi - i,
    {
        if i > lo {
            out.append(":");
        }
        out.append(hex_string(s[i] as u64).as_str());
        i = i + 1;
    }
    out
}

fn longest_zero_run_exec(s: &[u16]) -> (r: (usize, usize))
    requires
        s@.len() == 8,
    ensures
        r.0 as int == longest_zero_run(s@, 8).0,
        r.1 as nat == longest_zero_run(s@, 8).1,
        longest_zero_run(s@, 8).0 + longest_zero_run(s@, 8).1 <= 8,
{
    let mut best_start: usize = 0;
    let mut best_len: usize = 0;
    let mut cur: usize = 0;
    let mut i: usize = 0;
    while i < 8
        invariant
            i <= 8,
            s@.len() == 8,
            cur as nat == zero_run_before(s@, i as int),
            cur <= i,
            best_start as int == longest_zero_run(s@, i as int).0,
            best_len as nat == longest_zero_run(s@, i as int).1,
            best_start + best_len <= i,
        decreases 8 - i,
    {
        if s[i] == 0 {
            cur = cur + 1;
        } else {
            cur = 0;
        }
        i = i + 1;
        if cur > best_len {
            best_start = i - cur;
            best_len = cur;
        }
    }
    (best_start, best_len)
}

fn ipv6_string(s: &[u16]) -> (r: String)
    requires
        s@.len() == 8,
    ensures
        r@ == ipv6_text(s@),
{
    if s[0] == 0 && s[1] == 0 && s[2] == 0 && s[3] == 0 && s[4] == 0 && s[5] == 0xffff {
        let mut out = String::from_str("::ffff:");
        let v4 = ipv4_string(
            (s[6] / 256) as u8,
            (s[6] % 256) as u8,
            (s[7] / 256) as u8,
            (s[7] % 256) as u8,
        );
        out.append(v4.as_str());
        out
    } else {
        let (start, len) = longest_zero_run_exec(s);
        if len > 1 {
            let mut out = segments_string(s, 0, start);
            out.append("::");
            out.append(segments_string(s, start + len, 8).as_str());
            out
        } else {
            segments_string(s, 0, 8)
        }
    }
}

/// Writes an IP address as `std` does.
pub fn ip_string(ip: &IpAddress) -> (r: String)
    ensures
        r@ == ip_text(*ip),
{
    match ip {
        IpAddress::V4(a, b, c, d) => ipv4_string(*a, *b, *c, *d),
        IpAddress::V6(a, b, c, d, e, f, g, h) => {
            let v: Vec<u16> = vec![*a, *b, *c, *d, *e, *f, *g, *h];
            assert(v@ =~= seq![*a, *b, *c, *d, *e, *f, *g, *h]);
            ipv6_string(v.as_slice())
        },
    }
}

impl SocketAddress {
    /// Writes the address as `std` does.
    pub fn to_string(&self) -> (r: String)
        ensures
            r@ == socket_text(*self),
    {
        match self.ip {
            IpAddress::V4(..) => {
                let mut s = ip_string(&self.ip);
                s.append(":");
                s.append(decimal_string(self.port as u64).as_str());
                s
            },
            IpAddress::V6(..) => {
                let mut s = String::from_str("[");
                s.append(ip_string(&self.ip).as_str());
                if self.scope_id != 0 {
                    s.append("%");
                    s.append(decimal_string(self.scope_id as u64).as_str());
                }
                s.append("]:");
                s.append(decimal_string(self.port as u64).as_str());
                s
            },
        }
    }
}

} // verus!
