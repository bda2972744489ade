//! The command line of the broker's tool: its arguments as plain values, and
//! the decisions the tool makes from them.

use std::path::PathBuf;
use vstd::prelude::*;

use crate::config::loader::CliOverrides;
use crate::protocol::types::RexCommand;
use crate::text::str_equals;

verus! {

/// The tool's arguments.
#[derive(Debug, Clone)]
pub struct Cli {
    /// A configuration file, overriding `REX_CONFIG` and the search.
    pub config: Option<PathBuf>,
    /// Print the merged configuration and exit.
    pub print_effective_config: bool,
    /// Print the default configuration and exit.
    pub print_default_config: bool,
    pub command: Option<Commands>,
}

/// The tool's commands.
#[derive(Debug, Clone)]
pub enum Commands {
    Server(ServerArgs),
    Recv(RecvArgs),
    Bench(BenchArgs),
}

/// Arguments of `server`; each one given overrides the configuration.
#[derive(Debug, Clone)]
pub struct ServerArgs {
    pub address: Option<String>,
    pub protocol: Option<String>,
    pub server_id: Option<String>,
    pub persist: Option<bool>,
    pub cluster: Option<bool>,
    pub cluster_addr: Option<String>,
    pub seeds: Option<String>,
}

/// Arguments of `recv`: a client that subscribes and prints or measures.
#[derive(Debug, Clone)]
pub struct RecvArgs {
    pub address: String,
    /// Titles separated by `;`.
    pub titles: String,
    pub protocol: String,
    /// Measure latency instead of printing what comes.
    pub bench: bool,
}

/// Arguments of `bench`: a client that sends without pause.
#[derive(Debug, Clone)]
pub struct BenchArgs {
    pub address: String,
    /// `title`, `group` or `cast`.
    pub typ: String,
    pub title: String,
    pub protocol: String,
    /// Payload length in bytes.
    pub len: usize,
    /// Pause between sends, in microseconds.
    pub interval: u128,
    /// Put a timestamp in each payload instead of a counter.
    pub bench: bool,
}

impl ServerArgs {
    /// The overrides that the arguments make: only the values given, and
    /// cluster mode only when asked for.
    pub fn overrides(&self) -> (r: CliOverrides)
        ensures
            r.config_path is None,
            r.server_id == self.server_id,
            r.persist == self.persist,
            r.cluster_enabled == (self.cluster == Some(true)),
            r.cluster_addr == self.cluster_addr,
            r.seeds == self.seeds,
            !r.admin_write,
    {
        CliOverrides {
            config_path: None,
            server_id: self.server_id.clone(),
            persist: self.persist,
            cluster_enabled: match self.cluster {
                Some(b) => b,
                None => false,
            },
            cluster_addr: self.cluster_addr.clone(),
            seeds: self.seeds.clone(),
            admin_write: false,
        }
    }
}

/// The command that a bench send type names.
pub open spec fn send_command_of(typ: Seq<char>) -> Option<RexCommand> {
    if typ == "title"@ {
        Some(RexCommand::Title)
    } else if typ == "group"@ {
        Some(RexCommand::Group)
    } else if typ == "cast"@ {
        Some(RexCommand::Cast)
    } else {
        None
    }
}

/// The command that a bench send type names: `title`, `group` or `cast`.
pub fn send_command(typ: &str) -> (r: Option<RexCommand>)
    ensures
        r == send_command_of(typ@),
{
    if str_equals(typ, "title") {
        Some(RexCommand::Title)
    } else if str_equals(typ, "group") {
        Some(RexCommand::Group)
    } else if str_equals(typ, "cast") {
        Some(RexCommand::Cast)
    } else {
        None
    }
}

/// Length of the timestamp at the front of a bench payload.
pub const TS_LEN: usize = 16;

/// The big-endian number in the first 16 bytes.
pub open spec fn be_u128(b: Seq<u8>) -> nat
    decreases b.len(),
{
    if b.len() == 0 {
        0
    } else {
        be_u128(b.drop_last()) * 256 + b.last() as nat
    }
}

/// The timestamp at the front of a bench payload: its first 16 bytes, big
/// endian; none when the payload is shorter.
pub fn timestamp(data: &[u8]) -> (r: Option<u128>)
    ensures
        data@.len() < 16 ==> r is None,
        data@.len() >= 16 ==> r == Some(be_u128(data@.take(16)) as u128),
        data@.len() >= 16 ==> be_u128(data@.take(16)) <= u128::MAX,
{
    if data.len() < TS_LEN {
        return None;
    }
    let mut v: u128 = 0;
    let mut i: usize = 0;
    while i < TS_LEN
        invariant
            i <= 16,
            data@.len() >= 16,
            v == be_u128(data@.take(i as int)),
            be_u128(data@.take(i as int)) < pow256(i as nat),
        decreases 16 - i,
    {
        proof {
            assert(data@.take(i + 1).drop_last() =~= data@.take(i as int));
            lemma_pow256_step(i as nat);
            let b = data@[i as int];
            assert(be_u128(data@.take(i + 1)) == v * 256 + b);
            assert(v * 256 + b < pow256((i + 1) as nat)) by (nonlinear_arith)
                requires
                    v < pow256(i as nat),
                    b < 256,
                    pow256((i + 1) as nat) == pow256(i as nat) * 256,
            ;
            lemma_pow256_bound(i as nat);
        }
        v = v * 256 + data[i] as u128;
        i = i + 1;
    }
    proof {
        reveal_with_fuel(pow256, 17);
        assert(pow256(16) == 0x1_0000_0000_0000_0000_0000_0000_0000_0000);
    }
    Some(v)
}

/// The 16 big-endian bytes of a timestamp, most significant first.
pub open spec fn be_bytes(x: u128) -> Seq<u8> {
    Seq::new(16, |i: int| ((x as nat / pow256((15 - i) as nat)) % 256) as u8)
}

/// The 16 bytes that put timestamp `t` at the front of a bench payload, most
/// significant first.
pub fn timestamp_bytes(t: u128) -> (r: Vec<u8>)
    ensures
        r@ == be_bytes(t),
{
    let mut out: Vec<u8> = Vec::new();
    let mut d: u128 = 0x0100_0000_0000_0000_0000_0000_0000_0000;
    let mut i: usize = 0;
    proof {
        reveal_with_fuel(pow256, 16);
        assert(pow256(15) == 0x0100_0000_0000_0000_0000_0000_0000_0000);
    }
    while i < TS_LEN
        invariant
            i <= 16,
            i < 16 ==> d as nat == pow256((15 - i) as nat),
            d > 0,
            out@ == be_bytes(t).take(i as int),
        decreases 16 - i,
    {
        let b = ((t / d) % 256) as u8;
        proof {
            assert(out@.push(b) =~= be_bytes(t).take(i + 1));
        }
        out.push(b);
        if i < 15 {
            proof {
                lemma_pow256_step((14 - i) as nat);
                let p = pow256((14 - i) as nat);
                assert(d as nat / 256 == p) by (nonlinear_arith)
                    requires
                        d as nat == p * 256,
                ;
                assert(p > 0) by {
                    lemma_pow256_positive((14 - i) as nat);
                }
            }
            d = d / 256;
        }
        i = i + 1;
    }
    proof {
        assert(be_bytes(t).take(16) =~= be_bytes(t));
    }
    out
}

/// A timestamp written with `timestamp_bytes` reads back: the big-endian
/// number of its 16 bytes is the timestamp, whatever follows them.
pub proof fn lemma_timestamp_roundtrip(x: u128, rest: Seq<u8>)
    ensures
        (be_bytes(x) + rest).take(16) == be_bytes(x),
        be_u128(be_bytes(x)) == x,
{
    assert((be_bytes(x) + rest).take(16) =~= be_bytes(x));
    lemma_be_prefix(x, 16);
    assert(be_bytes(x).take(16) =~= be_bytes(x));
    assert(pow256(0) == 1);
    assert(x as nat / 1 == x as nat);
}

/// The first `k` big-endian bytes of `x` read as `x` without its last
/// `16 - k` bytes.
proof fn lemma_be_prefix(x: u128, k: nat)
    requires
        k <= 16,
    ensures
        be_u128(be_bytes(x).take(k as int)) == x as nat / pow256((16 - k) as nat),
    decreases k,
{
    if k == 0 {
        assert(be_bytes(x).take(0) =~= Seq::<u8>::empty());
        reveal_with_fuel(pow256, 17);
        assert(pow256(16) == 0x1_0000_0000_0000_0000_0000_0000_0000_0000);
        assert(x as nat / pow256(16) == 0) by (nonlinear_arith)
            requires
                (x as nat) < pow256(16),
        ;
    } else {
        let j = (k - 1) as nat;
        lemma_be_prefix(x, j);
        assert(be_bytes(x).take(k as int).drop_last() =~= be_bytes(x).take(j as int));
        let d = pow256((15 - j) as nat);
        lemma_pow256_positive((15 - j) as nat);
        lemma_pow256_step((15 - j) as nat);
        assert(pow256((16 - j) as nat) == d * 256);
        let q = x as nat / d;
        vstd::arithmetic::div_mod::lemma_div_denominator(x as int, d as int, 256);
        vstd::arithmetic::div_mod::lemma_fundamental_div_mod(q as int, 256);
        assert(be_bytes(x).take(k as int).last() == (q % 256) as u8);
        assert(be_u128(be_bytes(x).take(k as int)) == (q / 256) * 256 + q % 256);
    }
}

proof fn lemma_pow256_positive(n: nat)
    ensures
        pow256(n) > 0,
    decreases n,
{
    if n > 0 {
        lemma_pow256_positive((n - 1) as nat);
    }
}

/// 256 to the `n`.
pub open spec fn pow256(n: nat) -> nat
    decreases n,
{
    if n == 0 {
        1
    } else {
        pow256((n - 1) as nat) * 256
    }
}

proof fn lemma_pow256_step(n: nat)
    ensures
        pow256(n + 1) == pow256(n) * 256,
{
}

/// 256 to the 15th times 256 fits in a `u128`.
proof fn lemma_pow256_bound(n: nat)
    requires
        n < 16,
    ensures
        pow256(n) * 256 <= u128::MAX + 1,
    decreases n,
{
    reveal_with_fuel(pow256, 17);
    if n > 0 {
        lemma_pow256_bound((n - 1) as nat);
        assert(pow256(n) * 256 <= pow256(15) * 256) by {
            lemma_pow256_monotone(n, 15);
        }
    }
    assert(pow256(16) == 0x1_0000_0000_0000_0000_0000_0000_0000_0000);
}

proof fn lemma_pow256_monotone(a: nat, b: nat)
    requires
        a <= b,
    ensures
        pow256(a) <= pow256(b),
    decreases b - a,
{
    if a < b {
        lemma_pow256_monotone(a, (b - 1) as nat);
    }
}

/// The latency of a bench message received at time `now`: now minus the
/// timestamp it carries, zero if the clock went back; none for another
/// command or a payload without a timestamp.
pub fn bench_latency(now: u128, command: RexCommand, data: &[u8]) -> (r: Option<u128>)
    ensures
        (command == RexCommand::Title || command == RexCommand::Group || command == RexCommand::Cast)
            && data@.len() >= 16 ==> r == Some(
            (if now >= be_u128(data@.take(16)) {
                now - be_u128(data@.take(16))
            } else {
                0
            }) as u128,
        ),
        !((command == RexCommand::Title || command == RexCommand::Group || command
            == RexCommand::Cast) && data@.len() >= 16) ==> r is None,
{
    if command == RexCommand::Title || command == RexCommand::Group || command == RexCommand::Cast {
        match timestamp(data) {
            Some(ts) => Some(now.saturating_sub(ts)),
            None => None,
        }
    } else {
        None
    }
}

/// The handler of the `recv` command.
#[derive(Debug, Clone, Copy)]
pub struct RcvClientHandler {
    /// Measure latency instead of printing what comes.
    pub bench: bool,
}

impl RcvClientHandler {
    pub fn new(bench: bool) -> (r: Self)
        ensures
            r.bench == bench,
    {
        RcvClientHandler { bench }
    }
}

} // verus!
