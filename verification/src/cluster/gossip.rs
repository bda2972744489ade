//! Gossip rounds: each round, this node pings a few other members.

use vstd::prelude::*;

use crate::text::str_equals;

verus! {

/// The pace and reach of gossip.
#[derive(Debug, Clone, Copy, PartialEq, Eq, Structural)]
pub struct GossipConfig {
    /// Time between rounds, in milliseconds.
    pub gossip_interval_ms: u64,
    /// Members pinged per round.
    pub fanout: usize,
    /// How long a probe waits, in milliseconds.
    pub probe_timeout_ms: u64,
    /// Missed probes before a member is suspected.
    pub max_suspects: usize,
}

impl Default for GossipConfig {
    fn default() -> (r: Self)
        ensures
            r == (GossipConfig {
                gossip_interval_ms: 1000,
                fanout: 3,
                probe_timeout_ms: 500,
                max_suspects: 3,
            }),
    {
        GossipConfig { gossip_interval_ms: 1000, fanout: 3, probe_timeout_ms: 500, max_suspects: 3 }
    }
}

/// The members other than `local`, in order.
pub open spec fn others(members: Seq<Seq<char>>, local: Seq<char>) -> Seq<Seq<char>> {
    members.filter(|m: Seq<char>| m != local)
}

/// The members pinged in a round: the first `fanout` members other than
/// this node, in the order given.
pub fn gossip_targets(members: &Vec<String>, local: &str, fanout: usize) -> (r: Vec<String>)
    ensures
        ({
            let o = others(members@.map_values(|s: String| s@), local@);
            r@.map_values(|s: String| s@) == o.take(if o.len() < fanout { o.len() as int } else { fanout as int })
        }),
{
    let ghost ms = members@.map_values(|s: String| s@);
    let mut out: Vec<String> = Vec::new();
    let mut i: usize = 0;
    proof {
        reveal(Seq::filter);
        assert(ms.take(0).filter(|m: Seq<char>| m != local@) =~= Seq::<Seq<char>>::empty());
    }
    while i < members.len() && out.len() < fanout
        invariant
            i <= members@.len(),
            ms == members@.map_values(|s: String| s@),
            out@.len() <= fanout,
            out@.map_values(|s: String| s@) == others(ms.take(i as int), local@),
        decreases members@.len() - i,
    {
        let ghost before = out@;
        proof {
            reveal(Seq::filter);
            assert(ms.take(i + 1).drop_last() =~= ms.take(i as int));
            assert(ms[i as int] == members@[i as int]@);
            assert(ms.take(i + 1).last() == ms[i as int]);
        }
        if !str_equals(members[i].as_str(), local) {
            out.push(members[i].clone());
            proof {
                assert(out@.map_values(|s: String| s@) =~= before.map_values(|s: String| s@).push(
                    members@[i as int]@,
                ));
            }
        }
        i = i + 1;
    }
    proof {
        let o = others(ms, local@);
        lemma_others_prefix(ms, local@, i as int);
        if out@.len() < fanout {
            assert(i == members@.len());
            assert(ms.take(i as int) =~= ms);
            assert(o.take(o.len() as int) =~= o);
        }
    }
    out
}

/// The members other than `local` among the first `i` are a prefix of
/// those among all.
proof fn lemma_others_prefix(ms: Seq<Seq<char>>, local: Seq<char>, i: int)
    requires
        0 <= i <= ms.len(),
    ensures
        others(ms, local).take(others(ms.take(i), local).len() as int) == others(ms.take(i), local),
        others(ms.take(i), local).len() <= others(ms, local).len(),
    decreases ms.len() - i,
{
    reveal(Seq::filter);
    if i < ms.len() {
        lemma_others_prefix(ms, local, i + 1);
        assert(ms.take(i + 1).drop_last() =~= ms.take(i));
        assert(ms.take(i + 1).last() == ms[i]);
        let a = others(ms.take(i), local);
        let b = others(ms.take(i + 1), local);
        if ms[i] != local {
            assert(b =~= a.push(ms[i]));
        } else {
            assert(b =~= a);
        }
        assert(b.take(a.len() as int) =~= a);
    } else {
        assert(ms.take(i) =~= ms);
        let o = others(ms, local);
        assert(o.take(o.len() as int) =~= o);
    }
}

/// Whether a member has been silent longer than `max_suspects` probe
/// timeouts, measured at time `now` (milliseconds).
pub fn silent_too_long(now: u64, last_heartbeat: u64, config: &GossipConfig) -> (r: bool)
    requires
        config.probe_timeout_ms * config.max_suspects <= u64::MAX,
    ensures
        r == ((if now >= last_heartbeat {
            now - last_heartbeat
        } else {
            0
        }) > config.probe_timeout_ms * config.max_suspects),
{
    let timeout = config.probe_timeout_ms * config.max_suspects as u64;
    let elapsed = if now >= last_heartbeat {
        now - last_heartbeat
    } else {
        0
    };
    elapsed > timeout
}

} // verus!
