//! How many nodes a walk around the ring collects: a full lap of a ring in
//! which every node owns a point collects every node, up to the number
//! asked for.
//!
//! The argument counts, for each hash value `t`, the owners of points with
//! hash `t` that are not collected yet, against the visits to `t` that the
//! walk has left. A visit to `t` collects one such owner when there is one,
//! and a full lap visits `t` once per point with hash `t`, which is at least
//! the number of its owners.

use vstd::prelude::*;

use crate::cluster::hash_ring::{
    first_unseen, has_point, hashes_of, lemma_distinct_members_bound, lemma_first_unseen_props,
    ring_shape, walk,
};

verus! {

broadcast use vstd::seq_lib::group_seq_properties;

/// The number of the `steps` positions from `pos` on, wrapping at the end,
/// whose value is `t`.
pub open spec fn lap_count(sorted: Seq<u64>, pos: int, steps: nat, t: u64) -> nat
    decreases steps,
{
    if steps == 0 || sorted.len() == 0 {
        0
    } else {
        (if sorted[pos] == t {
            1nat
        } else {
            0nat
        }) + lap_count(sorted, (pos + 1) % (sorted.len() as int), (steps - 1) as nat, t)
    }
}

/// The number of indices in `[a, b)` whose value is `t`.
pub open spec fn range_count(s: Seq<u64>, a: int, b: int, t: u64) -> nat
    decreases b - a,
{
    if a >= b {
        0
    } else {
        (if s[a] == t {
            1nat
        } else {
            0nat
        }) + range_count(s, a + 1, b, t)
    }
}

/// What the walk has collected after visiting a point with hash `t`.
pub open spec fn step_acc(ring: Seq<(u64, Seq<char>)>, t: u64, acc: Seq<Seq<char>>) -> Seq<Seq<char>> {
    match first_unseen(ring, t, acc, 0) {
        Some(node) => acc.push(node),
        None => acc,
    }
}

/// The owners of points with hash `t`, among the first `k` points, that are
/// not in `acc`.
pub open spec fn unseen_owners_in(
    ring: Seq<(u64, Seq<char>)>,
    k: int,
    t: u64,
    acc: Seq<Seq<char>>,
) -> Set<Seq<char>> {
    Set::new(
        |x: Seq<char>|
            !acc.contains(x) && exists|j: int| 0 <= j < k && ring[j].0 == t && ring[j].1 == x,
    )
}

/// The owners of points with hash `t` that are not in `acc`.
pub open spec fn unseen_owners(ring: Seq<(u64, Seq<char>)>, t: u64, acc: Seq<Seq<char>>) -> Set<
    Seq<char>,
> {
    unseen_owners_in(ring, ring.len() as int, t, acc)
}

proof fn lemma_range_split(s: Seq<u64>, a: int, m: int, b: int, t: u64)
    requires
        a <= m <= b,
    ensures
        range_count(s, a, b, t) == range_count(s, a, m, t) + range_count(s, m, b, t),
    decreases m - a,
{
    if a < m {
        lemma_range_split(s, a + 1, m, b, t);
    }
}

/// Counting the first `k` positions from `pos` without wrapping.
proof fn lemma_lap_range(s: Seq<u64>, pos: int, k: nat, t: u64)
    requires
        0 <= pos,
        pos + k <= s.len(),
    ensures
        lap_count(s, pos, k, t) == range_count(s, pos, pos + k, t),
    decreases k,
{
    if k > 0 {
        let l = s.len() as int;
        if pos + 1 < l {
            vstd::arithmetic::div_mod::lemma_small_mod((pos + 1) as nat, l as nat);
            lemma_lap_range(s, pos + 1, (k - 1) as nat, t);
        } else {
            assert(k == 1);
            assert(lap_count(s, (pos + 1) % l, 0, t) == 0);
            assert(range_count(s, pos + 1, pos + 1, t) == 0);
        }
    }
}

/// A walk of `k1 + k2` steps is a walk of `k1` steps, then one of `k2`.
proof fn lemma_lap_concat(s: Seq<u64>, pos: int, k1: nat, k2: nat, t: u64)
    requires
        0 <= pos < s.len(),
    ensures
        lap_count(s, pos, k1 + k2, t) == lap_count(s, pos, k1, t) + lap_count(
            s,
            (pos + k1) % (s.len() as int),
            k2,
            t,
        ),
    decreases k1,
{
    let l = s.len() as int;
    if k1 == 0 {
        vstd::arithmetic::div_mod::lemma_small_mod(pos as nat, l as nat);
    } else {
        let p1 = (pos + 1) % l;
        if pos + 1 < l {
            vstd::arithmetic::div_mod::lemma_small_mod((pos + 1) as nat, l as nat);
        } else {
            vstd::arithmetic::div_mod::lemma_mod_self_0(l);
        }
        assert(0 <= p1 < l);
        lemma_lap_concat(s, p1, (k1 - 1) as nat, k2, t);
        assert((k1 - 1 + k2) as nat == (k1 + k2 - 1) as nat);
        if pos + 1 < l {
            assert(p1 + (k1 - 1) == pos + k1);
        } else {
            assert(p1 == 0);
            vstd::arithmetic::div_mod::lemma_mod_add_multiples_vanish(k1 - 1, l);
            assert(pos + k1 == l + (k1 - 1));
        }
    }
}

/// A full lap from any position visits every index once.
proof fn lemma_full_lap(s: Seq<u64>, pos: int, t: u64)
    requires
        0 <= pos < s.len(),
    ensures
        lap_count(s, pos, s.len(), t) == range_count(s, 0, s.len() as int, t),
{
    let l = s.len() as int;
    let k1 = (l - pos) as nat;
    let k2 = pos as nat;
    lemma_lap_concat(s, pos, k1, k2, t);
    vstd::arithmetic::div_mod::lemma_mod_self_0(l);
    assert((pos + k1) % l == 0);
    lemma_lap_range(s, pos, k1, t);
    lemma_lap_range(s, 0, k2, t);
    lemma_range_split(s, 0, pos, l, t);
    assert(k1 + k2 == s.len());
}

/// Counting a value over a prefix counts its occurrences in the prefix's
/// multiset.
proof fn lemma_range_multiset(s: Seq<u64>, k: int, t: u64)
    requires
        0 <= k <= s.len(),
    ensures
        range_count(s, 0, k, t) == s.take(k).to_multiset().count(t),
    decreases k,
{
    if k == 0 {
        assert(s.take(0) =~= Seq::<u64>::empty());
        s.take(0).to_multiset_ensures();
        assert(s.take(0).to_multiset().len() == 0);
        vstd::multiset::lemma_multiset_empty_len(s.take(0).to_multiset());
    } else {
        lemma_range_multiset(s, k - 1, t);
        assert(s.take(k) =~= s.take(k - 1).push(s[k - 1]));
        s.take(k - 1).to_multiset_ensures();
        lemma_range_split(s, 0, k - 1, k, t);
        assert(range_count(s, k, k, t) == 0);
    }
}

/// The unseen owners among the first `k` points are finite and no more
/// than the points with hash `t` among them.
proof fn lemma_unseen_bound(ring: Seq<(u64, Seq<char>)>, k: int, t: u64, acc: Seq<Seq<char>>)
    requires
        0 <= k <= ring.len(),
    ensures
        unseen_owners_in(ring, k, t, acc).finite(),
        unseen_owners_in(ring, k, t, acc).len() <= range_count(hashes_of(ring), 0, k, t),
    decreases k,
{
    let h = hashes_of(ring);
    if k == 0 {
        assert(unseen_owners_in(ring, 0, t, acc) =~= Set::<Seq<char>>::empty());
    } else {
        lemma_unseen_bound(ring, k - 1, t, acc);
        let prev = unseen_owners_in(ring, k - 1, t, acc);
        let cur = unseen_owners_in(ring, k, t, acc);
        lemma_range_split(h, 0, k - 1, k, t);
        assert(range_count(h, k, k, t) == 0);
        assert(h[k - 1] == ring[k - 1].0);
        if ring[k - 1].0 == t && !acc.contains(ring[k - 1].1) {
            assert(cur =~= prev.insert(ring[k - 1].1)) by {
                assert forall|x: Seq<char>| cur.contains(x) implies prev.insert(ring[k - 1].1).contains(x) by {
                    let j = choose|j: int| 0 <= j < k && ring[j].0 == t && ring[j].1 == x;
                    if j < k - 1 {
                        assert(prev.contains(x));
                    }
                }
                assert forall|x: Seq<char>| prev.insert(ring[k - 1].1).contains(x) implies cur.contains(x) by {
                    if x != ring[k - 1].1 {
                        let j = choose|j: int| 0 <= j < k - 1 && ring[j].0 == t && ring[j].1 == x;
                        assert(0 <= j < k);
                    }
                }
            }
            vstd::set::axiom_set_insert_len(prev, ring[k - 1].1);
        } else {
            assert(cur =~= prev) by {
                assert forall|x: Seq<char>| cur.contains(x) implies prev.contains(x) by {
                    let j = choose|j: int| 0 <= j < k && ring[j].0 == t && ring[j].1 == x;
                    if j == k - 1 {
                        assert(false);
                    }
                }
                assert forall|x: Seq<char>| prev.contains(x) implies cur.contains(x) by {
                    let j = choose|j: int| 0 <= j < k - 1 && ring[j].0 == t && ring[j].1 == x;
                    assert(0 <= j < k);
                }
            }
        }
    }
}

/// When `first_unseen` finds nothing, every owner of a point with hash `t`
/// from index `k` on is already in `seen`.
proof fn lemma_first_unseen_none(ring: Seq<(u64, Seq<char>)>, t: u64, seen: Seq<Seq<char>>, k: int)
    requires
        0 <= k,
        first_unseen(ring, t, seen, k) is None,
    ensures
        forall|j: int| k <= j < ring.len() && ring[j].0 == t ==> seen.contains(#[trigger] ring[j].1),
    decreases ring.len() - k,
{
    if k < ring.len() {
        lemma_first_unseen_none(ring, t, seen, k + 1);
    }
}

/// One step of the walk keeps the unseen owners of every hash within the
/// visits left to it.
proof fn lemma_walk_step(
    ring: Seq<(u64, Seq<char>)>,
    sorted: Seq<u64>,
    pos: int,
    steps: nat,
    acc: Seq<Seq<char>>,
)
    requires
        0 <= pos < sorted.len(),
        steps > 0,
        forall|t: u64| #[trigger] unseen_owners(ring, t, acc).len() <= lap_count(sorted, pos, steps, t),
    ensures
        forall|t: u64|
            #[trigger] unseen_owners(ring, t, step_acc(ring, sorted[pos], acc)).len() <= lap_count(
                sorted,
                (pos + 1) % (sorted.len() as int),
                (steps - 1) as nat,
                t,
            ),
{
    let t0 = sorted[pos];
    let l = sorted.len() as int;
    let p1 = (pos + 1) % l;
    let next = step_acc(ring, t0, acc);
    assert forall|t: u64| #[trigger]
        unseen_owners(ring, t, next).len() <= lap_count(sorted, p1, (steps - 1) as nat, t) by {
        let before = unseen_owners(ring, t, acc);
        let after = unseen_owners(ring, t, next);
        lemma_unseen_bound(ring, ring.len() as int, t, acc);
        assert(lap_count(sorted, pos, steps, t) == (if t0 == t {
            1nat
        } else {
            0nat
        }) + lap_count(sorted, p1, (steps - 1) as nat, t));
        assert(before.len() <= lap_count(sorted, pos, steps, t));
        match first_unseen(ring, t0, acc, 0) {
            Some(node) => {
                lemma_first_unseen_props(ring, t0, acc, 0);
                assert forall|x: Seq<char>| after.contains(x) implies before.contains(x) by {
                    assert(acc.push(node).contains(x) <== acc.contains(x)) by {
                        if acc.contains(x) {
                            let i = acc.index_of(x);
                            assert(acc.push(node)[i] == x);
                        }
                    }
                }
                assert(after.subset_of(before));
                if t == t0 {
                    let j = choose|j: int| 0 <= j < ring.len() && ring[j].0 == t0 && ring[j].1 == node;
                    assert(before.contains(node));
                    assert(after =~= before.remove(node)) by {
                        assert forall|x: Seq<char>| before.remove(node).contains(x) implies after.contains(x) by {
                            assert(!acc.push(node).contains(x)) by {
                                if acc.push(node).contains(x) {
                                    let i = acc.push(node).index_of(x);
                                    if i < acc.len() {
                                        assert(acc[i] == x);
                                    }
                                }
                            }
                        }
                        assert(!after.contains(node)) by {
                            assert(acc.push(node)[acc.len() as int] == node);
                        }
                    }
                    vstd::set::axiom_set_remove_len(before, node);
                } else {
                    vstd::set_lib::lemma_len_subset(after, before);
                }
            },
            None => {
                if t == t0 {
                    lemma_first_unseen_none(ring, t0, acc, 0);
                    assert(before =~= Set::<Seq<char>>::empty()) by {
                        assert forall|x: Seq<char>| !before.contains(x) by {
                            if before.contains(x) {
                                let j = choose|j: int|
                                    0 <= j < ring.len() && ring[j].0 == t0 && ring[j].1 == x;
                                assert(acc.contains(ring[j].1));
                            }
                        }
                    }
                    broadcast use vstd::set::axiom_set_empty_len;
                }
            },
        }
    }
}

/// The walk collects `min(n, total)` nodes while every unseen owner still
/// has a visit left to its hash.
proof fn lemma_walk_collects(
    ring: Seq<(u64, Seq<char>)>,
    nodes: Seq<Seq<char>>,
    sorted: Seq<u64>,
    pos: int,
    n: nat,
    steps: nat,
    acc: Seq<Seq<char>>,
)
    requires
        0 <= pos < sorted.len(),
        nodes.no_duplicates(),
        forall|m: int| 0 <= m < nodes.len() ==> #[trigger] has_point(ring, nodes[m]),
        forall|j: int| 0 <= j < ring.len() ==> nodes.contains(#[trigger] ring[j].1),
        acc.no_duplicates(),
        forall|i: int| 0 <= i < acc.len() ==> nodes.contains(#[trigger] acc[i]),
        acc.len() <= n,
        forall|t: u64| #[trigger] unseen_owners(ring, t, acc).len() <= lap_count(sorted, pos, steps, t),
    ensures
        walk(ring, sorted, pos, n, nodes.len(), steps, acc).len() == if n < nodes.len() {
            n
        } else {
            nodes.len()
        },
    decreases steps,
{
    lemma_distinct_members_bound(acc, nodes);
    if acc.len() >= n || acc.len() >= nodes.len() {
    } else if steps == 0 {
        assert forall|m: int| 0 <= m < nodes.len() implies acc.contains(#[trigger] nodes[m]) by {
            assert(has_point(ring, nodes[m]));
            let j = choose|j: int| 0 <= j < ring.len() && ring[j].1 == nodes[m];
            let t = ring[j].0;
            let u = unseen_owners(ring, t, acc);
            lemma_unseen_bound(ring, ring.len() as int, t, acc);
            assert(u.len() == 0);
            vstd::set_lib::lemma_set_empty_equivalency_len(u);
            if !acc.contains(nodes[m]) {
                assert(u.contains(nodes[m]));
            }
        }
        assert forall|m: int| 0 <= m < nodes.len() implies acc.contains(#[trigger] nodes[m]) by {}
        lemma_distinct_members_bound(nodes, acc);
    } else {
        let next = step_acc(ring, sorted[pos], acc);
        lemma_walk_step(ring, sorted, pos, steps, acc);
        let l = sorted.len() as int;
        let p1 = (pos + 1) % l;
        if pos + 1 < l {
            vstd::arithmetic::div_mod::lemma_small_mod((pos + 1) as nat, l as nat);
        } else {
            vstd::arithmetic::div_mod::lemma_mod_self_0(l);
        }
        match first_unseen(ring, sorted[pos], acc, 0) {
            Some(node) => {
                lemma_first_unseen_props(ring, sorted[pos], acc, 0);
                let j = choose|j: int| 0 <= j < ring.len() && ring[j].0 == sorted[pos] && ring[j].1 == node;
                assert(nodes.contains(ring[j].1));
                assert forall|a: int, b: int| 0 <= a < b < next.len() implies next[a] != next[b] by {
                    if b == acc.len() {
                        assert(acc.contains(acc[a]));
                    }
                }
                assert forall|i: int| 0 <= i < next.len() implies nodes.contains(#[trigger] next[i]) by {
                    if i < acc.len() {
                        assert(next[i] == acc[i]);
                    }
                }
            },
            None => {},
        }
        lemma_walk_collects(ring, nodes, sorted, p1, n, (steps - 1) as nat, next);
    }
}

/// A full lap of the ring, from any point, collects `min(n, total)` nodes
/// when every node owns a point.
pub proof fn lemma_full_lap_collects(
    ring: Seq<(u64, Seq<char>)>,
    nodes: Seq<Seq<char>>,
    sorted: Seq<u64>,
    vn: nat,
    start: int,
    n: nat,
)
    requires
        ring_shape(ring, nodes, sorted, vn),
        vn > 0,
        0 <= start < sorted.len(),
    ensures
        walk(ring, sorted, start, n, nodes.len(), sorted.len(), Seq::<Seq<char>>::empty()).len()
            == if n < nodes.len() {
            n
        } else {
            nodes.len()
        },
{
    let empty = Seq::<Seq<char>>::empty();
    let h = hashes_of(ring);
    sorted.to_multiset_ensures();
    h.to_multiset_ensures();
    assert(sorted.len() == ring.len());
    assert forall|t: u64| #[trigger] unseen_owners(ring, t, empty).len() <= lap_count(
        sorted,
        start,
        sorted.len(),
        t,
    ) by {
        lemma_unseen_bound(ring, ring.len() as int, t, empty);
        lemma_range_multiset(h, h.len() as int, t);
        lemma_range_multiset(sorted, sorted.len() as int, t);
        assert(h.take(h.len() as int) =~= h);
        assert(sorted.take(sorted.len() as int) =~= sorted);
        lemma_full_lap(sorted, start, t);
    }
    lemma_walk_collects(ring, nodes, sorted, start, n, sorted.len(), empty);
}

} // verus!
