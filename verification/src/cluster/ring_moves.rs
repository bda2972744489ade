//! Which keys move when the ring changes: removing a node moves only the
//! hashes it owned, and adding a node moves hashes only to the new node.

use vstd::prelude::*;

use crate::cluster::hash_ring::{
    first_with_hash, hashes_of, is_successor, lemma_successor_unique, not_owned_by, owner_at,
    successor,
};

verus! {

broadcast use vstd::seq_lib::group_seq_properties;

/// `first_with_hash` finds the first point with hash `t` from `k` on.
proof fn lemma_first_with_hash_at(s: Seq<(u64, Seq<char>)>, t: u64, k: int, m: int)
    requires
        0 <= k <= m < s.len(),
        s[m].0 == t,
        forall|j: int| k <= j < m ==> s[j].0 != t,
    ensures
        first_with_hash(s, t, k) == Some(m),
    decreases m - k,
{
    if k < m {
        lemma_first_with_hash_at(s, t, k + 1, m);
    }
}

/// What `first_with_hash` finds is a point with hash `t`, and none before it
/// from `k` on has that hash; it finds one whenever a point from `k` on has
/// hash `t`.
proof fn lemma_first_with_hash_props(s: Seq<(u64, Seq<char>)>, t: u64, k: int)
    requires
        0 <= k,
    ensures
        first_with_hash(s, t, k) matches Some(m) ==> k <= m < s.len() && s[m].0 == t && forall|
            j: int,
        |
            k <= j < m ==> s[j].0 != t,
        (exists|j: int| k <= j < s.len() && s[j].0 == t) ==> first_with_hash(s, t, k) is Some,
    decreases s.len() - k,
{
    if k < s.len() && s[k].0 != t {
        lemma_first_with_hash_props(s, t, k + 1);
        if exists|j: int| k <= j < s.len() && s[j].0 == t {
            let j = choose|j: int| k <= j < s.len() && s[j].0 == t;
            assert(k + 1 <= j);
        }
    }
}

/// A non-empty set of points has a successor for every hash.
proof fn lemma_successor_exists(hs: Seq<u64>, h: u64)
    requires
        hs.len() > 0,
    ensures
        is_successor(hs, h, successor(hs, h)),
    decreases hs.len(),
{
    let x = hs.last();
    let p = hs.drop_last();
    if p.len() == 0 {
        assert(hs =~= seq![x]);
        assert(hs[0] == x);
        lemma_successor_unique(hs, h, x);
    } else {
        lemma_successor_exists(p, h);
        let t0 = successor(p, h);
        assert(forall|i: int| 0 <= i < p.len() ==> p[i] == hs[i]);
        let i0 = choose|i: int| 0 <= i < p.len() && p[i] == t0;
        assert(hs[i0] == t0);
        let some_p = exists|i: int| 0 <= i < p.len() && p[i] >= h;
        let t = if some_p {
            if x >= h && x < t0 {
                x
            } else {
                t0
            }
        } else {
            if x >= h {
                x
            } else if x < t0 {
                x
            } else {
                t0
            }
        };
        assert(hs[hs.len() - 1] == x);
        assert(hs.contains(t));
        assert(is_successor(hs, h, t)) by {
            if exists|i: int| 0 <= i < hs.len() && hs[i] >= h {
                assert forall|i: int| 0 <= i < hs.len() && hs[i] >= h implies t <= hs[i] by {
                    if i < p.len() {
                        assert(p[i] == hs[i]);
                    }
                }
                if !some_p && x < h {
                    let i = choose|i: int| 0 <= i < hs.len() && hs[i] >= h;
                    if i < p.len() {
                        assert(p[i] == hs[i]);
                    }
                }
            } else {
                assert forall|i: int| 0 <= i < hs.len() implies t <= hs[i] by {
                    if i < p.len() {
                        assert(p[i] == hs[i]);
                    }
                }
                if some_p {
                    let i = choose|i: int| 0 <= i < p.len() && p[i] >= h;
                    assert(hs[i] == p[i]);
                }
            }
        }
        lemma_successor_unique(hs, h, t);
    }
}

/// A point of the successor's hash that is still among fewer points is
/// still their successor.
proof fn lemma_successor_of_subset(big: Seq<u64>, small: Seq<u64>, h: u64, t: u64)
    requires
        is_successor(big, h, t),
        small.contains(t),
        forall|x: u64| small.contains(x) ==> big.contains(x),
    ensures
        successor(small, h) == t,
{
    let big_case = exists|j: int| 0 <= j < big.len() && big[j] >= h;
    assert forall|i: int| 0 <= i < small.len() && (small[i] >= h || !big_case) implies t
        <= small[i] by {
        assert(small.contains(small[i]));
        assert(big.contains(small[i]));
        let j = choose|j: int| 0 <= j < big.len() && big[j] == small[i];
    }
    let k = choose|k: int| 0 <= k < small.len() && small[k] == t;
    if exists|i: int| 0 <= i < small.len() && small[i] >= h {
        let i = choose|i: int| 0 <= i < small.len() && small[i] >= h;
        assert(small.contains(small[i]));
        assert(big.contains(small[i]));
        let j = choose|j: int| 0 <= j < big.len() && big[j] == small[i];
        assert(big_case);
    } else if big_case {
        assert(t >= h);
        assert(small[k] >= h);
    }
    assert(is_successor(small, h, t));
    lemma_successor_unique(small, h, t);
}

/// Consistent hashing: removing a node moves only the hashes it owned;
/// every hash that routed to another node routes to that node still.
pub proof fn lemma_remove_moves_only_its_hashes(
    ring: Seq<(u64, Seq<char>)>,
    node: Seq<char>,
    h: u64,
)
    requires
        ring.len() > 0,
        owner_at(ring, h) != node,
    ensures
        owner_at(ring.filter(not_owned_by(node)), h) == owner_at(ring, h),
{
    let hs = hashes_of(ring);
    let kept = ring.filter(not_owned_by(node));
    let ks = hashes_of(kept);
    lemma_successor_exists(hs, h);
    let t = successor(hs, h);
    let i = choose|i: int| 0 <= i < hs.len() && hs[i] == t;
    assert(ring[i].0 == t);
    lemma_first_with_hash_props(ring, t, 0);
    let k = first_with_hash(ring, t, 0)->0;
    let owner = ring[k].1;
    assert(owner == owner_at(ring, h));
    // The points before the first one of hash `t`, and the rest.
    let before = ring.take(k);
    let rest = ring.skip(k);
    assert(ring =~= before + rest);
    assert(rest =~= seq![ring[k]] + ring.skip(k + 1));
    Seq::filter_distributes_over_add(before, rest, not_owned_by(node));
    ring.skip(k + 1).lemma_filter_prepend(ring[k], not_owned_by(node));
    let fb = before.filter(not_owned_by(node));
    assert(kept =~= fb + (seq![ring[k]] + ring.skip(k + 1).filter(not_owned_by(node))));
    assert(kept[fb.len() as int] == ring[k]);
    assert forall|j: int| 0 <= j < fb.len() implies fb[j].0 != t by {
        assert(fb.contains(fb[j]));
        before.lemma_filter_contains_rev(not_owned_by(node), fb[j]);
        let m = choose|m: int| 0 <= m < before.len() && before[m] == fb[j];
        assert(before[m] == ring[m]);
    }
    assert forall|j: int| 0 <= j < fb.len() implies kept[j].0 != t by {
        assert(kept[j] == fb[j]);
    }
    lemma_first_with_hash_at(kept, t, 0, fb.len() as int);
    // The successor among the kept points is still `t`.
    assert(ks[fb.len() as int] == t);
    assert forall|x: u64| ks.contains(x) implies hs.contains(x) by {
        let j = choose|j: int| 0 <= j < ks.len() && ks[j] == x;
        assert(kept.contains(kept[j]));
        ring.lemma_filter_contains_rev(not_owned_by(node), kept[j]);
        let m = choose|m: int| 0 <= m < ring.len() && ring[m] == kept[j];
        assert(hs[m] == x);
    }
    lemma_successor_of_subset(hs, ks, h, t);
}

/// Consistent hashing: adding a node's points moves hashes only to that
/// node; every other hash routes where it did.
pub proof fn lemma_add_moves_hashes_only_to_it(
    ring: Seq<(u64, Seq<char>)>,
    added: Seq<(u64, Seq<char>)>,
    node: Seq<char>,
    h: u64,
)
    requires
        forall|i: int| 0 <= i < added.len() ==> (#[trigger] added[i]).1 == node,
    ensures
        owner_at(ring + added, h) == owner_at(ring, h) || owner_at(ring + added, h) == node,
{
    let all = ring + added;
    if all.len() == 0 {
        assert(ring.len() == 0);
        assert(all =~= ring);
    } else {
        let hs = hashes_of(ring);
        let ha = hashes_of(all);
        lemma_successor_exists(ha, h);
        let t = successor(ha, h);
        let i = choose|i: int| 0 <= i < ha.len() && ha[i] == t;
        assert(all[i].0 == t);
        lemma_first_with_hash_props(all, t, 0);
        let k = first_with_hash(all, t, 0)->0;
        if k >= ring.len() {
            assert(all[k] == added[k - ring.len()]);
        } else {
            assert(all[k] == ring[k]);
            assert forall|j: int| 0 <= j < k implies ring[j].0 != t by {
                assert(all[j] == ring[j]);
            }
            lemma_first_with_hash_at(ring, t, 0, k);
            assert(hs[k] == t);
            assert forall|x: u64| hs.contains(x) implies ha.contains(x) by {
                let j = choose|j: int| 0 <= j < hs.len() && hs[j] == x;
                assert(ha[j] == x);
            }
            lemma_successor_of_subset(ha, hs, h, t);
        }
    }
}

} // verus!
