//! What holds of a ring after any run of changes: its nodes are those added
//! and not removed since, removing a node just added restores the ring, and
//! a ring with no points per node never gets a point.

use vstd::prelude::*;

use crate::cluster::hash_ring::{not_owned_by, ring_step, HashRing, RingOp};

verus! {

broadcast use vstd::seq_lib::group_seq_properties;

/// The nodes that a run of changes leaves, starting from no node.
pub open spec fn members_after(ops: Seq<RingOp>) -> Set<Seq<char>>
    decreases ops.len(),
{
    if ops.len() == 0 {
        Set::empty()
    } else {
        let before = members_after(ops.drop_last());
        match ops.last() {
            RingOp::Add(x) => before.insert(x),
            RingOp::Remove(x) => before.remove(x),
        }
    }
}

/// `rings` is a run of rings, each made from the one before by the change
/// at the same place in `ops`.
pub open spec fn is_run(rings: Seq<HashRing>, ops: Seq<RingOp>) -> bool {
    &&& rings.len() == ops.len() + 1
    &&& forall|i: int| 0 <= i < ops.len() ==> ring_step(#[trigger] rings[i], rings[i + 1], ops[i])
}

/// Removing from a list without duplicates the place of `x` takes `x` out
/// of its set and keeps the list free of duplicates.
proof fn lemma_remove_index_of(s: Seq<Seq<char>>, x: Seq<char>)
    requires
        s.no_duplicates(),
        s.contains(x),
    ensures
        s.remove(s.index_of(x)).no_duplicates(),
        s.remove(s.index_of(x)).to_set() == s.to_set().remove(x),
{
    let idx = s.index_of(x);
    let t = s.remove(idx);
    assert forall|a: int, b: int| 0 <= a < b < t.len() implies t[a] != t[b] by {
        let oa = if a < idx { a } else { a + 1 };
        let ob = if b < idx { b } else { b + 1 };
        assert(t[a] == s[oa] && t[b] == s[ob]);
    }
    assert forall|k: Seq<char>| t.contains(k) <==> (s.contains(k) && k != x) by {
        if t.contains(k) {
            let i = choose|i: int| 0 <= i < t.len() && t[i] == k;
            let oi = if i < idx { i } else { i + 1 };
            assert(s[oi] == k);
            assert(oi != idx);
        }
        if s.contains(k) && k != x {
            let i = choose|i: int| 0 <= i < s.len() && s[i] == k;
            assert(i != idx);
            let ni = if i < idx { i } else { i - 1 };
            assert(t[ni] == k);
        }
    }
    assert(t.to_set() =~= s.to_set().remove(x));
}

/// The node list after any run of adds and removes, starting from a ring
/// with no node, holds each node once, and its nodes are exactly those
/// added and not removed since.
pub proof fn lemma_nodes_are_added_minus_removed(rings: Seq<HashRing>, ops: Seq<RingOp>)
    requires
        is_run(rings, ops),
        rings[0].node_list().len() == 0,
    ensures
        forall|i: int|
            0 <= i <= ops.len() ==> (#[trigger] rings[i]).node_list().no_duplicates()
                && rings[i].node_list().to_set() == members_after(ops.take(i)),
    decreases ops.len(),
{
    if ops.len() > 0 {
        let m = ops.len() - 1;
        lemma_nodes_are_added_minus_removed(rings.take(m + 1), ops.take(m));
        assert forall|i: int| 0 <= i <= ops.len() implies (#[trigger] rings[i]).node_list().no_duplicates()
            && rings[i].node_list().to_set() == members_after(ops.take(i)) by {
            if i <= m {
                assert(rings.take(m + 1)[i] == rings[i]);
                assert(ops.take(m).take(i) =~= ops.take(i));
            } else {
                assert(rings.take(m + 1)[m] == rings[m]);
                assert(ops.take(m).take(m) =~= ops.take(m));
                let a = rings[m];
                let b = rings[m + 1];
                assert(ring_step(a, b, ops[m]));
                let before = a.node_list();
                assert(ops.take(i).drop_last() =~= ops.take(m));
                assert(ops.take(i).last() == ops[m]);
                match ops[m] {
                    RingOp::Add(x) => {
                        if !before.contains(x) {
                            assert(before.push(x).to_set() =~= before.to_set().insert(x));
                            assert forall|p: int, q: int| 0 <= p < q < before.push(x).len()
                                implies before.push(x)[p] != before.push(x)[q] by {
                                if q == before.len() {
                                    assert(before.contains(before[p]));
                                }
                            }
                        } else {
                            assert(before.to_set().insert(x) =~= before.to_set());
                        }
                    },
                    RingOp::Remove(x) => {
                        if before.contains(x) {
                            lemma_remove_index_of(before, x);
                        } else {
                            assert(before.to_set().remove(x) =~= before.to_set());
                        }
                    },
                }
            }
        }
    } else {
        assert forall|i: int| 0 <= i <= ops.len() implies (#[trigger] rings[i]).node_list().no_duplicates()
            && rings[i].node_list().to_set() == members_after(ops.take(i)) by {
            assert(rings[0].node_list().to_set() =~= Set::<Seq<char>>::empty());
        }
    }
}

/// Points that all pass a test survive filtering by it unchanged.
proof fn lemma_filter_keeps_all(s: Seq<(u64, Seq<char>)>, p: spec_fn((u64, Seq<char>)) -> bool)
    requires
        forall|i: int| 0 <= i < s.len() ==> p(#[trigger] s[i]),
    ensures
        s.filter(p) == s,
    decreases s.len(),
{
    reveal(Seq::filter);
    if s.len() > 0 {
        lemma_filter_keeps_all(s.drop_last(), p);
        assert(s.drop_last().push(s.last()) =~= s);
    }
}

/// Points that all fail a test are all filtered out by it.
proof fn lemma_filter_drops_all(s: Seq<(u64, Seq<char>)>, p: spec_fn((u64, Seq<char>)) -> bool)
    requires
        forall|i: int| 0 <= i < s.len() ==> !p(#[trigger] s[i]),
    ensures
        s.filter(p) == Seq::<(u64, Seq<char>)>::empty(),
    decreases s.len(),
{
    reveal(Seq::filter);
    if s.len() > 0 {
        lemma_filter_drops_all(s.drop_last(), p);
    }
}

/// Removing a node just added to a ring that did not have it gives back
/// the ring as it was: the same nodes, the same points and the same sorted
/// points, so every lookup answers as before.
pub proof fn lemma_add_then_remove_restores(a: HashRing, b: HashRing, c: HashRing, x: Seq<char>)
    requires
        a.well_formed(),
        c.well_formed(),
        !a.node_list().contains(x),
        ring_step(a, b, RingOp::Add(x)),
        ring_step(b, c, RingOp::Remove(x)),
    ensures
        c.vnodes() == a.vnodes(),
        c.node_list() == a.node_list(),
        c.ring_view() == a.ring_view(),
        c.sorted_view() == a.sorted_view(),
{
    a.lemma_well_formed();
    c.lemma_well_formed();
    let an = a.node_list();
    let bn = b.node_list();
    assert(bn == an.push(x));
    assert(bn[an.len() as int] == x);
    assert(bn.contains(x));
    let idx = bn.index_of(x);
    assert(bn[idx] == x);
    assert(idx == an.len()) by {
        if idx < an.len() {
            assert(an[idx] == x);
        }
    }
    assert(bn.remove(idx) =~= an);
    let ar = a.ring_view();
    let br = b.ring_view();
    let tail = br.skip(ar.len() as int);
    assert(br =~= ar + tail);
    let p = not_owned_by(x);
    assert forall|i: int| 0 <= i < ar.len() implies p(#[trigger] ar[i]) by {
        assert(an.contains(ar[i].1));
    }
    lemma_filter_keeps_all(ar, p);
    assert forall|i: int| 0 <= i < tail.len() implies !p(#[trigger] tail[i]) by {
        assert(tail[i] == br[i + ar.len()]);
    }
    lemma_filter_drops_all(tail, p);
    Seq::filter_distributes_over_add(ar, tail, p);
    assert(c.ring_view() =~= ar);
    let le = |x: u64, y: u64| x <= y;
    assert(vstd::relations::total_ordering(le));
    assert(vstd::relations::sorted_by(c.sorted_view(), le));
    assert(vstd::relations::sorted_by(a.sorted_view(), le));
    vstd::seq_lib::lemma_sorted_unique(c.sorted_view(), a.sorted_view(), le);
}

/// A ring with no points per node never gets a point, whatever nodes are
/// added and removed: it stays empty and routes nothing, though its node
/// count follows the changes.
pub proof fn lemma_pointless_ring_stays_empty(rings: Seq<HashRing>, ops: Seq<RingOp>)
    requires
        is_run(rings, ops),
        rings[0].vnodes() == 0,
        rings[0].ring_view().len() == 0,
    ensures
        forall|i: int|
            0 <= i <= ops.len() ==> (#[trigger] rings[i]).vnodes() == 0 && rings[i].ring_view().len()
                == 0,
    decreases ops.len(),
{
    if ops.len() > 0 {
        let m = ops.len() - 1;
        lemma_pointless_ring_stays_empty(rings.take(m + 1), ops.take(m));
        assert forall|i: int| 0 <= i <= ops.len() implies (#[trigger] rings[i]).vnodes() == 0
            && rings[i].ring_view().len() == 0 by {
            if i <= m {
                assert(rings.take(m + 1)[i] == rings[i]);
            } else {
                assert(rings.take(m + 1)[m] == rings[m]);
                let a = rings[m];
                assert(ring_step(a, rings[m + 1], ops[m]));
                match ops[m] {
                    RingOp::Add(_) => {},
                    RingOp::Remove(x) => {
                        if a.node_list().contains(x) {
                            lemma_filter_drops_all(a.ring_view(), not_owned_by(x));
                        }
                    },
                }
            }
        }
    }
}

} // verus!
