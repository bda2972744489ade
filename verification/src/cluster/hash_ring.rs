//! Consistent hash ring that routes keys (titles) to nodes.
//!
//! Each node owns `virtual_nodes` points on the ring, at the hashes of
//! `"<node>-<i>"`. A key goes to the owner of the first point at or after the
//! key's hash, wrapping around to the smallest point.

use vstd::multiset::Multiset;
use vstd::prelude::*;
use vstd::slice::slice_to_vec;

use crate::bridge::hashing::ahash_bytes;
use crate::cluster::ring_walk::lemma_full_lap_collects;
use crate::text::{decimal_ascii, str_equals};

verus! {

broadcast use vstd::seq_lib::group_seq_properties, vstd::seq_lib::group_to_multiset_ensures;

/// Consistent hash ring.
#[derive(Debug, Clone)]
pub struct HashRing {
    /// Points per node.
    virtual_nodes: u32,
    /// Every point, with the node that owns it, in the order they were added.
    ring: Vec<(u64, String)>,
    /// Every node, with its points, in the order the nodes were added.
    positions: Vec<(String, Vec<u64>)>,
    /// The hashes of `ring`, in ascending order.
    sorted_ring: Vec<u64>,
}

/// The hashes of the points.
pub open spec fn hashes_of(ring: Seq<(u64, Seq<char>)>) -> Seq<u64> {
    ring.map_values(|e: (u64, Seq<char>)| e.0)
}

pub open spec fn is_sorted(s: Seq<u64>) -> bool {
    forall|i: int, j: int| 0 <= i <= j < s.len() ==> s[i] <= s[j]
}

/// The index of the first point with hash `t`, from index `k` on.
pub open spec fn first_with_hash(ring: Seq<(u64, Seq<char>)>, t: u64, k: int) -> Option<int>
    decreases ring.len() - k,
{
    if k < 0 || k >= ring.len() {
        None
    } else if ring[k].0 == t {
        Some(k)
    } else {
        first_with_hash(ring, t, k + 1)
    }
}

/// The owner of the first point with hash `t` whose node is not in `seen`,
/// looking from index `k` on.
pub open spec fn first_unseen(
    ring: Seq<(u64, Seq<char>)>,
    t: u64,
    seen: Seq<Seq<char>>,
    k: int,
) -> Option<Seq<char>>
    decreases ring.len() - k,
{
    if k < 0 || k >= ring.len() {
        None
    } else if ring[k].0 == t && !seen.contains(ring[k].1) {
        Some(ring[k].1)
    } else {
        first_unseen(ring, t, seen, k + 1)
    }
}

/// The first index of a sorted sequence whose value is at least `h`, wrapping
/// to 0 when there is none.
pub open spec fn start_index(sorted: Seq<u64>, h: u64) -> int {
    if exists|i: int| 0 <= i < sorted.len() && sorted[i] >= h {
        choose|i: int|
            0 <= i < sorted.len() && sorted[i] >= h && forall|j: int|
                0 <= j < i ==> sorted[j] < h
    } else {
        0
    }
}

/// `t` is the smallest point at or after `h`, or, when every point is before
/// `h`, the smallest point of all.
pub open spec fn is_successor(hs: Seq<u64>, h: u64, t: u64) -> bool {
    &&& hs.contains(t)
    &&& if exists|i: int| 0 <= i < hs.len() && hs[i] >= h {
        t >= h && forall|i: int| 0 <= i < hs.len() && hs[i] >= h ==> t <= hs[i]
    } else {
        forall|i: int| 0 <= i < hs.len() ==> t <= hs[i]
    }
}

/// The successor point of hash `h` (see `is_successor`).
pub open spec fn successor(hs: Seq<u64>, h: u64) -> u64 {
    choose|t: u64| is_successor(hs, h, t)
}

/// The node that a hash routes to: the owner of the first point, in ring
/// order, at the successor of `h`.
pub open spec fn owner_at(ring: Seq<(u64, Seq<char>)>, h: u64) -> Seq<char> {
    match first_with_hash(ring, successor(hashes_of(ring), h), 0) {
        Some(k) => ring[k].1,
        None => Seq::<char>::empty(),
    }
}

/// The views of a vector of string slices.
pub open spec fn str_views(v: Seq<&str>) -> Seq<Seq<char>> {
    v.map_values(|s: &str| s@)
}

/// Walks the sorted points from index `pos`, for at most `steps` points,
/// collecting at each point the first owner not yet collected, until `n` or
/// `total` nodes are collected.
pub open spec fn walk(
    ring: Seq<(u64, Seq<char>)>,
    sorted: Seq<u64>,
    pos: int,
    n: nat,
    total: nat,
    steps: nat,
    acc: Seq<Seq<char>>,
) -> Seq<Seq<char>>
    decreases steps,
{
    if acc.len() >= n || acc.len() >= total || steps == 0 || sorted.len() == 0 {
        acc
    } else {
        let next = match first_unseen(ring, sorted[pos], acc, 0) {
            Some(node) => acc.push(node),
            None => acc,
        };
        walk(ring, sorted, (pos + 1) % (sorted.len() as int), n, total, (steps - 1) as nat, next)
    }
}

/// Points that another node than `node` owns.
pub open spec fn not_owned_by(node: Seq<char>) -> spec_fn((u64, Seq<char>)) -> bool {
    |e: (u64, Seq<char>)| e.1 != node
}

/// Whether a node owns a point.
pub open spec fn has_point(ring: Seq<(u64, Seq<char>)>, node: Seq<char>) -> bool {
    exists|i: int| 0 <= i < ring.len() && ring[i].1 == node
}

/// A change asked of a ring: adding or removing a node.
pub ghost enum RingOp {
    Add(Seq<char>),
    Remove(Seq<char>),
}

/// What one change does to a ring, as `add_node` and `remove_node` state it:
/// a node that is already there is not added again, and removing an unknown
/// node changes nothing; otherwise adding appends the node and its points,
/// and removing takes out the node and every point it owns.
pub open spec fn ring_step(a: HashRing, b: HashRing, op: RingOp) -> bool {
    &&& b.vnodes() == a.vnodes()
    &&& match op {
        RingOp::Add(x) => if a.node_list().contains(x) {
            &&& b.node_list() == a.node_list()
            &&& b.ring_view() == a.ring_view()
            &&& b.sorted_view() == a.sorted_view()
        } else {
            &&& b.node_list() == a.node_list().push(x)
            &&& b.ring_view().len() == a.ring_view().len() + a.vnodes()
            &&& b.ring_view().take(a.ring_view().len() as int) == a.ring_view()
            &&& forall|k: int|
                a.ring_view().len() <= k < b.ring_view().len() ==> #[trigger] b.ring_view()[k].1
                    == x
        },
        RingOp::Remove(x) => if a.node_list().contains(x) {
            &&& b.node_list() == a.node_list().remove(a.node_list().index_of(x))
            &&& b.ring_view() == a.ring_view().filter(not_owned_by(x))
        } else {
            &&& b.node_list() == a.node_list()
            &&& b.ring_view() == a.ring_view()
            &&& b.sorted_view() == a.sorted_view()
        },
    }
}

/// The shape that the ring keeps between operations.
pub open spec fn ring_shape(
    ring: Seq<(u64, Seq<char>)>,
    nodes: Seq<Seq<char>>,
    sorted: Seq<u64>,
    vn: nat,
) -> bool {
    &&& nodes.no_duplicates()
    &&& forall|i: int| 0 <= i < ring.len() ==> nodes.contains(#[trigger] ring[i].1)
    &&& vn > 0 ==> forall|m: int| 0 <= m < nodes.len() ==> #[trigger] has_point(ring, nodes[m])
    &&& is_sorted(sorted)
    &&& sorted.to_multiset() == hashes_of(ring).to_multiset()
}

impl HashRing {
    /// The points, with their owners, in the order they were added.
    pub closed spec fn ring_view(&self) -> Seq<(u64, Seq<char>)> {
        self.ring@.map_values(|e: (u64, String)| (e.0, e.1@))
    }

    /// The nodes, in the order they were added.
    pub closed spec fn node_list(&self) -> Seq<Seq<char>> {
        self.positions@.map_values(|p: (String, Vec<u64>)| p.0@)
    }

    /// The hashes of the points, in ascending order.
    pub closed spec fn sorted_view(&self) -> Seq<u64> {
        self.sorted_ring@
    }

    pub closed spec fn vnodes(&self) -> nat {
        self.virtual_nodes as nat
    }

    pub closed spec fn well_formed(&self) -> bool {
        &&& ring_shape(self.ring_view(), self.node_list(), self.sorted_view(), self.vnodes())
        &&& forall|i: int|
            0 <= i < self.positions@.len() ==> #[trigger] self.positions@[i].1@.len()
                == self.virtual_nodes
    }

    /// Facts about a well-formed ring that callers can use.
    pub proof fn lemma_well_formed(&self)
        requires
            self.well_formed(),
        ensures
            ring_shape(self.ring_view(), self.node_list(), self.sorted_view(), self.vnodes()),
            self.sorted_view().len() == self.ring_view().len(),
    {
        assert(self.sorted_view().to_multiset().len() == hashes_of(self.ring_view()).to_multiset().len());
    }

    /// A ring with points per node has points exactly when it has nodes.
    pub proof fn lemma_points_iff_nodes(&self)
        requires
            self.well_formed(),
            self.vnodes() > 0,
        ensures
            self.ring_view().len() == 0 <==> self.node_list().len() == 0,
    {
        let ring = self.ring_view();
        let nodes = self.node_list();
        if ring.len() > 0 {
            assert(nodes.contains(ring[0].1));
        }
        if nodes.len() > 0 {
            assert(has_point(ring, nodes[0]));
        }
    }

    /// A ring with 150 points per node.
    pub fn new() -> (r: Self)
        ensures
            r.well_formed(),
            r.vnodes() == 150,
            r.ring_view().len() == 0,
            r.node_list().len() == 0,
    {
        Self::with_virtual_nodes(150)
    }

    /// A ring with `virtual_nodes` points per node.
    pub fn with_virtual_nodes(virtual_nodes: u32) -> (r: Self)
        ensures
            r.well_formed(),
            r.vnodes() == virtual_nodes,
            r.ring_view().len() == 0,
            r.node_list().len() == 0,
    {
        let r = HashRing {
            virtual_nodes,
            ring: Vec::new(),
            positions: Vec::new(),
            sorted_ring: Vec::new(),
        };
        proof {
            assert(r.ring_view() =~= Seq::<(u64, Seq<char>)>::empty());
            assert(r.node_list() =~= Seq::<Seq<char>>::empty());
            assert(hashes_of(r.ring_view()) =~= Seq::<u64>::empty());
        }
        r
    }

    /// The index of a node among the nodes, if it is one.
    fn find_node(&self, node_id: &str) -> (r: Option<usize>)
        ensures
            match r {
                Some(i) => i < self.node_list().len() && self.node_list()[i as int] == node_id@,
                None => !self.node_list().contains(node_id@),
            },
    {
        let mut i: usize = 0;
        while i < self.positions.len()
            invariant
                i <= self.positions@.len(),
                forall|j: int| 0 <= j < i ==> self.node_list()[j] != node_id@,
            decreases self.positions@.len() - i,
        {
            if str_equals(self.positions[i].0.as_str(), node_id) {
                return Some(i);
            }
            i = i + 1;
        }
        None
    }

    /// The index of the first sorted point at or after `hash` (the length when none is).
    fn lower_bound(sorted: &Vec<u64>, hash: u64) -> (r: usize)
        requires
            is_sorted(sorted@),
        ensures
            r <= sorted@.len(),
            forall|j: int| 0 <= j < r ==> sorted@[j] < hash,
            forall|j: int| r <= j < sorted@.len() ==> sorted@[j] >= hash,
    {
        let mut lo: usize = 0;
        let mut hi: usize = sorted.len();
        while lo < hi
            invariant
                lo <= hi <= sorted@.len(),
                is_sorted(sorted@),
                forall|j: int| 0 <= j < lo ==> sorted@[j] < hash,
                forall|j: int| hi <= j < sorted@.len() ==> sorted@[j] >= hash,
            decreases hi - lo,
        {
            let mid = lo + (hi - lo) / 2;
            if sorted[mid] < hash {
                lo = mid + 1;
            } else {
                hi = mid;
            }
        }
        lo
    }

    /// The sorted hashes of the points.
    fn rebuild_sorted(ring: &Vec<(u64, String)>) -> (r: Vec<u64>)
        ensures
            is_sorted(r@),
            r@.to_multiset() == hashes_of(ring@.map_values(|e: (u64, String)| (e.0, e.1@))).to_multiset(),
    {
        let ghost rv = ring@.map_values(|e: (u64, String)| (e.0, e.1@));
        let mut sorted: Vec<u64> = Vec::new();
        let mut i: usize = 0;
        while i < ring.len()
            invariant
                i <= ring@.len(),
                rv == ring@.map_values(|e: (u64, String)| (e.0, e.1@)),
                is_sorted(sorted@),
                sorted@.to_multiset() == hashes_of(rv).take(i as int).to_multiset(),
            decreases ring@.len() - i,
        {
            let h = ring[i].0;
            let pos = Self::lower_bound(&sorted, h);
            let ghost before = sorted@;
            sorted.insert(pos, h);
            proof {
                assert(sorted@ == before.insert(pos as int, h));
                assert(sorted@.remove(pos as int) =~= before);
                assert(hashes_of(rv).take(i + 1) =~= hashes_of(rv).take(i as int).push(h));
                assert(sorted@.to_multiset() =~= before.to_multiset().insert(h)) by {
                    assert(sorted@.remove(pos as int).to_multiset() == sorted@.to_multiset().remove(h));
                    assert(sorted@.to_multiset().count(h) > 0);
                }
            }
            i = i + 1;
        }
        assert(hashes_of(rv).take(ring@.len() as int) =~= hashes_of(rv));
        sorted
    }

    /// Adds a node and its points; a node that is already there is left as it is.
    pub fn add_node(&mut self, node_id: String)
        requires
            old(self).well_formed(),
        ensures
            final(self).well_formed(),
            final(self).vnodes() == old(self).vnodes(),
            old(self).node_list().contains(node_id@) ==> final(self).node_list() == old(
                self,
            ).node_list() && final(self).ring_view() == old(self).ring_view()
                && final(self).sorted_view() == old(self).sorted_view(),
            !old(self).node_list().contains(node_id@) ==> {
                &&& final(self).node_list() == old(self).node_list().push(node_id@)
                &&& final(self).ring_view().len() == old(self).ring_view().len() + old(
                    self,
                ).vnodes()
                &&& final(self).ring_view().take(old(self).ring_view().len() as int) == old(
                    self,
                ).ring_view()
                &&& forall|k: int|
                    old(self).ring_view().len() <= k < final(self).ring_view().len()
                        ==> #[trigger] final(self).ring_view()[k].1 == node_id@
            },
            final(self).node_list().contains(node_id@),
            ring_step(*old(self), *final(self), RingOp::Add(node_id@)),
    {
        proof {
            let nodes = old(self).node_list();
            assert(nodes.push(node_id@)[nodes.len() as int] == node_id@);
        }
        if self.find_node(node_id.as_str()).is_some() {
            return;
        }
        let ghost old_ring = self.ring_view();
        let ghost old_len = self.ring@.len();
        let mut positions: Vec<u64> = Vec::new();
        let mut i: u32 = 0;
        while i < self.virtual_nodes
            invariant
                self.virtual_nodes == old(self).virtual_nodes,
                self.positions == old(self).positions,
                old_ring == old(self).ring_view(),
                old_len == old_ring.len(),
                i <= self.virtual_nodes,
                positions@.len() == i,
                self.ring@.len() == old_len + i,
                self.ring_view().take(old_len as int) == old_ring,
                forall|k: int| old_len <= k < self.ring@.len() ==> #[trigger] self.ring_view()[k].1 == node_id@,
            decreases self.virtual_nodes - i,
        {
            let mut key = slice_to_vec(node_id.as_str().as_bytes());
            key.push(45u8);
            let mut digits = decimal_ascii(i as u64);
            key.append(&mut digits);
            let hash = ahash_bytes(key.as_slice());
            let ghost before = self.ring@;
            self.ring.push((hash, node_id.clone()));
            proof {
                assert(self.ring_view() =~= before.map_values(|e: (u64, String)| (e.0, e.1@)).push((hash, node_id@)));
                assert(self.ring_view().take(old_len as int) =~= old_ring);
            }
            positions.push(hash);
            i = i + 1;
        }
        let ghost old_nodes = self.node_list();
        self.positions.push((node_id, positions));
        self.sorted_ring = Self::rebuild_sorted(&self.ring);
        proof {
            assert(self.node_list() =~= old_nodes.push(node_id@));
            let nodes = self.node_list();
            let ring = self.ring_view();
            assert(nodes.no_duplicates()) by {
                assert forall|a: int, b: int| 0 <= a < b < nodes.len() implies nodes[a] != nodes[b] by {
                    if b == nodes.len() - 1 {
                        assert(old_nodes.contains(nodes[a]));
                    }
                }
            }
            assert forall|k: int| 0 <= k < ring.len() implies nodes.contains(#[trigger] ring[k].1) by {
                if k < old_len {
                    assert(ring[k] == old_ring[k]);
                    assert(old_nodes.contains(old_ring[k].1));
                } else {
                    assert(nodes[nodes.len() - 1] == node_id@);
                }
            }
            if self.virtual_nodes > 0 {
                assert forall|m: int| 0 <= m < nodes.len() implies #[trigger] has_point(ring, nodes[m]) by {
                    if m < old_nodes.len() {
                        assert(nodes[m] == old_nodes[m]);
                        assert(has_point(old_ring, old_nodes[m]));
                        let w = choose|j: int| 0 <= j < old_ring.len() && old_ring[j].1 == old_nodes[m];
                        assert(ring.take(old_len as int)[w] == ring[w]);
                        assert(ring[w] == old_ring[w]);
                    } else {
                        assert(ring[old_len as int].1 == node_id@);
                    }
                }
            }
            assert forall|j: int| 0 <= j < self.positions@.len() implies #[trigger] self.positions@[j].1@.len()
                == self.virtual_nodes by {
                if j < old(self).positions@.len() {
                    assert(self.positions@[j] == old(self).positions@[j]);
                }
            }
        }
    }

    /// Removes a node and every point it owns; an unknown node changes nothing.
    pub fn remove_node(&mut self, node_id: &str)
        requires
            old(self).well_formed(),
        ensures
            final(self).well_formed(),
            final(self).vnodes() == old(self).vnodes(),
            !old(self).node_list().contains(node_id@) ==> final(self).node_list() == old(
                self,
            ).node_list() && final(self).ring_view() == old(self).ring_view()
                && final(self).sorted_view() == old(self).sorted_view(),
            old(self).node_list().contains(node_id@) ==> {
                &&& final(self).node_list() == old(self).node_list().remove(
                    old(self).node_list().index_of(node_id@),
                )
                &&& final(self).ring_view() == old(self).ring_view().filter(not_owned_by(node_id@))
            },
            !final(self).node_list().contains(node_id@),
            ring_step(*old(self), *final(self), RingOp::Remove(node_id@)),
    {
        proof {
            let nodes = old(self).node_list();
            if nodes.contains(node_id@) {
                let i = nodes.index_of(node_id@);
                assert forall|k: int| 0 <= k < nodes.remove(i).len() implies nodes.remove(i)[k] != node_id@ by {
                    if k < i {
                        assert(nodes.remove(i)[k] == nodes[k]);
                    } else {
                        assert(nodes.remove(i)[k] == nodes[k + 1]);
                    }
                }
            }
        }
        let idx = match self.find_node(node_id) {
            None => {
                return;
            },
            Some(i) => i,
        };
        let ghost old_nodes = self.node_list();
        let ghost old_ring = self.ring_view();
        proof {
            assert(forall|i: int| 0 <= i < old_ring.len() ==> old_nodes.contains(#[trigger] old_ring[i].1));
            old_nodes.index_of_first_ensures(node_id@);
            assert(old_nodes.index_of(node_id@) == idx) by {
                assert(old_nodes.no_duplicates());
            }
        }
        let ghost before = self.positions@;
        self.positions.remove(idx);
        proof {
            assert(self.node_list() =~= old_nodes.remove(idx as int));
        }
        let mut kept: Vec<(u64, String)> = Vec::new();
        let mut k: usize = 0;
        while k < self.ring.len()
            invariant
                k <= self.ring@.len(),
                old_ring == self.ring_view(),
                kept@.map_values(|e: (u64, String)| (e.0, e.1@)) == old_ring.take(k as int).filter(
                    not_owned_by(node_id@),
                ),
                forall|i: int| 0 <= i < old_ring.len() ==> old_nodes.contains(#[trigger] old_ring[i].1),
                forall|j: int|
                    0 <= j < kept@.len() ==> old_nodes.contains(#[trigger] kept@[j].1@) && kept@[j].1@
                        != node_id@,
            decreases self.ring@.len() - k,
        {
            let ghost kv = kept@;
            proof {
                assert(old_ring.take(k + 1) =~= old_ring.take(k as int).push(old_ring[k as int]));
                old_ring.take(k as int).lemma_filter_push(old_ring[k as int], not_owned_by(node_id@));
            }
            if !str_equals(self.ring[k].1.as_str(), node_id) {
                let entry = (self.ring[k].0, self.ring[k].1.clone());
                proof {
                    assert(old_ring[k as int].1 == self.ring@[k as int].1@);
                    assert(old_nodes.contains(old_ring[k as int].1));
                }
                kept.push(entry);
                proof {
                    assert(kept@.map_values(|e: (u64, String)| (e.0, e.1@)) =~= kv.map_values(
                        |e: (u64, String)| (e.0, e.1@),
                    ).push(old_ring[k as int]));
                }
            }
            k = k + 1;
        }
        proof {
            assert(old_ring.take(old_ring.len() as int) =~= old_ring);
        }
        self.ring = kept;
        self.sorted_ring = Self::rebuild_sorted(&self.ring);
        proof {
            let nodes = self.node_list();
            let ring = self.ring_view();
            let p = not_owned_by(node_id@);
            assert(ring == old_ring.filter(p));
            broadcast use vstd::seq_lib::group_filter_ensures;
            assert(nodes.no_duplicates()) by {
                assert forall|a: int, b: int| 0 <= a < b < nodes.len() implies nodes[a] != nodes[b] by {
                    let oa = if a < idx { a } else { a + 1 };
                    let ob = if b < idx { b } else { b + 1 };
                    assert(nodes[a] == old_nodes[oa]);
                    assert(nodes[b] == old_nodes[ob]);
                }
            }
            assert forall|j: int| 0 <= j < ring.len() implies nodes.contains(#[trigger] ring[j].1) by {
                assert(ring[j].1 == self.ring@[j].1@);
                assert(old_nodes.contains(ring[j].1));
                let m = choose|m: int| 0 <= m < old_nodes.len() && old_nodes[m] == ring[j].1;
                assert(m != idx);
                if m < idx {
                    assert(nodes[m] == old_nodes[m]);
                } else {
                    assert(nodes[m - 1] == old_nodes[m]);
                }
            }
            if self.virtual_nodes > 0 {
                assert forall|m: int| 0 <= m < nodes.len() implies #[trigger] has_point(ring, nodes[m]) by {
                    let om = if m < idx { m } else { m + 1 };
                    assert(nodes[m] == old_nodes[om]);
                    assert(has_point(old_ring, old_nodes[om]));
                    let w = choose|w: int| 0 <= w < old_ring.len() && old_ring[w].1 == old_nodes[om];
                    assert(old_nodes[om] != node_id@);
                    old_ring.lemma_filter_contains(p, w);
                    let v = choose|v: int| 0 <= v < ring.len() && ring[v] == old_ring[w];
                }
            }
            assert forall|j: int| 0 <= j < self.positions@.len() implies #[trigger] self.positions@[j].1@.len()
                == self.virtual_nodes by {
                let oj = if j < idx { j } else { j + 1 };
                assert(self.positions@[j] == before[oj]);
            }
        }
    }

    /// The index of the sorted point where a lookup for `hash` starts.
    fn start_position(&self, hash: u64) -> (r: usize)
        requires
            self.well_formed(),
            self.sorted_view().len() > 0,
        ensures
            r < self.sorted_view().len(),
            r == start_index(self.sorted_view(), hash),
            is_successor(hashes_of(self.ring_view()), hash, self.sorted_view()[r as int]),
    {
        let sorted = &self.sorted_ring;
        let lb = Self::lower_bound(sorted, hash);
        let pos = if lb >= sorted.len() { 0 } else { lb };
        proof {
            lemma_lower_bound_successor(sorted@, hashes_of(self.ring_view()), hash, lb as int);
        }
        pos
    }

    /// The node that a hash value routes to.
    pub fn get_by_hash(&self, hash: u64) -> (r: Option<&str>)
        requires
            self.well_formed(),
        ensures
            self.ring_view().len() == 0 ==> r is None,
            self.ring_view().len() > 0 ==> (r matches Some(s) && s@ == owner_at(
                self.ring_view(),
                hash,
            )),
            r matches Some(s) ==> self.node_list().contains(s@),
    {
        proof {
            self.lemma_well_formed();
        }
        if self.sorted_ring.len() == 0 {
            return None;
        }
        let pos = self.start_position(hash);
        let target = self.sorted_ring[pos];
        let ghost ring = self.ring_view();
        let ghost hs = hashes_of(ring);
        proof {
            lemma_successor_unique(hs, hash, target);
        }
        let mut i: usize = 0;
        while i < self.ring.len()
            invariant
                ring == self.ring_view(),
                hs == hashes_of(ring),
                successor(hs, hash) == target,
                i <= ring.len(),
                first_with_hash(ring, target, 0) == first_with_hash(ring, target, i as int),
                forall|j: int| 0 <= j < i ==> ring[j].0 != target,
                forall|j: int| 0 <= j < ring.len() ==> self.node_list().contains(#[trigger] ring[j].1),
            decreases ring.len() - i,
        {
            proof {
                assert(ring[i as int] == (self.ring@[i as int].0, self.ring@[i as int].1@));
            }
            if self.ring[i].0 == target {
                return Some(self.ring[i].1.as_str());
            }
            i = i + 1;
        }
        proof {
            assert(hs.contains(target));
            let j = choose|j: int| 0 <= j < hs.len() && hs[j] == target;
            assert(ring[j].0 == target);
        }
        None
    }

    /// The node that a key routes to.
    pub fn get(&self, key: &str) -> (r: Option<&str>)
        requires
            self.well_formed(),
        ensures
            self.ring_view().len() == 0 ==> r is None,
            self.ring_view().len() > 0 ==> (r matches Some(s) && exists|h: u64|
                s@ == owner_at(self.ring_view(), h)),
            r matches Some(s) ==> self.node_list().contains(s@),
    {
        if self.ring.len() == 0 {
            return None;
        }
        let hash = ahash_bytes(key.as_bytes());
        self.get_by_hash(hash)
    }

    /// Up to `n` distinct nodes for a key, for replication: the owners met
    /// walking the sorted points from the key's successor on.
    pub fn get_n(&self, key: &str, n: usize) -> (r: Vec<&str>)
        requires
            self.well_formed(),
        ensures
            self.ring_view().len() == 0 ==> r@.len() == 0,
            self.ring_view().len() > 0 ==> exists|h: u64|
                str_views(r@) == walk(
                    self.ring_view(),
                    self.sorted_view(),
                    start_index(self.sorted_view(), h),
                    n as nat,
                    self.node_list().len(),
                    self.sorted_view().len(),
                    Seq::<Seq<char>>::empty(),
                ),
            str_views(r@).no_duplicates(),
            forall|i: int| 0 <= i < r@.len() ==> self.node_list().contains(#[trigger] r@[i]@),
            r@.len() <= n,
            r@.len() <= self.node_list().len(),
            self.vnodes() > 0 ==> r@.len() == if n < self.node_list().len() {
                n as nat
            } else {
                self.node_list().len()
            },
    {
        if self.ring.len() == 0 {
            let r: Vec<&str> = Vec::new();
            proof {
                assert(str_views(r@) =~= Seq::<Seq<char>>::empty());
                if self.vnodes() > 0 {
                    self.lemma_points_iff_nodes();
                }
            }
            return r;
        }
        let hash = ahash_bytes(key.as_bytes());
        self.get_n_by_hash(hash, n)
    }

    /// Up to `n` distinct nodes for a hash value, for replication: the owners
    /// met walking the sorted points from the successor of `hash` on. The
    /// first of them, when there is one, is the node that `hash` routes to.
    pub fn get_n_by_hash(&self, hash: u64, n: usize) -> (r: Vec<&str>)
        requires
            self.well_formed(),
        ensures
            self.ring_view().len() == 0 ==> r@.len() == 0,
            self.ring_view().len() > 0 ==> str_views(r@) == walk(
                self.ring_view(),
                self.sorted_view(),
                start_index(self.sorted_view(), hash),
                n as nat,
                self.node_list().len(),
                self.sorted_view().len(),
                Seq::<Seq<char>>::empty(),
            ),
            self.ring_view().len() > 0 && n >= 1 ==> r@.len() >= 1 && r@[0]@ == owner_at(
                self.ring_view(),
                hash,
            ),
            str_views(r@).no_duplicates(),
            forall|i: int| 0 <= i < r@.len() ==> self.node_list().contains(#[trigger] r@[i]@),
            r@.len() <= n,
            r@.len() <= self.node_list().len(),
            self.vnodes() > 0 ==> r@.len() == if n < self.node_list().len() {
                n as nat
            } else {
                self.node_list().len()
            },
    {
        let mut result: Vec<&str> = Vec::new();
        if self.ring.len() == 0 {
            proof {
                assert(str_views(result@) =~= Seq::<Seq<char>>::empty());
                if self.vnodes() > 0 {
                    self.lemma_points_iff_nodes();
                }
            }
            return result;
        }
        proof {
            self.lemma_well_formed();
        }
        let total_nodes = self.positions.len();
        let ghost ring = self.ring_view();
        let ghost sorted = self.sorted_view();
        let ghost nodes = self.node_list();
        let len = self.sorted_ring.len();
        let start = self.start_position(hash);
        let ghost target_walk = walk(ring, sorted, start as int, n as nat, nodes.len(), len as nat, Seq::<Seq<char>>::empty());
        let mut current = start;
        let mut steps: usize = 0;
        proof {
            assert(str_views(result@) =~= Seq::<Seq<char>>::empty());
        }
        while result.len() < n && result.len() < total_nodes && steps < len
            invariant
                ring == self.ring_view(),
                sorted == self.sorted_view(),
                nodes == self.node_list(),
                total_nodes == nodes.len(),
                len == sorted.len(),
                len > 0,
                ring_shape(ring, nodes, sorted, self.vnodes()),
                current < len,
                steps <= len,
                target_walk == walk(ring, sorted, current as int, n as nat, nodes.len(), (len - steps) as nat, str_views(result@)),
                str_views(result@).no_duplicates(),
                forall|i: int| 0 <= i < result@.len() ==> nodes.contains(#[trigger] result@[i]@),
                result@.len() <= n,
                result@.len() <= total_nodes,
            decreases len - steps,
        {
            let target = self.sorted_ring[current];
            let ghost acc = str_views(result@);
            let mut found: Option<&str> = None;
            let mut i: usize = 0;
            while i < self.ring.len()
                invariant_except_break
                    found is None,
                    first_unseen(ring, target, acc, 0) == first_unseen(ring, target, acc, i as int),
                invariant
                    ring == self.ring_view(),
                    acc == str_views(result@),
                    i <= ring.len(),
                ensures
                    found is None ==> first_unseen(ring, target, acc, 0) is None,
                    found matches Some(f) ==> first_unseen(ring, target, acc, 0) == Some(f@),
                decreases ring.len() - i,
            {
                proof {
                    assert(ring[i as int] == (self.ring@[i as int].0, self.ring@[i as int].1@));
                }
                let node_str = self.ring[i].1.as_str();
                if self.ring[i].0 == target && !contains_str(&result, node_str) {
                    proof {
                        assert(first_unseen(ring, target, acc, i as int) == Some(node_str@));
                    }
                    found = Some(node_str);
                    break;
                }
                i = i + 1;
            }
            let ghost prev = result@;
            let ghost next = match first_unseen(ring, target, acc, 0) {
                Some(node) => acc.push(node),
                None => acc,
            };
            proof {
                assert(target_walk == walk(ring, sorted, ((current + 1) % (len as int)) as int, n as nat, nodes.len(), (len - steps - 1) as nat, next));
            }
            match found {
                Some(node) => {
                    proof {
                        lemma_first_unseen_props(ring, target, acc, 0);
                    }
                    result.push(node);
                    proof {
                        assert(str_views(result@) =~= acc.push(node@));
                        assert forall|a: int, b: int| 0 <= a < b < result@.len() implies str_views(result@)[a] != str_views(result@)[b] by {
                            if b == result@.len() - 1 {
                                assert(acc.contains(acc[a]));
                            }
                        }
                        assert(nodes.contains(node@));
                        assert forall|k: int| 0 <= k < result@.len() implies nodes.contains(#[trigger] result@[k]@) by {
                            if k < prev.len() {
                                assert(result@[k] == prev[k]);
                            }
                        }
                        lemma_distinct_members_bound(str_views(result@), nodes);
                    }
                },
                None => {},
            }
            let ghost old_current = current;
            current = if current + 1 < len { current + 1 } else { 0 };
            proof {
                if old_current + 1 < len {
                    vstd::arithmetic::div_mod::lemma_small_mod((old_current + 1) as nat, len as nat);
                } else {
                    vstd::arithmetic::div_mod::lemma_mod_self_0(len as int);
                }
                assert(current as int == (old_current + 1) % (len as int));
                assert(str_views(result@) == next);
            }
            steps = steps + 1;
        }
        proof {
            if self.vnodes() > 0 {
                lemma_full_lap_collects(ring, nodes, sorted, self.vnodes(), start as int, n as nat);
                assert(str_views(result@) == target_walk);
            }
            if n >= 1 {
                self.lemma_first_replica_is_primary(hash, n as nat);
                assert(str_views(result@)[0] == result@[0]@);
            }
        }
        result
    }

    /// Replicas and routing agree: for every hash value and every `n` of at
    /// least one, on a ring with points, the first node of the walk that
    /// picks replicas from the hash's place is the node the hash routes to.
    pub proof fn lemma_first_replica_is_primary(&self, h: u64, n: nat)
        requires
            self.well_formed(),
            self.ring_view().len() > 0,
            n >= 1,
        ensures
            ({
                let w = walk(
                    self.ring_view(),
                    self.sorted_view(),
                    start_index(self.sorted_view(), h),
                    n,
                    self.node_list().len(),
                    self.sorted_view().len(),
                    Seq::<Seq<char>>::empty(),
                );
                w.len() >= 1 && w[0] == owner_at(self.ring_view(), h)
            }),
    {
        self.lemma_well_formed();
        let rv = self.ring_view();
        let s = self.sorted_view();
        let nodes = self.node_list();
        let hs = hashes_of(rv);
        let lb = lemma_lower_bound_exists(s, h, 0);
        lemma_lower_bound_successor(s, hs, h, lb);
        let pos = start_index(s, h);
        let t = s[pos];
        lemma_successor_unique(hs, h, t);
        let w = choose|w: int| 0 <= w < hs.len() && hs[w] == t;
        assert(rv[w].0 == t);
        lemma_first_with_hash_found(rv, t, 0, w);
        lemma_first_unseen_empty(rv, t, 0);
        assert(nodes.contains(rv[0].1));
        let owner = rv[first_with_hash(rv, t, 0).unwrap()].1;
        let acc = Seq::<Seq<char>>::empty().push(owner);
        let len = s.len();
        assert(walk(rv, s, pos, n, nodes.len(), len, Seq::<Seq<char>>::empty()) == walk(
            rv,
            s,
            (pos + 1) % (len as int),
            n,
            nodes.len(),
            (len - 1) as nat,
            acc,
        ));
        lemma_walk_keeps_prefix(rv, s, (pos + 1) % (len as int), n, nodes.len(), (len - 1) as nat, acc);
    }

    /// Every node, in the order the nodes were added.
    pub fn nodes(&self) -> (r: Vec<&str>)
        ensures
            str_views(r@) == self.node_list(),
    {
        let mut r: Vec<&str> = Vec::new();
        let mut i: usize = 0;
        while i < self.positions.len()
            invariant
                i <= self.positions@.len(),
                str_views(r@) == self.node_list().take(i as int),
            decreases self.positions@.len() - i,
        {
            r.push(self.positions[i].0.as_str());
            proof {
                assert(self.node_list().take(i + 1) =~= self.node_list().take(i as int).push(self.positions@[i as int].0@));
                assert(str_views(r@) =~= self.node_list().take(i + 1));
            }
            i = i + 1;
        }
        assert(self.node_list().take(i as int) =~= self.node_list());
        r
    }

    /// Whether the ring has no points.
    pub fn is_empty(&self) -> (b: bool)
        ensures
            b <==> self.ring_view().len() == 0,
    {
        self.ring.len() == 0
    }

    /// The number of nodes.
    pub fn len(&self) -> (n: usize)
        ensures
            n == self.node_list().len(),
    {
        self.positions.len()
    }
}

impl Default for HashRing {
    fn default() -> (r: Self)
        ensures
            r.well_formed(),
            r.vnodes() == 150,
            r.ring_view().len() == 0,
            r.node_list().len() == 0,
    {
        Self::new()
    }
}

/// Whether a vector of string slices holds `s`.
pub fn contains_str(v: &Vec<&str>, s: &str) -> (b: bool)
    ensures
        b <==> str_views(v@).contains(s@),
{
    let mut i: usize = 0;
    while i < v.len()
        invariant
            i <= v@.len(),
            forall|j: int| 0 <= j < i ==> v@[j]@ != s@,
        decreases v@.len() - i,
    {
        if str_equals(v[i], s) {
            proof {
                assert(str_views(v@)[i as int] == s@);
            }
            return true;
        }
        i = i + 1;
    }
    proof {
        if str_views(v@).contains(s@) {
            let j = choose|j: int| 0 <= j < v@.len() && str_views(v@)[j] == s@;
        }
    }
    false
}

/// Two sequences with the same multiset hold the same values.
pub proof fn lemma_same_values(s: Seq<u64>, hs: Seq<u64>)
    requires
        s.to_multiset() == hs.to_multiset(),
    ensures
        forall|x: u64| s.contains(x) <==> hs.contains(x),
{
    assert forall|x: u64| s.contains(x) <==> hs.contains(x) by {
        assert(s.contains(x) <==> s.to_multiset().count(x) > 0);
        assert(hs.contains(x) <==> hs.to_multiset().count(x) > 0);
    }
}

/// The lower bound of `h` in the sorted points, wrapped to 0, is where a
/// lookup starts, and the point there is the successor of `h`.
pub proof fn lemma_lower_bound_successor(s: Seq<u64>, hs: Seq<u64>, h: u64, lb: int)
    requires
        is_sorted(s),
        s.to_multiset() == hs.to_multiset(),
        s.len() > 0,
        0 <= lb <= s.len(),
        forall|j: int| 0 <= j < lb ==> s[j] < h,
        forall|j: int| lb <= j < s.len() ==> s[j] >= h,
    ensures
        ({
            let pos = if lb >= s.len() { 0 } else { lb };
            &&& start_index(s, h) == pos
            &&& is_successor(hs, h, s[pos])
        }),
{
    lemma_same_values(s, hs);
    let pos = if lb >= s.len() { 0 } else { lb };
    if lb < s.len() {
        assert(exists|i: int|
            0 <= i < s.len() && s[i] >= h && forall|j: int| 0 <= j < i ==> s[j] < h) by {
            assert(0 <= lb < s.len() && s[lb] >= h && forall|j: int| 0 <= j < lb ==> s[j] < h);
        }
        let first = choose|i: int|
            0 <= i < s.len() && s[i] >= h && forall|j: int| 0 <= j < i ==> s[j] < h;
        assert(first == lb) by {
            if first < lb {
                assert(s[first] < h);
            }
            if lb < first {
                assert(s[lb] < h);
            }
        }
    }
    let t = s[pos];
    assert(s.contains(t));
    assert forall|i: int| 0 <= i < hs.len() implies (hs[i] >= h ==> t <= hs[i]) && (lb
        >= s.len() ==> t <= hs[i]) by {
        assert(hs.contains(hs[i]));
        let j = choose|j: int| 0 <= j < s.len() && s[j] == hs[i];
        if hs[i] >= h {
            assert(j >= lb);
        }
    }
    if exists|i: int| 0 <= i < hs.len() && hs[i] >= h {
        let i = choose|i: int| 0 <= i < hs.len() && hs[i] >= h;
        assert(hs.contains(hs[i]));
        let j = choose|j: int| 0 <= j < s.len() && s[j] == hs[i];
        assert(lb < s.len());
    }
}

/// Two points that are both successors of `h` are the same point.
pub proof fn lemma_successor_unique(hs: Seq<u64>, h: u64, t: u64)
    requires
        is_successor(hs, h, t),
    ensures
        is_successor(hs, h, successor(hs, h)),
        successor(hs, h) == t,
{
    let c = successor(hs, h);
    assert(is_successor(hs, h, c));
    let i = choose|i: int| 0 <= i < hs.len() && hs[i] == t;
    let j = choose|j: int| 0 <= j < hs.len() && hs[j] == c;
}

/// What the owner found by `first_unseen` is: the owner of a point with hash
/// `t` that has not been seen yet.
pub proof fn lemma_first_unseen_props(
    ring: Seq<(u64, Seq<char>)>,
    t: u64,
    seen: Seq<Seq<char>>,
    k: int,
)
    ensures
        first_unseen(ring, t, seen, k) matches Some(node) ==> !seen.contains(node) && exists|i: int|
            0 <= i < ring.len() && ring[i].0 == t && ring[i].1 == node,
    decreases ring.len() - k,
{
    if 0 <= k < ring.len() && !(ring[k].0 == t && !seen.contains(ring[k].1)) {
        lemma_first_unseen_props(ring, t, seen, k + 1);
    }
}

/// In a sorted sequence the values below `h` form a prefix; its length
/// exists once every value before index `k` is below `h`.
pub proof fn lemma_lower_bound_exists(s: Seq<u64>, h: u64, k: int) -> (lb: int)
    requires
        is_sorted(s),
        0 <= k <= s.len(),
        forall|j: int| 0 <= j < k ==> s[j] < h,
    ensures
        0 <= lb <= s.len(),
        forall|j: int| 0 <= j < lb ==> s[j] < h,
        forall|j: int| lb <= j < s.len() ==> s[j] >= h,
    decreases s.len() - k,
{
    if k == s.len() || s[k] >= h {
        k
    } else {
        lemma_lower_bound_exists(s, h, k + 1)
    }
}

/// With nothing seen yet, the first unseen owner at hash `t` is the owner of
/// the first point with hash `t`.
pub proof fn lemma_first_unseen_empty(ring: Seq<(u64, Seq<char>)>, t: u64, k: int)
    ensures
        first_unseen(ring, t, Seq::<Seq<char>>::empty(), k) == match first_with_hash(ring, t, k) {
            Some(i) => Some(ring[i].1),
            None => None,
        },
    decreases ring.len() - k,
{
    if 0 <= k < ring.len() && ring[k].0 != t {
        lemma_first_unseen_empty(ring, t, k + 1);
    }
}

/// A point with hash `t` at index `w` or later is found from index `k`.
pub proof fn lemma_first_with_hash_found(ring: Seq<(u64, Seq<char>)>, t: u64, k: int, w: int)
    requires
        0 <= k <= w < ring.len(),
        ring[w].0 == t,
    ensures
        first_with_hash(ring, t, k) is Some,
    decreases w - k,
{
    if ring[k].0 != t {
        lemma_first_with_hash_found(ring, t, k + 1, w);
    }
}

/// A walk only appends to what it has collected.
pub proof fn lemma_walk_keeps_prefix(
    ring: Seq<(u64, Seq<char>)>,
    sorted: Seq<u64>,
    pos: int,
    n: nat,
    total: nat,
    steps: nat,
    acc: Seq<Seq<char>>,
)
    ensures
        walk(ring, sorted, pos, n, total, steps, acc).len() >= acc.len(),
        forall|i: int| 0 <= i < acc.len() ==> #[trigger] walk(ring, sorted, pos, n, total, steps, acc)[i] == acc[i],
    decreases steps,
{
    if !(acc.len() >= n || acc.len() >= total || steps == 0 || sorted.len() == 0) {
        let next = match first_unseen(ring, sorted[pos], acc, 0) {
            Some(node) => acc.push(node),
            None => acc,
        };
        lemma_walk_keeps_prefix(ring, sorted, (pos + 1) % (sorted.len() as int), n, total, (steps - 1) as nat, next);
        assert forall|i: int| 0 <= i < acc.len() implies next[i] == acc[i] by {}
    }
}

/// A sequence without duplicates whose elements all occur in `nodes` is no longer than `nodes`.
pub proof fn lemma_distinct_members_bound(s: Seq<Seq<char>>, nodes: Seq<Seq<char>>)
    requires
        s.no_duplicates(),
        forall|i: int| 0 <= i < s.len() ==> nodes.contains(#[trigger] s[i]),
    ensures
        s.len() <= nodes.len(),
{
    s.unique_seq_to_set();
    nodes.lemma_cardinality_of_set();
    vstd::seq_lib::seq_to_set_is_finite(nodes);
    assert(s.to_set().subset_of(nodes.to_set()));
    vstd::set_lib::lemma_len_subset(s.to_set(), nodes.to_set());
}

} // verus!
