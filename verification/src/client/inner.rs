//! What a connection knows of its client: its id, its address, the titles it
//! subscribes to, the transport it came by, and when it was last heard from.
//!
//! Titles are written as one text separated by `;`; empty pieces are
//! skipped.

use vstd::prelude::*;

use crate::bridge::random::new_uuid;
use crate::bridge::text::{lowercase_text, str_to_lowercase, string_from_chars};
use crate::net::{IpAddress, SocketAddress};
use crate::text::{char_end, chars_of, first_char_at, str_equals};
use crate::utils::now_secs;

verus! {

/// The non-empty `;`-separated pieces of a text, in order.
pub open spec fn title_parts(t: Seq<char>) -> Seq<Seq<char>>
    decreases t.len(),
{
    let i = char_end(t, ';');
    let p = t.subrange(0, i);
    let rest = if 0 <= i < t.len() {
        title_parts(t.skip(i + 1))
    } else {
        Seq::empty()
    };
    if p.len() > 0 {
        seq![p] + rest
    } else {
        rest
    }
}

/// Titles joined by `;`.
pub open spec fn join_titles(ts: Seq<Seq<char>>) -> Seq<char>
    decreases ts.len(),
{
    if ts.len() == 0 {
        Seq::empty()
    } else if ts.len() == 1 {
        ts[0]
    } else {
        ts[0] + ";"@ + join_titles(ts.drop_first())
    }
}

/// The titles after adding each piece that is not there yet, in order.
pub open spec fn insert_all(ts: Seq<Seq<char>>, ps: Seq<Seq<char>>) -> Seq<Seq<char>>
    decreases ps.len(),
{
    if ps.len() == 0 {
        ts
    } else {
        let base = insert_all(ts, ps.drop_last());
        if base.contains(ps.last()) {
            base
        } else {
            base.push(ps.last())
        }
    }
}

/// The predicate that keeps every title but `t`.
pub open spec fn other_than(t: Seq<char>) -> spec_fn(Seq<char>) -> bool {
    |x: Seq<char>| x != t
}

/// The texts of strings.
pub open spec fn string_texts(v: Seq<String>) -> Seq<Seq<char>> {
    v.map_values(|s: String| s@)
}

/// A client as plain values.
#[verifier::ext_equal]
pub ghost struct ClientView {
    pub id: u128,
    pub local_addr: SocketAddress,
    pub titles: Seq<Seq<char>>,
    pub transport_label: Option<Seq<char>>,
    pub connected_at: u64,
    pub last_recv: u64,
}

/// What a connection knows of its client.
#[derive(Debug, Clone)]
pub struct RexClientInner {
    id: u128,
    local_addr: SocketAddress,
    subscribed_titles: Vec<String>,
    transport_label: Option<String>,
    connected_at: u64,
    last_recv: u64,
}

/// The pieces of `v[lo..]`.
fn parts_from(v: &[char], lo: usize) -> (r: Vec<String>)
    requires
        lo <= v@.len(),
    ensures
        string_texts(r@) == title_parts(v@.subrange(lo as int, v@.len() as int)),
    decreases v@.len() - lo,
{
    let ghost t = v@.subrange(lo as int, v@.len() as int);
    let i = find_end(v, lo);
    let mut out: Vec<String> = Vec::new();
    if i > lo {
        out.push(string_from_chars(&v[lo..i]));
    }
    proof {
        assert(t.subrange(0, i - lo) =~= v@.subrange(lo as int, i as int));
    }
    if i < v.len() {
        let mut rest = parts_from(v, i + 1);
        proof {
            assert(t.skip(i - lo + 1) =~= v@.subrange(i + 1, v@.len() as int));
        }
        let ghost head = out@;
        out.append(&mut rest);
        proof {
            assert(string_texts(out@) =~= string_texts(head) + title_parts(t.skip(i - lo + 1)));
            if i > lo {
                assert(string_texts(head) =~= seq![v@.subrange(lo as int, i as int)]);
            } else {
                assert(string_texts(head) =~= Seq::<Seq<char>>::empty());
            }
        }
    } else {
        proof {
            if i > lo {
                assert(string_texts(out@) =~= seq![v@.subrange(lo as int, i as int)]);
            } else {
                assert(string_texts(out@) =~= Seq::<Seq<char>>::empty());
            }
        }
    }
    out
}

fn find_end(v: &[char], lo: usize) -> (r: usize)
    requires
        lo <= v@.len(),
    ensures
        lo <= r <= v@.len(),
        r - lo == char_end(v@.subrange(lo as int, v@.len() as int), ';'),
{
    crate::text::find_char(v, lo, ';')
}

/// The non-empty `;`-separated titles of a text.
pub fn split_titles(title: &str) -> (r: Vec<String>)
    ensures
        string_texts(r@) == title_parts(title@),
{
    let v = chars_of(title);
    assert(v@.subrange(0, v@.len() as int) =~= title@);
    parts_from(v.as_slice(), 0)
}

/// Whether a title is among the titles.
fn contains_title(ts: &Vec<String>, t: &str) -> (r: bool)
    ensures
        r == string_texts(ts@).contains(t@),
{
    let mut i: usize = 0;
    while i < ts.len()
        invariant
            i <= ts@.len(),
            forall|j: int| 0 <= j < i ==> ts@[j]@ != t@,
        decreases ts@.len() - i,
    {
        if str_equals(ts[i].as_str(), t) {
            assert(string_texts(ts@)[i as int] == t@);
            return true;
        }
        i = i + 1;
    }
    assert forall|j: int| 0 <= j < string_texts(ts@).len() implies string_texts(ts@)[j] != t@ by {
        assert(ts@[j]@ != t@);
    }
    false
}

impl RexClientInner {
    /// The client as plain values.
    pub closed spec fn view(&self) -> ClientView {
        ClientView {
            id: self.id,
            local_addr: self.local_addr,
            titles: string_texts(self.subscribed_titles@),
            transport_label: match self.transport_label {
                Some(l) => Some(l@),
                None => None,
            },
            connected_at: self.connected_at,
            last_recv: self.last_recv,
        }
    }

    /// A client connected at time `now` (seconds), subscribed to the
    /// non-empty `;`-separated titles of `title`.
    pub fn new_at(id: u128, local_addr: SocketAddress, title: &str, now: u64) -> (r: Self)
        ensures
            r.view() == (ClientView {
                id,
                local_addr,
                titles: title_parts(title@),
                transport_label: None,
                connected_at: now,
                last_recv: now,
            }),
    {
        RexClientInner {
            id,
            local_addr,
            subscribed_titles: split_titles(title),
            transport_label: None,
            connected_at: now,
            last_recv: now,
        }
    }

    /// A client connected now.
    pub fn new(id: u128, local_addr: SocketAddress, title: &str) -> (r: Self)
        ensures
            r.view().id == id,
            r.view().local_addr == local_addr,
            r.view().titles == title_parts(title@),
            r.view().transport_label is None,
            r.view().connected_at == r.view().last_recv,
    {
        Self::new_at(id, local_addr, title, now_secs())
    }

    /// A client with a fresh random id and no address, connected now.
    pub fn from_title(title: &str) -> (r: Self)
        ensures
            r.view().local_addr == (SocketAddress { ip: IpAddress::V4(0, 0, 0, 0), port: 0, scope_id: 0 }),
            r.view().titles == title_parts(title@),
            r.view().transport_label is None,
            r.view().connected_at == r.view().last_recv,
    {
        Self::new_at(new_uuid(), SocketAddress::v4(0, 0, 0, 0, 0), title, now_secs())
    }

    /// The id.
    pub fn id(&self) -> (r: u128)
        ensures
            r == self.view().id,
    {
        self.id
    }

    /// Replaces the id.
    pub fn set_id(&mut self, id: u128)
        ensures
            final(self).view() == (ClientView { id, ..old(self).view() }),
    {
        self.id = id;
    }

    /// Records the transport the client came by, in lowercase.
    pub fn set_transport_label(&mut self, label: &str)
        ensures
            final(self).view() == (ClientView {
                transport_label: Some(lowercase_text(label@)),
                ..old(self).view()
            }),
    {
        self.transport_label = Some(str_to_lowercase(label));
    }

    /// The transport the client came by, or `unknown`.
    pub fn transport_label(&self) -> (r: String)
        ensures
            match self.view().transport_label {
                Some(l) => r@ == l,
                None => r@ == "unknown"@,
            },
    {
        match &self.transport_label {
            Some(l) => l.clone(),
            None => String::from_str("unknown"),
        }
    }

    /// The subscribed titles, in order.
    pub fn subscribed_titles(&self) -> (r: Vec<String>)
        ensures
            string_texts(r@) == self.view().titles,
    {
        let mut out: Vec<String> = Vec::new();
        let mut i: usize = 0;
        while i < self.subscribed_titles.len()
            invariant
                i <= self.subscribed_titles@.len(),
                string_texts(out@) == string_texts(self.subscribed_titles@).take(i as int),
            decreases self.subscribed_titles@.len() - i,
        {
            let ghost before = out@;
            out.push(self.subscribed_titles[i].clone());
            assert(string_texts(out@) =~= string_texts(before).push(self.subscribed_titles@[i as int]@));
            assert(string_texts(self.subscribed_titles@).take(i + 1) =~= string_texts(
                self.subscribed_titles@,
            ).take(i as int).push(self.subscribed_titles@[i as int]@));
            i = i + 1;
        }
        assert(string_texts(self.subscribed_titles@).take(i as int) =~= string_texts(
            self.subscribed_titles@,
        ));
        out
    }

    /// The subscribed titles, in order.
    pub fn title_iter(&self) -> (r: Vec<String>)
        ensures
            string_texts(r@) == self.view().titles,
    {
        self.subscribed_titles()
    }

    /// When the client connected, in seconds since the Unix epoch.
    pub fn connected_at(&self) -> (r: u64)
        ensures
            r == self.view().connected_at,
    {
        self.connected_at
    }

    /// The titles joined by `;`.
    pub fn title_str(&self) -> (r: String)
        ensures
            r@ == join_titles(self.view().titles),
    {
        let ts = &self.subscribed_titles;
        let ghost all = string_texts(ts@);
        let mut out = String::new();
        let mut i: usize = ts.len();
        proof {
            assert(all.skip(i as int) =~= Seq::<Seq<char>>::empty());
        }
        while i > 0
            invariant
                i <= ts@.len(),
                all == string_texts(ts@),
                out@ == join_titles(all.skip(i as int)),
            decreases i,
        {
            let ghost rest = all.skip(i as int);
            i = i - 1;
            proof {
                assert(all.skip(i as int).drop_first() =~= rest);
                assert(all.skip(i as int)[0] == ts@[i as int]@);
            }
            if i + 1 < ts.len() {
                let mut s = ts[i].clone();
                s.append(";");
                s.append(out.as_str());
                out = s;
            } else {
                out = ts[i].clone();
            }
        }
        assert(all.skip(0) =~= all);
        out
    }

    /// Subscribes to each non-empty `;`-separated piece of `title` that is
    /// not subscribed yet, in order.
    pub fn insert_title(&mut self, title: &str)
        ensures
            final(self).view() == (ClientView {
                titles: insert_all(old(self).view().titles, title_parts(title@)),
                ..old(self).view()
            }),
    {
        let parts = split_titles(title);
        let ghost ps = string_texts(parts@);
        let ghost t0 = string_texts(self.subscribed_titles@);
        let mut i: usize = 0;
        while i < parts.len()
            invariant
                i <= parts@.len(),
                ps == string_texts(parts@),
                string_texts(self.subscribed_titles@) == insert_all(t0, ps.take(i as int)),
                self.id == old(self).id,
                self.local_addr == old(self).local_addr,
                self.transport_label == old(self).transport_label,
                self.connected_at == old(self).connected_at,
                self.last_recv == old(self).last_recv,
                t0 == string_texts(old(self).subscribed_titles@),
            decreases parts@.len() - i,
        {
            proof {
                assert(ps.take(i + 1).drop_last() =~= ps.take(i as int));
                assert(ps.take(i + 1).last() == parts@[i as int]@);
            }
            if !contains_title(&self.subscribed_titles, parts[i].as_str()) {
                let ghost before = self.subscribed_titles@;
                self.subscribed_titles.push(parts[i].clone());
                assert(string_texts(self.subscribed_titles@) =~= string_texts(before).push(
                    parts@[i as int]@,
                ));
            }
            i = i + 1;
        }
        assert(ps.take(ps.len() as int) =~= ps);
    }

    /// Unsubscribes from `title` (taken whole, not split).
    pub fn remove_title(&mut self, title: &str)
        ensures
            final(self).view() == (ClientView {
                titles: old(self).view().titles.filter(other_than(title@)),
                ..old(self).view()
            }),
    {
        let ghost t0 = string_texts(self.subscribed_titles@);
        let mut kept: Vec<String> = Vec::new();
        let mut i: usize = 0;
        while i < self.subscribed_titles.len()
            invariant
                i <= self.subscribed_titles@.len(),
                t0 == string_texts(self.subscribed_titles@),
                string_texts(kept@) == t0.take(i as int).filter(other_than(title@)),
            decreases self.subscribed_titles@.len() - i,
        {
            proof {
                reveal(Seq::filter);
                assert(t0.take(i + 1).drop_last() =~= t0.take(i as int));
                assert(t0.take(i + 1).last() == self.subscribed_titles@[i as int]@);
            }
            if !str_equals(self.subscribed_titles[i].as_str(), title) {
                let ghost before = kept@;
                kept.push(self.subscribed_titles[i].clone());
                assert(string_texts(kept@) =~= string_texts(before).push(
                    self.subscribed_titles@[i as int]@,
                ));
            }
            i = i + 1;
        }
        assert(t0.take(t0.len() as int) =~= t0);
        self.subscribed_titles = kept;
    }

    /// Whether the client subscribes to `title`.
    pub fn has_title(&self, title: &str) -> (r: bool)
        ensures
            r == self.view().titles.contains(title@),
    {
        contains_title(&self.subscribed_titles, title)
    }

    /// Records that the client was heard from at time `now` (seconds).
    pub fn update_last_recv_at(&mut self, now: u64)
        ensures
            final(self).view() == (ClientView { last_recv: now, ..old(self).view() }),
    {
        self.last_recv = now;
    }

    /// Records that the client was heard from now.
    pub fn update_last_recv(&mut self)
        ensures
            final(self).view() == (ClientView { last_recv: final(self).view().last_recv, ..old(self).view() }),
    {
        let now = now_secs();
        self.update_last_recv_at(now);
    }

    /// When the client was last heard from, in seconds since the Unix epoch.
    pub fn last_recv(&self) -> (r: u64)
        ensures
            r == self.view().last_recv,
    {
        self.last_recv
    }

    /// Backdates the last receipt, so that idleness can be tested without
    /// waiting.
    pub fn set_last_recv_for_test(&mut self, ts: u64)
        ensures
            final(self).view() == (ClientView { last_recv: ts, ..old(self).view() }),
    {
        self.last_recv = ts;
    }

    /// The local address of the connection.
    pub fn local_addr(&self) -> (r: SocketAddress)
        ensures
            r == self.view().local_addr,
    {
        self.local_addr
    }
}

/// Joining titles with `;` and splitting the text again gives the same
/// titles, when none is empty or holds a `;` (as split titles are).
pub proof fn lemma_title_roundtrip(ts: Seq<Seq<char>>)
    requires
        forall|i: int| 0 <= i < ts.len() ==> (#[trigger] ts[i]).len() > 0 && !ts[i].contains(';'),
    ensures
        title_parts(join_titles(ts)) == ts,
    decreases ts.len(),
{
    if ts.len() == 0 {
        assert(char_end(Seq::<char>::empty(), ';') == 0);
        assert(title_parts(Seq::<char>::empty()) =~= Seq::<Seq<char>>::empty());
    } else {
        let t0 = ts[0];
        let j = join_titles(ts);
        if ts.len() == 1 {
            assert(j == t0);
            assert forall|k: int| !first_char_at(t0, ';', k) by {
                if first_char_at(t0, ';', k) {
                    assert(t0.contains(';'));
                }
            }
            assert(j.subrange(0, j.len() as int) =~= j);
            assert(ts =~= seq![t0]);
        } else {
            let rest = ts.drop_first();
            lemma_title_roundtrip(rest);
            assert(j == t0 + ";"@ + join_titles(rest));
            reveal_strlit(";");
            let n = t0.len() as int;
            assert(first_char_at(j, ';', n)) by {
                assert(j[n] == ';');
                assert forall|m: int| 0 <= m < n implies j[m] != ';' by {
                    assert(j[m] == t0[m]);
                    if t0[m] == ';' {
                        assert(t0.contains(';'));
                    }
                }
            }
            let k = choose|k: int| first_char_at(j, ';', k);
            if k < n {
                assert(j[k] != ';');
            } else if k > n {
                assert(j[n] != ';');
            }
            assert(j.subrange(0, n) =~= t0);
            assert(j.skip(n + 1) =~= join_titles(rest));
            assert(seq![t0] + rest =~= ts);
        }
    }
}

/// After subscribing to a text, the client holds exactly what it held and
/// each piece of the text.
pub proof fn lemma_insert_all_contains(ts: Seq<Seq<char>>, ps: Seq<Seq<char>>, x: Seq<char>)
    ensures
        insert_all(ts, ps).contains(x) <==> (ts.contains(x) || ps.contains(x)),
    decreases ps.len(),
{
    if ps.len() > 0 {
        let p = ps.drop_last();
        lemma_insert_all_contains(ts, p, x);
        let base = insert_all(ts, p);
        if ps.contains(x) && !p.contains(x) {
            assert(ps.last() == x) by {
                let i = choose|i: int| 0 <= i < ps.len() && ps[i] == x;
                if i < ps.len() - 1 {
                    assert(p[i] == x);
                }
            }
        }
        if p.contains(x) {
            let i = choose|i: int| 0 <= i < p.len() && p[i] == x;
            assert(ps[i] == x);
        }
        if !base.contains(ps.last()) && base.push(ps.last()).contains(x) && x != ps.last() {
            let i = choose|i: int| 0 <= i < base.push(ps.last()).len() && base.push(ps.last())[i] == x;
            assert(base[i] == x);
        }
        if !base.contains(ps.last()) && base.contains(x) {
            let i = choose|i: int| 0 <= i < base.len() && base[i] == x;
            assert(base.push(ps.last())[i] == x);
        }
        if !base.contains(ps.last()) && x == ps.last() {
            assert(base.push(ps.last())[base.len() as int] == x);
        }
        if ps.last() == x {
            assert(ps[ps.len() - 1] == x);
        }
    }
}

/// Subscribing never adds a title twice.
pub proof fn lemma_insert_all_distinct(ts: Seq<Seq<char>>, ps: Seq<Seq<char>>)
    requires
        ts.no_duplicates(),
    ensures
        insert_all(ts, ps).no_duplicates(),
    decreases ps.len(),
{
    if ps.len() > 0 {
        lemma_insert_all_distinct(ts, ps.drop_last());
    }
}

/// After unsubscribing from a title, the client no longer holds it, and
/// holds every other title it held.
pub proof fn lemma_remove_title(ts: Seq<Seq<char>>, t: Seq<char>, x: Seq<char>)
    ensures
        ts.filter(other_than(t)).contains(x) <==> (ts.contains(x) && x != t),
{
    broadcast use vstd::seq_lib::group_filter_ensures;
    let f = ts.filter(other_than(t));
    if ts.contains(x) && x != t {
        let i = choose|i: int| 0 <= i < ts.len() && ts[i] == x;
        assert(f.contains(ts[i]));
    }
    if f.contains(x) {
        ts.lemma_filter_contains_rev(other_than(t), x);
        let i = choose|i: int| 0 <= i < f.len() && f[i] == x;
        assert(other_than(t)(f[i]));
    }
}

} // verus!
