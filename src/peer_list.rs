use vstd::prelude::*;

use crate::random::random_below;
use crate::types::NodeId;

verus! {

/// How far a peer has proven itself for one block.
#[derive(Clone, Copy, Debug, PartialEq, Eq, Structural)]
pub enum PeerQuality {
    Unknown,
    Reliable,
    Unreliable,
}

#[derive(Clone, Copy, Debug, PartialEq, Eq, Structural)]
pub struct PeerEntry {
    pub id: NodeId,
    pub quality: PeerQuality,
}

/// The peers known for one block, each tagged with its quality.
#[derive(Clone, Debug)]
pub struct PeerList {
    pub peers: Vec<PeerEntry>,
}

/// Whether an entry belongs to the unreliable pool (`unreliable`) or to the preferred one.
pub open spec fn in_pool(e: PeerEntry, unreliable: bool) -> bool {
    (e.quality == PeerQuality::Unreliable) == unreliable
}

/// The ids of the entries of one pool, in list order.
pub open spec fn pool_ids(s: Seq<PeerEntry>, unreliable: bool) -> Seq<NodeId>
    decreases s.len(),
{
    if s.len() == 0 {
        Seq::empty()
    } else if in_pool(s.last(), unreliable) {
        pool_ids(s.drop_last(), unreliable).push(s.last().id)
    } else {
        pool_ids(s.drop_last(), unreliable)
    }
}

pub open spec fn distinct_ids(s: Seq<PeerEntry>) -> bool {
    forall|i: int, j: int| 0 <= i < s.len() && 0 <= j < s.len() && i != j ==> s[i].id != s[j].id
}

proof fn lemma_pool_ids(s: Seq<PeerEntry>, unreliable: bool)
    requires
        distinct_ids(s),
    ensures
        pool_ids(s, unreliable).no_duplicates(),
        forall|x: NodeId|
            pool_ids(s, unreliable).contains(x) <==> exists|i: int|
                0 <= i < s.len() && s[i].id == x && in_pool(s[i], unreliable),
    decreases s.len(),
{
    if s.len() > 0 {
        let t = s.drop_last();
        assert(distinct_ids(t));
        lemma_pool_ids(t, unreliable);
        let p = pool_ids(t, unreliable);
        assert forall|x: NodeId|
            pool_ids(s, unreliable).contains(x) <==> exists|i: int|
                0 <= i < s.len() && s[i].id == x && in_pool(s[i], unreliable) by {
            if pool_ids(s, unreliable).contains(x) {
                if p.contains(x) {
                    let i = choose|i: int| 0 <= i < t.len() && t[i].id == x && in_pool(t[i], unreliable);
                    assert(s[i] == t[i]);
                } else {
                    assert(s[s.len() - 1].id == x);
                }
            }
            if exists|i: int| 0 <= i < s.len() && s[i].id == x && in_pool(s[i], unreliable) {
                let i = choose|i: int| 0 <= i < s.len() && s[i].id == x && in_pool(s[i], unreliable);
                if i < s.len() - 1 {
                    assert(t[i] == s[i]);
                    assert(p.contains(x));
                    if in_pool(s.last(), unreliable) {
                        assert(p.push(s.last().id)[p.index_of(x)] == x);
                    }
                } else {
                    assert(pool_ids(s, unreliable) == p.push(s.last().id));
                    assert(p.push(s.last().id)[p.len() as int] == x);
                }
            }
        }
        if in_pool(s.last(), unreliable) {
            assert(!p.contains(s.last().id)) by {
                if p.contains(s.last().id) {
                    let i = choose|i: int|
                        0 <= i < t.len() && t[i].id == s.last().id && in_pool(t[i], unreliable);
                    assert(s[i].id == s[s.len() - 1].id);
                }
            }
            let q = p.push(s.last().id);
            assert forall|a: int, b: int| 0 <= a < q.len() && 0 <= b < q.len() && a != b implies q[a]
                != q[b] by {
                if a < p.len() && b < p.len() {
                    assert(q[a] == p[a] && q[b] == p[b]);
                } else if a < p.len() {
                    assert(p.contains(q[a]));
                } else {
                    assert(p.contains(q[b]));
                }
            }
        }
    }
}

impl PeerList {
    pub open spec fn wf(self) -> bool {
        distinct_ids(self.peers@)
    }

    /// The peer is in the list.
    pub open spec fn has(self, p: NodeId) -> bool {
        exists|i: int| 0 <= i < self.peers@.len() && self.peers@[i].id == p
    }

    /// The peer is in the list with this quality.
    pub open spec fn has_with(self, p: NodeId, q: PeerQuality) -> bool {
        exists|i: int|
            0 <= i < self.peers@.len() && self.peers@[i].id == p && self.peers@[i].quality == q
    }

    /// The peers that a sample draws from: the unknown and reliable ones, or the unreliable
    /// ones where there are no others.
    pub open spec fn sample_pool(self) -> Seq<NodeId> {
        if pool_ids(self.peers@, false).len() > 0 {
            pool_ids(self.peers@, false)
        } else {
            pool_ids(self.peers@, true)
        }
    }

    pub fn new() -> (r: Self)
        ensures
            r.wf(),
            r.peers@.len() == 0,
    {
        PeerList { peers: Vec::new() }
    }

    fn find(&self, p: NodeId) -> (r: Option<usize>)
        ensures
            match r {
                Some(i) => i < self.peers@.len() && self.peers@[i as int].id == p,
                None => !self.has(p),
            },
    {
        let mut i: usize = 0;
        while i < self.peers.len()
            invariant
                i <= self.peers@.len(),
                forall|k: int| 0 <= k < i ==> self.peers@[k].id != p,
            decreases self.peers@.len() - i,
        {
            if self.peers[i].id == p {
                return Some(i);
            }
            i = i + 1;
        }
        None
    }

    pub fn contains(&self, p: NodeId) -> (r: bool)
        ensures
            r == self.has(p),
    {
        self.find(p).is_some()
    }

    fn quality_is(&self, p: NodeId, q: PeerQuality) -> (r: bool)
        requires
            self.wf(),
        ensures
            r == self.has_with(p, q),
    {
        match self.find(p) {
            Some(i) => {
                let r = self.peers[i].quality == q;
                assert(self.has_with(p, q) ==> r) by {
                    if self.has_with(p, q) {
                        let j = choose|j: int|
                            0 <= j < self.peers@.len() && self.peers@[j].id == p
                                && self.peers@[j].quality == q;
                        assert(j == i);
                    }
                }
                r
            },
            None => false,
        }
    }

    pub fn is_peer_reliable(&self, p: NodeId) -> (r: bool)
        requires
            self.wf(),
        ensures
            r == self.has_with(p, PeerQuality::Reliable),
    {
        self.quality_is(p, PeerQuality::Reliable)
    }

    pub fn is_peer_unreliable(&self, p: NodeId) -> (r: bool)
        requires
            self.wf(),
        ensures
            r == self.has_with(p, PeerQuality::Unreliable),
    {
        self.quality_is(p, PeerQuality::Unreliable)
    }

    /// Adds a peer as unknown; a peer already in the list keeps its quality.
    pub fn register_peer(&mut self, p: NodeId)
        requires
            old(self).wf(),
        ensures
            final(self).wf(),
            forall|r: NodeId, x: PeerQuality|
                final(self).has_with(r, x) <==> (old(self).has_with(r, x) || (r == p && !old(
                    self,
                ).has(p) && x == PeerQuality::Unknown)),
            forall|r: NodeId| final(self).has(r) <==> (old(self).has(r) || r == p),
    {
        if self.find(p).is_none() {
            let ghost before = self.peers@;
            self.peers.push(PeerEntry { id: p, quality: PeerQuality::Unknown });
            assert forall|r: NodeId, x: PeerQuality|
                self.has_with(r, x) <==> (old(self).has_with(r, x) || (r == p && !old(self).has(p)
                    && x == PeerQuality::Unknown)) by {
                if self.has_with(r, x) {
                    let i = choose|i: int|
                        0 <= i < self.peers@.len() && self.peers@[i].id == r
                            && self.peers@[i].quality == x;
                    if i < before.len() {
                        assert(before[i] == self.peers@[i]);
                    }
                }
                if old(self).has_with(r, x) {
                    let i = choose|i: int|
                        0 <= i < before.len() && before[i].id == r && before[i].quality == x;
                    assert(self.peers@[i] == before[i]);
                }
                if r == p && !old(self).has(p) && x == PeerQuality::Unknown {
                    assert(self.peers@[before.len() as int].id == p);
                }
            }
            assert forall|r: NodeId| self.has(r) <==> (old(self).has(r) || r == p) by {
                if self.has(r) {
                    let i = choose|i: int| 0 <= i < self.peers@.len() && self.peers@[i].id == r;
                    if i < before.len() {
                        assert(before[i] == self.peers@[i]);
                    }
                }
                if old(self).has(r) {
                    let i = choose|i: int| 0 <= i < before.len() && before[i].id == r;
                    assert(self.peers@[i] == before[i]);
                }
                if r == p {
                    assert(self.peers@[before.len() as int].id == p);
                }
            }
        }
    }

    /// Adds each peer as `register_peer` does.
    pub fn register_peers(&mut self, peers: &Vec<NodeId>)
        requires
            old(self).wf(),
        ensures
            final(self).wf(),
            forall|r: NodeId| final(self).has(r) <==> (old(self).has(r) || peers@.contains(r)),
            forall|r: NodeId, x: PeerQuality|
                final(self).has_with(r, x) <==> (old(self).has_with(r, x) || (peers@.contains(r)
                    && !old(self).has(r) && x == PeerQuality::Unknown)),
    {
        let mut i: usize = 0;
        while i < peers.len()
            invariant
                i <= peers@.len(),
                self.wf(),
                forall|r: NodeId|
                    self.has(r) <==> (old(self).has(r) || peers@.subrange(0, i as int).contains(r)),
                forall|r: NodeId, x: PeerQuality|
                    self.has_with(r, x) <==> (old(self).has_with(r, x) || (peers@.subrange(
                        0,
                        i as int,
                    ).contains(r) && !old(self).has(r) && x == PeerQuality::Unknown)),
            decreases peers@.len() - i,
        {
            let ghost mid = *self;
            self.register_peer(peers[i]);
            proof {
                let ghost a = peers@.subrange(0, i as int);
                let ghost b = peers@.subrange(0, i as int + 1);
                assert(b =~= a.push(peers@[i as int]));
                assert forall|r: NodeId| b.contains(r) <==> (a.contains(r) || r == peers@[i as int]) by {
                    if b.contains(r) {
                        let k = choose|k: int| 0 <= k < b.len() && #[trigger] b[k] == r;
                        if k < i {
                            assert(a[k] == r);
                        }
                    }
                    if a.contains(r) {
                        let k = choose|k: int| 0 <= k < a.len() && #[trigger] a[k] == r;
                        assert(b[k] == r);
                    }
                    if r == peers@[i as int] {
                        assert(b[i as int] == r);
                    }
                }
                assert forall|r: NodeId, x: PeerQuality|
                    self.has_with(r, x) <==> (old(self).has_with(r, x) || (b.contains(r)
                        && !old(self).has(r) && x == PeerQuality::Unknown)) by {
                    if old(self).has_with(r, x) {
                        let k = choose|k: int|
                            0 <= k < old(self).peers@.len() && old(self).peers@[k].id == r
                                && old(self).peers@[k].quality == x;
                        assert(old(self).peers@[k].id == r);
                    }
                    if mid.has_with(r, x) {
                        let k = choose|k: int|
                            0 <= k < mid.peers@.len() && mid.peers@[k].id == r
                                && mid.peers@[k].quality == x;
                        assert(mid.peers@[k].id == r);
                    }
                }
            }
            i = i + 1;
        }
        assert(peers@.subrange(0, peers@.len() as int) =~= peers@);
    }

    /// Tags a peer with a quality, adding it where it is missing.
    fn set_quality(&mut self, p: NodeId, q: PeerQuality)
        requires
            old(self).wf(),
        ensures
            final(self).wf(),
            forall|r: NodeId, x: PeerQuality|
                final(self).has_with(r, x) <==> if r == p {
                    x == q
                } else {
                    old(self).has_with(r, x)
                },
            forall|r: NodeId| final(self).has(r) <==> (old(self).has(r) || r == p),
    {
        let ghost before = self.peers@;
        match self.find(p) {
            Some(i) => {
                self.peers.set(i, PeerEntry { id: p, quality: q });
                assert forall|r: NodeId, x: PeerQuality|
                    self.has_with(r, x) <==> if r == p {
                        x == q
                    } else {
                        old(self).has_with(r, x)
                    } by {
                    if self.has_with(r, x) {
                        let j = choose|j: int|
                            0 <= j < self.peers@.len() && self.peers@[j].id == r
                                && self.peers@[j].quality == x;
                        if j != i {
                            assert(before[j] == self.peers@[j]);
                        }
                    }
                    if r == p && x == q {
                        assert(self.peers@[i as int].id == p);
                    }
                    if r != p && old(self).has_with(r, x) {
                        let j = choose|j: int|
                            0 <= j < before.len() && before[j].id == r && before[j].quality == x;
                        assert(self.peers@[j] == before[j]);
                    }
                }
                assert forall|r: NodeId| self.has(r) <==> (old(self).has(r) || r == p) by {
                    if self.has(r) {
                        let j = choose|j: int| 0 <= j < self.peers@.len() && self.peers@[j].id == r;
                        if j != i {
                            assert(before[j] == self.peers@[j]);
                        }
                    }
                    if old(self).has(r) {
                        let j = choose|j: int| 0 <= j < before.len() && before[j].id == r;
                        if j != i {
                            assert(self.peers@[j] == before[j]);
                        }
                    }
                    if r == p {
                        assert(self.peers@[i as int].id == p);
                    }
                }
            },
            None => {
                self.peers.push(PeerEntry { id: p, quality: q });
                assert forall|r: NodeId, x: PeerQuality|
                    self.has_with(r, x) <==> if r == p {
                        x == q
                    } else {
                        old(self).has_with(r, x)
                    } by {
                    if self.has_with(r, x) {
                        let j = choose|j: int|
                            0 <= j < self.peers@.len() && self.peers@[j].id == r
                                && self.peers@[j].quality == x;
                        if j < before.len() {
                            assert(before[j] == self.peers@[j]);
                        }
                    }
                    if r == p && x == q {
                        assert(self.peers@[before.len() as int].id == p);
                    }
                    if r != p && old(self).has_with(r, x) {
                        let j = choose|j: int|
                            0 <= j < before.len() && before[j].id == r && before[j].quality == x;
                        assert(self.peers@[j] == before[j]);
                    }
                }
                assert forall|r: NodeId| self.has(r) <==> (old(self).has(r) || r == p) by {
                    if self.has(r) {
                        let j = choose|j: int| 0 <= j < self.peers@.len() && self.peers@[j].id == r;
                        if j < before.len() {
                            assert(before[j] == self.peers@[j]);
                        }
                    }
                    if old(self).has(r) {
                        let j = choose|j: int| 0 <= j < before.len() && before[j].id == r;
                        assert(self.peers@[j] == before[j]);
                    }
                    if r == p {
                        assert(self.peers@[before.len() as int].id == p);
                    }
                }
            },
        }
    }

    /// Marks a peer reliable: it provided a valid item.
    pub fn promote_peer(&mut self, p: NodeId)
        requires
            old(self).wf(),
        ensures
            final(self).wf(),
            forall|r: NodeId, x: PeerQuality|
                final(self).has_with(r, x) <==> if r == p {
                    x == PeerQuality::Reliable
                } else {
                    old(self).has_with(r, x)
                },
            forall|r: NodeId| final(self).has(r) <==> (old(self).has(r) || r == p),
    {
        self.set_quality(p, PeerQuality::Reliable)
    }

    /// Marks a peer unreliable: it failed to provide an item, or provided a bad one.
    pub fn disqualify_peer(&mut self, p: NodeId)
        requires
            old(self).wf(),
        ensures
            final(self).wf(),
            forall|r: NodeId, x: PeerQuality|
                final(self).has_with(r, x) <==> if r == p {
                    x == PeerQuality::Unreliable
                } else {
                    old(self).has_with(r, x)
                },
            forall|r: NodeId| final(self).has(r) <==> (old(self).has(r) || r == p),
    {
        self.set_quality(p, PeerQuality::Unreliable)
    }

    fn pool(&self, unreliable: bool) -> (r: Vec<NodeId>)
        ensures
            r@ == pool_ids(self.peers@, unreliable),
    {
        let mut r: Vec<NodeId> = Vec::new();
        let mut i: usize = 0;
        while i < self.peers.len()
            invariant
                i <= self.peers@.len(),
                r@ == pool_ids(self.peers@.subrange(0, i as int), unreliable),
            decreases self.peers@.len() - i,
        {
            proof {
                assert(self.peers@.subrange(0, i as int + 1).drop_last() =~= self.peers@.subrange(
                    0,
                    i as int,
                ));
            }
            let e = self.peers[i];
            if (e.quality == PeerQuality::Unreliable) == unreliable {
                r.push(e.id);
            }
            i = i + 1;
        }
        assert(self.peers@.subrange(0, self.peers@.len() as int) =~= self.peers@);
        r
    }

    /// Draws up to `n` distinct peers at random from `sample_pool`.
    pub fn qualified_peers_up_to(&self, n: usize) -> (r: Vec<NodeId>)
        requires
            self.wf(),
        ensures
            r@.len() == if n < self.sample_pool().len() {
                n as int
            } else {
                self.sample_pool().len() as int
            },
            r@.no_duplicates(),
            forall|x: NodeId| r@.contains(x) ==> self.sample_pool().contains(x),
    {
        proof {
            lemma_pool_ids(self.peers@, false);
            lemma_pool_ids(self.peers@, true);
        }
        let good = self.pool(false);
        let mut pool = if good.len() > 0 {
            good
        } else {
            self.pool(true)
        };
        let ghost base = pool@;
        let mut out: Vec<NodeId> = Vec::new();
        while out.len() < n && pool.len() > 0
            invariant
                base == self.sample_pool(),
                base.no_duplicates(),
                pool@.no_duplicates(),
                out@.no_duplicates(),
                out@.len() + pool@.len() == base.len(),
                out@.len() <= n,
                forall|x: NodeId| pool@.contains(x) ==> base.contains(x),
                forall|x: NodeId| out@.contains(x) ==> base.contains(x),
                forall|x: NodeId| out@.contains(x) ==> !pool@.contains(x),
            decreases pool@.len(),
        {
            let j = random_below(pool.len());
            let ghost before = pool@;
            let p = pool.remove(j);
            let ghost out_before = out@;
            out.push(p);
            proof {
                assert(before[j as int] == p);
                assert forall|x: NodeId| pool@.contains(x) implies before.contains(x) && x != p by {
                    let k = choose|k: int| 0 <= k < pool@.len() && pool@[k] == x;
                    if k < j {
                        assert(pool@[k] == before[k]);
                    } else {
                        assert(pool@[k] == before[k + 1]);
                    }
                }
                assert forall|a: int, b: int|
                    0 <= a < pool@.len() && 0 <= b < pool@.len() && a != b implies pool@[a]
                    != pool@[b] by {
                    let a2 = if a < j { a } else { a + 1 };
                    let b2 = if b < j { b } else { b + 1 };
                    assert(pool@[a] == before[a2]);
                    assert(pool@[b] == before[b2]);
                }
                assert forall|x: NodeId| #[trigger] out@.contains(x) implies !pool@.contains(x) && base.contains(x) by {
                    if x != p {
                        assert(out_before.contains(x)) by {
                            let k = choose|k: int| 0 <= k < out@.len() && out@[k] == x;
                            assert(k < out_before.len());
                            assert(out_before[k] == x);
                        }
                        assert(!before.contains(x));
                        if pool@.contains(x) {
                            assert(before.contains(x));
                        }
                    } else {
                        assert(before.contains(p));
                        if pool@.contains(x) {
                            assert(x != p);
                        }
                    }
                }
                assert forall|a: int, b: int|
                    0 <= a < out@.len() && 0 <= b < out@.len() && a != b implies out@[a]
                    != out@[b] by {
                    if a < out_before.len() && b < out_before.len() {
                        assert(out@[a] == out_before[a] && out@[b] == out_before[b]);
                    } else if a < out_before.len() {
                        assert(out_before.contains(out@[a]));
                        assert(before.contains(p));
                    } else {
                        assert(out_before.contains(out@[b]));
                    }
                }
            }
        }
        out
    }
}

} // verus!
