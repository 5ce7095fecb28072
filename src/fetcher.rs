use vstd::prelude::*;

use crate::types::{BlockHash, DeployId, FinalitySignatureId, NodeId};

verus! {

/// Default time, in milliseconds, that a fetch from a peer may take.
pub const FETCH_TIMEOUT: u64 = 2000;

/// The id of an item that can be fetched, tagged with the item's kind.
#[derive(Clone, Copy, Debug, PartialEq, Eq, Structural)]
pub enum FetchItemId {
    BlockHeader(BlockHash),
    Block(BlockHash),
    FinalitySignature(FinalitySignatureId),
    ApprovalsHashes(BlockHash),
    Deploy(DeployId),
    SyncLeap(BlockHash),
    ExecutionResults(BlockHash),
}

/// What to do with a fetch request.
#[derive(Clone, Copy, Debug, PartialEq, Eq, Structural)]
pub enum FetchDecision {
    /// Local storage has the item: answer from it.
    FromStorage,
    /// The same item is already asked of the same peer: wait for that answer.
    AlreadyInFlight,
    /// Ask the peer, and give up at `deadline`.
    AskPeer { deadline: u64 },
}

/// Keeps at most one fetch per item and peer in flight.
#[derive(Clone, Debug)]
pub struct FetchDispatcher {
    pub in_flight: Vec<(FetchItemId, NodeId)>,
    /// When each fetch in flight times out, position by position.
    pub deadlines: Vec<u64>,
    pub timeout: u64,
}

impl FetchDispatcher {
    pub open spec fn wf(self) -> bool {
        &&& self.in_flight@.no_duplicates()
        &&& self.deadlines@.len() == self.in_flight@.len()
    }

    /// The fetch is in flight and its deadline has passed at `now`.
    pub open spec fn is_overdue(self, e: (FetchItemId, NodeId), now: u64) -> bool {
        exists|i: int|
            0 <= i < self.in_flight@.len() && self.in_flight@[i] == e && self.deadlines@[i] <= now
    }

    pub fn new(timeout: u64) -> (r: Self)
        ensures
            r.wf(),
            r.in_flight@.len() == 0,
            r.timeout == timeout,
    {
        FetchDispatcher { in_flight: Vec::new(), deadlines: Vec::new(), timeout }
    }

    fn position(&self, id: FetchItemId, peer: NodeId) -> (r: Option<usize>)
        ensures
            match r {
                Some(i) => i < self.in_flight@.len() && self.in_flight@[i as int] == (id, peer),
                None => !self.in_flight@.contains((id, peer)),
            },
    {
        let mut i: usize = 0;
        while i < self.in_flight.len()
            invariant
                i <= self.in_flight@.len(),
                forall|k: int| 0 <= k < i ==> self.in_flight@[k] != (id, peer),
            decreases self.in_flight@.len() - i,
        {
            let (a, b) = self.in_flight[i];
            if a == id && b == peer {
                return Some(i);
            }
            i = i + 1;
        }
        None
    }

    /// Decides how to fetch `id` from `peer` at `now`: from storage where `stored`, else from
    /// the peer unless the same fetch is already in flight.
    pub fn fetch(&mut self, id: FetchItemId, peer: NodeId, stored: bool, now: u64) -> (r: FetchDecision)
        requires
            old(self).wf(),
        ensures
            final(self).wf(),
            final(self).timeout == old(self).timeout,
            stored ==> r == FetchDecision::FromStorage && *final(self) == *old(self),
            !stored && old(self).in_flight@.contains((id, peer)) ==> r
                == FetchDecision::AlreadyInFlight && *final(self) == *old(self),
            !stored && !old(self).in_flight@.contains((id, peer)) ==> {
                &&& r == (FetchDecision::AskPeer {
                    deadline: if now as int + old(self).timeout as int > u64::MAX {
                        u64::MAX
                    } else {
                        (now + old(self).timeout) as u64
                    },
                })
                &&& final(self).in_flight@ == old(self).in_flight@.push((id, peer))
                &&& final(self).deadlines@ == old(self).deadlines@.push(r->deadline)
            },
    {
        if stored {
            return FetchDecision::FromStorage;
        }
        if self.position(id, peer).is_some() {
            return FetchDecision::AlreadyInFlight;
        }
        let ghost before = self.in_flight@;
        self.in_flight.push((id, peer));
        self.deadlines.push(now.saturating_add(self.timeout));
        proof {
            assert forall|a: int, b: int|
                0 <= a < self.in_flight@.len() && 0 <= b < self.in_flight@.len() && a != b implies self.in_flight@[a]
                != self.in_flight@[b] by {
                if a < before.len() && b < before.len() {
                    assert(self.in_flight@[a] == before[a] && self.in_flight@[b] == before[b]);
                } else if a < before.len() {
                    assert(before.contains(before[a]));
                } else {
                    assert(before.contains(before[b]));
                }
            }
        }
        FetchDecision::AskPeer { deadline: now.saturating_add(self.timeout) }
    }

    /// Closes the fetch of `id` from `peer`, answered or timed out. Returns whether it was in
    /// flight; an answer to a fetch not in flight is stale.
    pub fn finish(&mut self, id: FetchItemId, peer: NodeId) -> (r: bool)
        requires
            old(self).wf(),
        ensures
            final(self).wf(),
            final(self).timeout == old(self).timeout,
            r == old(self).in_flight@.contains((id, peer)),
            !final(self).in_flight@.contains((id, peer)),
            forall|e: (FetchItemId, NodeId)|
                e != (id, peer) ==> (final(self).in_flight@.contains(e) <==> old(
                    self,
                ).in_flight@.contains(e)),
    {
        match self.position(id, peer) {
            None => false,
            Some(i) => {
                let ghost before = self.in_flight@;
                self.in_flight.remove(i);
                self.deadlines.remove(i);
                proof {
                    assert forall|e: (FetchItemId, NodeId)|
                        #[trigger] self.in_flight@.contains(e) implies before.contains(e) && e != (id, peer) by {
                        let k = choose|k: int| 0 <= k < self.in_flight@.len() && self.in_flight@[k] == e;
                        let k2 = if k < i { k } else { k + 1 };
                        assert(self.in_flight@[k] == before[k2]);
                    }
                    assert forall|e: (FetchItemId, NodeId)|
                        e != (id, peer) && #[trigger] before.contains(e) implies self.in_flight@.contains(e) by {
                        let k = choose|k: int| 0 <= k < before.len() && before[k] == e;
                        if k < i {
                            assert(self.in_flight@[k] == e);
                        } else {
                            assert(k != i);
                            assert(self.in_flight@[k - 1] == e);
                        }
                    }
                    assert forall|a: int, b: int|
                        0 <= a < self.in_flight@.len() && 0 <= b < self.in_flight@.len() && a != b implies self.in_flight@[a]
                        != self.in_flight@[b] by {
                        let a2 = if a < i { a } else { a + 1 };
                        let b2 = if b < i { b } else { b + 1 };
                        assert(self.in_flight@[a] == before[a2]);
                        assert(self.in_flight@[b] == before[b2]);
                    }
                }
                true
            },
        }
    }

    /// The fetches in flight whose deadline has passed at `now`, each once, in order.
    pub fn overdue(&self, now: u64) -> (r: Vec<(FetchItemId, NodeId)>)
        requires
            self.wf(),
        ensures
            r@.no_duplicates(),
            forall|e: (FetchItemId, NodeId)| r@.contains(e) <==> self.is_overdue(e, now),
    {
        let mut r: Vec<(FetchItemId, NodeId)> = Vec::new();
        let mut i: usize = 0;
        while i < self.in_flight.len()
            invariant
                self.wf(),
                i <= self.in_flight@.len(),
                r@.no_duplicates(),
                forall|e: (FetchItemId, NodeId)|
                    r@.contains(e) <==> exists|k: int|
                        0 <= k < i && self.in_flight@[k] == e && self.deadlines@[k] <= now,
            decreases self.in_flight@.len() - i,
        {
            if self.deadlines[i] <= now {
                let e = self.in_flight[i];
                let ghost before = r@;
                r.push(e);
                proof {
                    assert forall|x: (FetchItemId, NodeId)|
                        r@.contains(x) <==> exists|k: int|
                            0 <= k < i + 1 && self.in_flight@[k] == x && self.deadlines@[k] <= now by {
                        if r@.contains(x) {
                            let j = choose|j: int| 0 <= j < r@.len() && r@[j] == x;
                            if j < before.len() {
                                assert(before.contains(x));
                            } else {
                                assert(self.in_flight@[i as int] == x);
                            }
                        }
                        if exists|k: int|
                            0 <= k < i + 1 && self.in_flight@[k] == x && self.deadlines@[k] <= now {
                            let k = choose|k: int|
                                0 <= k < i + 1 && self.in_flight@[k] == x && self.deadlines@[k] <= now;
                            if k < i {
                                assert(before.contains(x));
                                let j = choose|j: int| 0 <= j < before.len() && before[j] == x;
                                assert(r@[j] == x);
                            } else {
                                assert(r@[before.len() as int] == x);
                            }
                        }
                    }
                    assert(!before.contains(e)) by {
                        if before.contains(e) {
                            let k = choose|k: int|
                                0 <= k < i && self.in_flight@[k] == e && self.deadlines@[k] <= now;
                            assert(self.in_flight@[k] == self.in_flight@[i as int]);
                        }
                    }
                    assert forall|a: int, b: int|
                        0 <= a < r@.len() && 0 <= b < r@.len() && a != b implies r@[a] != r@[b] by {
                        if a < before.len() && b < before.len() {
                            assert(r@[a] == before[a] && r@[b] == before[b]);
                        } else if a < before.len() {
                            assert(before.contains(r@[a]));
                        } else {
                            assert(before.contains(r@[b]));
                        }
                    }
                }
            } else {
                proof {
                    assert forall|x: (FetchItemId, NodeId)|
                        r@.contains(x) <==> exists|k: int|
                            0 <= k < i + 1 && self.in_flight@[k] == x && self.deadlines@[k] <= now by {
                        if exists|k: int|
                            0 <= k < i + 1 && self.in_flight@[k] == x && self.deadlines@[k] <= now {
                            let k = choose|k: int|
                                0 <= k < i + 1 && self.in_flight@[k] == x && self.deadlines@[k] <= now;
                            assert(k < i);
                        }
                    }
                }
            }
            i = i + 1;
        }
        r
    }
}

} // verus!
