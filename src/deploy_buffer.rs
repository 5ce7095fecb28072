use vstd::prelude::*;

use crate::types::{BlockHash, DeployHash, DeployHeader, Timestamp};

verus! {

/// A deploy held by the block proposer, with the header fields that decide its lifetime.
#[derive(Clone, Copy, Debug, PartialEq, Eq, Structural)]
pub struct BufferedDeploy {
    pub hash: DeployHash,
    pub header: DeployHeader,
}

/// The deploys of one proto block.
#[derive(Clone, Debug)]
pub struct ProtoBlockDeploys {
    pub block_hash: BlockHash,
    pub deploys: Vec<BufferedDeploy>,
}

/// The deploys of `s` that are not expired at `now`, in order.
pub open spec fn live(s: Seq<BufferedDeploy>, now: Timestamp) -> Seq<BufferedDeploy>
    decreases s.len(),
{
    if s.len() == 0 {
        Seq::empty()
    } else if s.last().header.is_expired_at(now) {
        live(s.drop_last(), now)
    } else {
        live(s.drop_last(), now).push(s.last())
    }
}

/// A collection of proto blocks as values: each block hash with its deploys.
pub open spec fn blocks_view(s: Seq<ProtoBlockDeploys>) -> Seq<(BlockHash, Seq<BufferedDeploy>)> {
    s.map_values(|b: ProtoBlockDeploys| (b.block_hash, b.deploys@))
}

/// The blocks of `s` with their expired deploys removed; blocks left without deploys go.
pub open spec fn live_blocks(s: Seq<(BlockHash, Seq<BufferedDeploy>)>, now: Timestamp) -> Seq<
    (BlockHash, Seq<BufferedDeploy>),
>
    decreases s.len(),
{
    if s.len() == 0 {
        Seq::empty()
    } else if live(s.last().1, now).len() == 0 {
        live_blocks(s.drop_last(), now)
    } else {
        live_blocks(s.drop_last(), now).push((s.last().0, live(s.last().1, now)))
    }
}

/// The number of deploys in all blocks of `s`.
pub open spec fn total_deploys(s: Seq<(BlockHash, Seq<BufferedDeploy>)>) -> nat
    decreases s.len(),
{
    if s.len() == 0 {
        0
    } else {
        total_deploys(s.drop_last()) + s.last().1.len()
    }
}

/// The number of expired deploys in all blocks of `s`.
pub open spec fn expired_in_blocks(s: Seq<(BlockHash, Seq<BufferedDeploy>)>, now: Timestamp) -> nat
    decreases s.len(),
{
    if s.len() == 0 {
        0
    } else {
        expired_in_blocks(s.drop_last(), now) + (s.last().1.len() - live(s.last().1, now).len()) as nat
    }
}

proof fn lemma_live_len(s: Seq<BufferedDeploy>, now: Timestamp)
    ensures
        live(s, now).len() <= s.len(),
    decreases s.len(),
{
    if s.len() > 0 {
        lemma_live_len(s.drop_last(), now);
    }
}

proof fn lemma_expired_le_total(s: Seq<(BlockHash, Seq<BufferedDeploy>)>, now: Timestamp)
    ensures
        expired_in_blocks(s, now) <= total_deploys(s),
    decreases s.len(),
{
    if s.len() > 0 {
        lemma_expired_le_total(s.drop_last(), now);
        lemma_live_len(s.last().1, now);
    }
}

proof fn lemma_total_prefix(s: Seq<(BlockHash, Seq<BufferedDeploy>)>, i: int)
    requires
        0 <= i <= s.len(),
    ensures
        total_deploys(s.subrange(0, i)) <= total_deploys(s),
    decreases s.len() - i,
{
    if i < s.len() {
        lemma_total_prefix(s, i + 1);
        assert(s.subrange(0, i + 1).drop_last() =~= s.subrange(0, i));
    } else {
        assert(s.subrange(0, i) =~= s);
    }
}

proof fn lemma_live_distinct(s: Seq<BufferedDeploy>, now: Timestamp)
    requires
        distinct_deploys(s),
    ensures
        distinct_deploys(live(s, now)),
        forall|e: BufferedDeploy| live(s, now).contains(e) ==> s.contains(e),
    decreases s.len(),
{
    if s.len() > 0 {
        let t = s.drop_last();
        assert(distinct_deploys(t)) by {
            assert forall|i: int, j: int| 0 <= i < t.len() && 0 <= j < t.len() && i != j implies t[i].hash != t[j].hash by {
                assert(t[i] == s[i] && t[j] == s[j]);
            }
        }
        lemma_live_distinct(t, now);
        let l = live(t, now);
        assert(live(s, now) == if s.last().header.is_expired_at(now) { l } else { l.push(s.last()) });
        assert forall|e: BufferedDeploy| live(s, now).contains(e) implies s.contains(e) by {
            let q = choose|q: int| 0 <= q < live(s, now).len() && live(s, now)[q] == e;
            if q < l.len() {
                assert(live(s, now)[q] == l[q]);
                assert(l[q] == e);
                assert(l.contains(e));
                assert(t.contains(e));
                let m = choose|m: int| 0 <= m < t.len() && t[m] == e;
                assert(s[m] == e);
            } else {
                assert(s[s.len() - 1] == e);
            }
        }
        if !s.last().header.is_expired_at(now) {
            let r = l.push(s.last());
            assert forall|a: int, b: int| 0 <= a < r.len() && 0 <= b < r.len() && a != b implies r[a].hash != r[b].hash by {
                if a < l.len() && b < l.len() {
                    assert(r[a] == l[a] && r[b] == l[b]);
                } else {
                    let o = if a < l.len() { a } else { b };
                    let p = if a < l.len() { b } else { a };
                    assert(r[o] == l[o]);
                    assert(r[p] == s.last());
                    assert(l.contains(l[o]));
                    assert(t.contains(l[o]));
                    let m = choose|m: int| 0 <= m < t.len() && t[m] == l[o];
                    assert(s[m] == t[m]);
                    assert(s[m].hash != s[s.len() - 1].hash);
                }
            }
        }
    }
}

proof fn lemma_live_blocks_wf(s: Seq<(BlockHash, Seq<BufferedDeploy>)>, now: Timestamp)
    requires
        forall|i: int, j: int| 0 <= i < s.len() && 0 <= j < s.len() && i != j ==> s[i].0 != s[j].0,
        forall|i: int| 0 <= i < s.len() ==> distinct_deploys(#[trigger] s[i].1),
    ensures
        forall|i: int, j: int|
            0 <= i < live_blocks(s, now).len() && 0 <= j < live_blocks(s, now).len() && i != j
                ==> live_blocks(s, now)[i].0 != live_blocks(s, now)[j].0,
        forall|i: int| 0 <= i < live_blocks(s, now).len() ==> distinct_deploys(#[trigger] live_blocks(s, now)[i].1),
        forall|i: int| 0 <= i < live_blocks(s, now).len() ==> exists|m: int| 0 <= m < s.len() && s[m].0 == #[trigger] live_blocks(s, now)[i].0,
    decreases s.len(),
{
    if s.len() > 0 {
        let t = s.drop_last();
        assert forall|i: int| 0 <= i < t.len() implies distinct_deploys(#[trigger] t[i].1) by {
            assert(t[i] == s[i]);
        }
        lemma_live_blocks_wf(t, now);
        let l = live_blocks(t, now);
        let last = s.last();
        lemma_live_distinct(last.1, now);
        assert(distinct_deploys(s[s.len() - 1].1));
        let r = live_blocks(s, now);
        assert forall|i: int| 0 <= i < r.len() implies exists|m: int| 0 <= m < s.len() && s[m].0 == #[trigger] r[i].0 by {
            if i < l.len() {
                assert(r[i] == l[i]);
                let m = choose|m: int| 0 <= m < t.len() && t[m].0 == l[i].0;
                assert(s[m] == t[m]);
            } else {
                assert(s[s.len() - 1].0 == r[i].0);
            }
        }
        assert forall|a: int, b: int| 0 <= a < r.len() && 0 <= b < r.len() && a != b implies r[a].0 != r[b].0 by {
            if a < l.len() && b < l.len() {
                assert(r[a] == l[a] && r[b] == l[b]);
            } else {
                let o = if a < l.len() { a } else { b };
                assert(r[o] == l[o]);
                let m = choose|m: int| 0 <= m < t.len() && t[m].0 == l[o].0;
                assert(s[m] == t[m]);
            }
        }
        assert forall|i: int| 0 <= i < r.len() implies distinct_deploys(#[trigger] r[i].1) by {
            if i < l.len() {
                assert(r[i] == l[i]);
            }
        }
    }
}

/// The deploys of `deploys` that are not expired at `now`, and how many were.
fn live_deploys(deploys: &Vec<BufferedDeploy>, now: Timestamp) -> (r: (Vec<BufferedDeploy>, usize))
    ensures
        r.0@ == live(deploys@, now),
        r.1 == deploys@.len() - live(deploys@, now).len(),
{
    let mut kept: Vec<BufferedDeploy> = Vec::new();
    let mut i: usize = 0;
    while i < deploys.len()
        invariant
            i <= deploys@.len(),
            kept@ == live(deploys@.subrange(0, i as int), now),
        decreases deploys@.len() - i,
    {
        proof {
            assert(deploys@.subrange(0, i as int + 1).drop_last() =~= deploys@.subrange(0, i as int));
        }
        let d = deploys[i];
        if !d.header.expired(now) {
            kept.push(d);
        }
        i = i + 1;
    }
    assert(deploys@.subrange(0, i as int) =~= deploys@);
    proof {
        lemma_live_len(deploys@, now);
    }
    let n = deploys.len() - kept.len();
    (kept, n)
}

/// Removes the deploys expired at `now`; returns how many were removed.
pub fn prune_deploys(deploys: &mut Vec<BufferedDeploy>, now: Timestamp) -> (r: usize)
    ensures
        final(deploys)@ == live(old(deploys)@, now),
        r == old(deploys)@.len() - final(deploys)@.len(),
{
    let (kept, n) = live_deploys(deploys, now);
    *deploys = kept;
    n
}

/// Removes the deploys expired at `now` from each block and the blocks left without deploys;
/// returns how many deploys were removed.
pub fn prune_blocks(blocks: &mut Vec<ProtoBlockDeploys>, now: Timestamp) -> (r: usize)
    requires
        total_deploys(blocks_view(old(blocks)@)) <= usize::MAX,
    ensures
        blocks_view(final(blocks)@) == live_blocks(blocks_view(old(blocks)@), now),
        r == expired_in_blocks(blocks_view(old(blocks)@), now),
{
    let ghost v = blocks_view(blocks@);
    let mut out: Vec<ProtoBlockDeploys> = Vec::new();
    let mut pruned: usize = 0;
    let mut i: usize = 0;
    while i < blocks.len()
        invariant
            v == blocks_view(blocks@),
            total_deploys(v) <= usize::MAX,
            i <= blocks@.len(),
            blocks_view(out@) == live_blocks(v.subrange(0, i as int), now),
            pruned == expired_in_blocks(v.subrange(0, i as int), now),
            pruned <= total_deploys(v.subrange(0, i as int)),
        decreases blocks@.len() - i,
    {
        proof {
            assert(v.subrange(0, i as int + 1).drop_last() =~= v.subrange(0, i as int));
            assert(v[i as int] == (blocks@[i as int].block_hash, blocks@[i as int].deploys@));
            lemma_total_prefix(v, i as int + 1);
            lemma_expired_le_total(v.subrange(0, i as int + 1), now);
        }
        let (kept, n) = live_deploys(&blocks[i].deploys, now);
        pruned = pruned + n;
        if kept.len() > 0 {
            let ghost before = out@;
            out.push(ProtoBlockDeploys { block_hash: blocks[i].block_hash, deploys: kept });
            proof {
                assert(blocks_view(out@) =~= blocks_view(before).push(
                    (blocks@[i as int].block_hash, live(blocks@[i as int].deploys@, now)),
                ));
            }
        }
        i = i + 1;
    }
    assert(v.subrange(0, i as int) =~= v);
    *blocks = out;
    pruned
}

/// No two deploys share a hash.
pub open spec fn distinct_deploys(s: Seq<BufferedDeploy>) -> bool {
    forall|i: int, j: int| 0 <= i < s.len() && 0 <= j < s.len() && i != j ==> s[i].hash != s[j].hash
}

/// No two blocks share a hash.
pub open spec fn distinct_blocks(s: Seq<ProtoBlockDeploys>) -> bool {
    forall|i: int, j: int|
        0 <= i < s.len() && 0 <= j < s.len() && i != j ==> s[i].block_hash != s[j].block_hash
}

/// Some block of `s` holds a deploy with this hash.
pub open spec fn in_some_block(s: Seq<ProtoBlockDeploys>, h: DeployHash) -> bool {
    exists|i: int, j: int|
        0 <= i < s.len() && 0 <= j < s[i].deploys@.len() && s[i].deploys@[j].hash == h
}

/// The deploys of `s` whose hash is in `hashes` (`listed`) or not in it, in order.
fn deploys_where(s: &Vec<BufferedDeploy>, hashes: &Vec<DeployHash>, listed_kept: bool) -> (r: Vec<BufferedDeploy>)
    requires
        distinct_deploys(s@),
    ensures
        distinct_deploys(r@),
        forall|e: BufferedDeploy| r@.contains(e) <==> (s@.contains(e) && hashes@.contains(e.hash) == listed_kept),
{
    let mut r: Vec<BufferedDeploy> = Vec::new();
    let mut i: usize = 0;
    while i < s.len()
        invariant
            i <= s@.len(),
            distinct_deploys(s@),
            distinct_deploys(r@),
            forall|e: BufferedDeploy|
                r@.contains(e) <==> (exists|k: int| 0 <= k < i && s@[k] == e) && hashes@.contains(e.hash) == listed_kept,
            forall|k: int| 0 <= k < r@.len() ==> exists|m: int| 0 <= m < i && s@[m] == #[trigger] r@[k],
        decreases s@.len() - i,
    {
        let d = s[i];
        let mut listed = false;
        let mut j: usize = 0;
        while j < hashes.len()
            invariant
                j <= hashes@.len(),
                listed == exists|m: int| 0 <= m < j && hashes@[m] == d.hash,
            decreases hashes@.len() - j,
        {
            if hashes[j] == d.hash {
                listed = true;
            }
            j = j + 1;
        }
        let ghost before = r@;
        if listed == listed_kept {
            r.push(d);
            proof {
                assert forall|a: int, b: int|
                    0 <= a < r@.len() && 0 <= b < r@.len() && a != b implies r@[a].hash != r@[b].hash by {
                    if a < before.len() && b < before.len() {
                        assert(r@[a] == before[a] && r@[b] == before[b]);
                    } else {
                        let o = if a < before.len() { a } else { b };
                        assert(r@[o] == before[o]);
                        let m = choose|m: int| 0 <= m < i && s@[m] == before[o];
                        assert(s@[m].hash != s@[i as int].hash);
                    }
                }
                assert forall|k: int| 0 <= k < r@.len() implies exists|m: int|
                    0 <= m < i + 1 && s@[m] == #[trigger] r@[k] by {
                    if k < before.len() {
                        assert(r@[k] == before[k]);
                    } else {
                        assert(s@[i as int] == r@[k]);
                    }
                }
            }
        }
        proof {
            assert forall|e: BufferedDeploy|
                r@.contains(e) <==> (exists|k: int| 0 <= k < i + 1 && s@[k] == e) && hashes@.contains(e.hash) == listed_kept by {
                if r@.contains(e) {
                    let q = choose|q: int| 0 <= q < r@.len() && r@[q] == e;
                    if q < before.len() {
                        assert(before[q] == e);
                        assert(before.contains(e));
                    } else {
                        assert(e == d);
                        if hashes@.contains(e.hash) {
                            let m = choose|m: int| 0 <= m < hashes@.len() && hashes@[m] == e.hash;
                            assert(listed);
                        }
                    }
                }
                if (exists|k: int| 0 <= k < i + 1 && s@[k] == e) && hashes@.contains(e.hash) == listed_kept {
                    let k = choose|k: int| 0 <= k < i + 1 && s@[k] == e;
                    if k < i {
                        assert(before.contains(e));
                        let q = choose|q: int| 0 <= q < before.len() && before[q] == e;
                        assert(r@[q] == e);
                    } else {
                        assert(e == d);
                        if listed {
                            let m = choose|m: int| 0 <= m < j && hashes@[m] == d.hash;
                            assert(hashes@.contains(d.hash));
                        } else if hashes@.contains(d.hash) {
                            let m = choose|m: int| 0 <= m < hashes@.len() && hashes@[m] == d.hash;
                            assert(m < j);
                        }
                        assert(r@[r@.len() - 1] == e);
                    }
                }
            }
        }
        i = i + 1;
    }
    proof {
        assert forall|e: BufferedDeploy| r@.contains(e) <==> (s@.contains(e) && hashes@.contains(e.hash) == listed_kept) by {
            if s@.contains(e) {
                let k = choose|k: int| 0 <= k < s@.len() && s@[k] == e;
                assert(s@[k] == e);
            }
        }
    }
    r
}

/// The hashes of `s`, in order.
fn hashes_of(s: &Vec<BufferedDeploy>) -> (r: Vec<DeployHash>)
    ensures
        forall|h: DeployHash| r@.contains(h) <==> exists|k: int| 0 <= k < s@.len() && s@[k].hash == h,
{
    let mut r: Vec<DeployHash> = Vec::new();
    let mut i: usize = 0;
    while i < s.len()
        invariant
            i <= s@.len(),
            r@.len() == i,
            forall|k: int| 0 <= k < i ==> r@[k] == s@[k].hash,
        decreases s@.len() - i,
    {
        r.push(s[i].hash);
        i = i + 1;
    }
    proof {
        assert forall|h: DeployHash| r@.contains(h) <==> exists|k: int| 0 <= k < s@.len() && s@[k].hash == h by {
            if exists|k: int| 0 <= k < s@.len() && s@[k].hash == h {
                let k = choose|k: int| 0 <= k < s@.len() && s@[k].hash == h;
                assert(r@[k] == h);
            }
        }
    }
    r
}

/// Takes the block with this hash out of `blocks`, if it is there.
fn take_block(blocks: &mut Vec<ProtoBlockDeploys>, block: BlockHash) -> (r: Option<ProtoBlockDeploys>)
    requires
        distinct_blocks(old(blocks)@),
    ensures
        distinct_blocks(final(blocks)@),
        match r {
            Some(x) => old(blocks)@.contains(x) && x.block_hash == block,
            None => final(blocks)@ == old(blocks)@ && forall|k: int|
                0 <= k < old(blocks)@.len() ==> old(blocks)@[k].block_hash != block,
        },
        forall|y: ProtoBlockDeploys|
            final(blocks)@.contains(y) <==> (old(blocks)@.contains(y) && y.block_hash != block),
{
    let mut i: usize = 0;
    while i < blocks.len()
        invariant
            i <= blocks@.len(),
            blocks@ == old(blocks)@,
            distinct_blocks(old(blocks)@),
            forall|k: int| 0 <= k < i ==> blocks@[k].block_hash != block,
        decreases blocks@.len() - i,
    {
        if blocks[i].block_hash == block {
            let ghost before = blocks@;
            let x = blocks.remove(i);
            proof {
                before.remove_ensures(i as int);
                assert(before[i as int] == x);
                assert forall|y: ProtoBlockDeploys|
                    #[trigger] blocks@.contains(y) <==> (before.contains(y) && y.block_hash != block) by {
                    if blocks@.contains(y) {
                        let q = choose|q: int| 0 <= q < blocks@.len() && blocks@[q] == y;
                        let q2 = if q < i { q } else { q + 1 };
                        assert(blocks@[q] == before[q2]);
                        assert(q2 != i);
                        assert(before[q2].block_hash != before[i as int].block_hash);
                        assert(before.contains(y));
                    }
                    if before.contains(y) && y.block_hash != block {
                        let q = choose|q: int| 0 <= q < before.len() && before[q] == y;
                        assert(q != i);
                        if q < i {
                            assert(blocks@[q] == y);
                        } else {
                            assert(blocks@[q - 1] == y);
                        }
                    }
                }
                assert forall|a: int, b: int|
                    0 <= a < blocks@.len() && 0 <= b < blocks@.len() && a != b implies blocks@[a].block_hash
                    != blocks@[b].block_hash by {
                    let a2 = if a < i { a } else { a + 1 };
                    let b2 = if b < i { b } else { b + 1 };
                    assert(blocks@[a] == before[a2]);
                    assert(blocks@[b] == before[b2]);
                }
            }
            return Some(x);
        }
        i = i + 1;
    }
    proof {
        assert forall|y: ProtoBlockDeploys|
            blocks@.contains(y) <==> (old(blocks)@.contains(y) && y.block_hash != block) by {
            if blocks@.contains(y) {
                let q = choose|q: int| 0 <= q < blocks@.len() && blocks@[q] == y;
                assert(blocks@[q].block_hash != block);
            }
        }
    }
    None
}

/// Adds `x` to `blocks`, in place of any block with its hash.
fn put_block(blocks: &mut Vec<ProtoBlockDeploys>, x: ProtoBlockDeploys)
    requires
        distinct_blocks(old(blocks)@),
    ensures
        distinct_blocks(final(blocks)@),
        forall|y: ProtoBlockDeploys|
            final(blocks)@.contains(y) <==> (y == x || (old(blocks)@.contains(y) && y.block_hash
                != x.block_hash)),
{
    let _ = take_block(blocks, x.block_hash);
    let ghost before = blocks@;
    blocks.push(x);
    proof {
        assert forall|y: ProtoBlockDeploys|
            #[trigger] blocks@.contains(y) <==> (y == x || before.contains(y)) by {
            if blocks@.contains(y) {
                let q = choose|q: int| 0 <= q < blocks@.len() && blocks@[q] == y;
                if q < before.len() {
                    assert(before[q] == y);
                }
            }
            if before.contains(y) {
                let q = choose|q: int| 0 <= q < before.len() && before[q] == y;
                assert(blocks@[q] == y);
            }
            if y == x {
                assert(blocks@[before.len() as int] == y);
            }
        }
        assert forall|a: int, b: int|
            0 <= a < blocks@.len() && 0 <= b < blocks@.len() && a != b implies blocks@[a].block_hash
            != blocks@[b].block_hash by {
            if a < before.len() && b < before.len() {
                assert(blocks@[a] == before[a] && blocks@[b] == before[b]);
            } else if a < before.len() {
                assert(before.contains(blocks@[a]));
            } else {
                assert(before.contains(blocks@[b]));
            }
        }
    }
}

/// Blocks are distinct, and so are the deploys of each.
pub open spec fn blocks_wf(s: Seq<ProtoBlockDeploys>) -> bool {
    &&& distinct_blocks(s)
    &&& forall|i: int| 0 <= i < s.len() ==> distinct_deploys(#[trigger] s[i].deploys@)
}

proof fn lemma_blocks_wf_members(old: Seq<ProtoBlockDeploys>, new: Seq<ProtoBlockDeploys>, x: Option<ProtoBlockDeploys>)
    requires
        blocks_wf(old),
        distinct_blocks(new),
        x is Some ==> distinct_deploys(x.unwrap().deploys@),
        forall|y: ProtoBlockDeploys| new.contains(y) ==> old.contains(y) || x == Some(y),
    ensures
        blocks_wf(new),
{
    assert forall|i: int| 0 <= i < new.len() implies distinct_deploys(#[trigger] new[i].deploys@) by {
        assert(new.contains(new[i]));
        if old.contains(new[i]) {
            let k = choose|k: int| 0 <= k < old.len() && old[k] == new[i];
            assert(distinct_deploys(old[k].deploys@));
        }
    }
}

/// Some block of `blocks` holds a deploy with this hash.
fn in_blocks(blocks: &Vec<ProtoBlockDeploys>, h: DeployHash) -> (r: bool)
    ensures
        r == in_some_block(blocks@, h),
{
    let mut i: usize = 0;
    while i < blocks.len()
        invariant
            i <= blocks@.len(),
            forall|a: int, b: int|
                0 <= a < i && 0 <= b < blocks@[a].deploys@.len() ==> blocks@[a].deploys@[b].hash != h,
        decreases blocks@.len() - i,
    {
        let ds = &blocks[i].deploys;
        let mut j: usize = 0;
        while j < ds.len()
            invariant
                i < blocks@.len(),
                *ds == blocks@[i as int].deploys,
                j <= ds@.len(),
                forall|b: int| 0 <= b < j ==> ds@[b].hash != h,
            decreases ds@.len() - j,
        {
            if ds[j].hash == h {
                assert(blocks@[i as int].deploys@[j as int].hash == h);
                return true;
            }
            j = j + 1;
        }
        i = i + 1;
    }
    false
}

/// The deploys that the block proposer tracks: pending, proposed in a block, or finalized.
#[derive(Clone, Debug)]
pub struct BlockProposerState {
    pub pending: Vec<BufferedDeploy>,
    pub proposed: Vec<ProtoBlockDeploys>,
    pub finalized: Vec<ProtoBlockDeploys>,
}

impl BlockProposerState {
    pub open spec fn wf(self) -> bool {
        &&& distinct_deploys(self.pending@)
        &&& blocks_wf(self.proposed@)
        &&& blocks_wf(self.finalized@)
    }

    /// Holds `deploy` as pending, in place of any pending deploy with its hash, unless it is
    /// expired at `now` or a finalized block holds it.
    pub fn add_deploy(&mut self, now: Timestamp, deploy: BufferedDeploy)
        requires
            old(self).wf(),
        ensures
            final(self).wf(),
            final(self).proposed == old(self).proposed,
            final(self).finalized == old(self).finalized,
            deploy.header.is_expired_at(now) || in_some_block(old(self).finalized@, deploy.hash)
                ==> final(self).pending == old(self).pending,
            !(deploy.header.is_expired_at(now) || in_some_block(old(self).finalized@, deploy.hash))
                ==> forall|e: BufferedDeploy|
                final(self).pending@.contains(e) <==> (e == deploy || (old(self).pending@.contains(e)
                    && e.hash != deploy.hash)),
    {
        if deploy.header.expired(now) || in_blocks(&self.finalized, deploy.hash) {
            return;
        }
        let single: Vec<DeployHash> = vec![deploy.hash];
        assert(forall|h: DeployHash| single@.contains(h) <==> h == deploy.hash) by {
            assert(single@[0] == deploy.hash);
        }
        let mut p = deploys_where(&self.pending, &single, false);
        let ghost before = p@;
        p.push(deploy);
        proof {
            assert forall|e: BufferedDeploy|
                #[trigger] p@.contains(e) <==> (e == deploy || before.contains(e)) by {
                if p@.contains(e) {
                    let q = choose|q: int| 0 <= q < p@.len() && p@[q] == e;
                    if q < before.len() {
                        assert(before[q] == e);
                    }
                }
                if before.contains(e) {
                    let q = choose|q: int| 0 <= q < before.len() && before[q] == e;
                    assert(p@[q] == e);
                }
                if e == deploy {
                    assert(p@[before.len() as int] == e);
                }
            }
            assert forall|a: int, b: int|
                0 <= a < p@.len() && 0 <= b < p@.len() && a != b implies p@[a].hash != p@[b].hash by {
                if a < before.len() && b < before.len() {
                    assert(p@[a] == before[a] && p@[b] == before[b]);
                } else if a < before.len() {
                    assert(before.contains(p@[a]));
                } else {
                    assert(before.contains(p@[b]));
                }
            }
        }
        self.pending = p;
    }

    /// A block was proposed with these deploys: the pending ones among them move into it.
    pub fn added_block(&mut self, block: BlockHash, deploys: &Vec<DeployHash>)
        requires
            old(self).wf(),
        ensures
            final(self).wf(),
            final(self).finalized == old(self).finalized,
            forall|e: BufferedDeploy|
                final(self).pending@.contains(e) <==> (old(self).pending@.contains(e) && !deploys@.contains(e.hash)),
            exists|x: ProtoBlockDeploys|
                #[trigger] final(self).proposed@.contains(x) && x.block_hash == block && forall|e: BufferedDeploy|
                    x.deploys@.contains(e) <==> (old(self).pending@.contains(e) && deploys@.contains(e.hash)),
            forall|y: ProtoBlockDeploys|
                y.block_hash != block ==> (final(self).proposed@.contains(y) <==> old(self).proposed@.contains(y)),
    {
        let moved = deploys_where(&self.pending, deploys, true);
        let rest = deploys_where(&self.pending, deploys, false);
        let x = ProtoBlockDeploys { block_hash: block, deploys: moved };
        let ghost gx = x;
        self.pending = rest;
        let ghost before = self.proposed@;
        put_block(&mut self.proposed, x);
        proof {
            lemma_blocks_wf_members(before, self.proposed@, Some(gx));
            assert(self.proposed@.contains(gx));
        }
    }

    /// A proposed block was finalized: it moves to the finalized blocks, and its deploys leave
    /// the pending ones. A block that was not proposed changes nothing.
    pub fn finalized_block(&mut self, block: BlockHash)
        requires
            old(self).wf(),
        ensures
            final(self).wf(),
            (forall|k: int| 0 <= k < old(self).proposed@.len() ==> old(self).proposed@[k].block_hash != block)
                ==> final(self).pending == old(self).pending && final(self).finalized == old(self).finalized
                && final(self).proposed@ == old(self).proposed@,
            (exists|k: int| 0 <= k < old(self).proposed@.len() && old(self).proposed@[k].block_hash == block)
                ==> exists|x: ProtoBlockDeploys| {
                &&& #[trigger] old(self).proposed@.contains(x)
                &&& x.block_hash == block
                &&& forall|y: ProtoBlockDeploys|
                    final(self).proposed@.contains(y) <==> (old(self).proposed@.contains(y) && y.block_hash != block)
                &&& forall|y: ProtoBlockDeploys|
                    final(self).finalized@.contains(y) <==> (y == x || (old(self).finalized@.contains(y) && y.block_hash != block))
                &&& forall|e: BufferedDeploy|
                    final(self).pending@.contains(e) <==> (old(self).pending@.contains(e) && !exists|j: int|
                        0 <= j < x.deploys@.len() && x.deploys@[j].hash == e.hash)
            },
    {
        let ghost before_proposed = self.proposed@;
        match take_block(&mut self.proposed, block) {
            None => {
                assert(forall|k: int| 0 <= k < before_proposed.len() ==> before_proposed[k].block_hash != block);
            },
            Some(x) => {
                let ghost gx = x;
                proof {
                    lemma_blocks_wf_members(before_proposed, self.proposed@, None);
                    let k = choose|k: int| 0 <= k < before_proposed.len() && before_proposed[k] == gx;
                    assert(distinct_deploys(before_proposed[k].deploys@));
                }
                let hashes = hashes_of(&x.deploys);
                self.pending = deploys_where(&self.pending, &hashes, false);
                let ghost before_finalized = self.finalized@;
                put_block(&mut self.finalized, x);
                proof {
                    lemma_blocks_wf_members(before_finalized, self.finalized@, Some(gx));
                    assert(before_proposed.contains(gx));
                }
            },
        }
    }

    /// A proposed block was orphaned: its deploys become pending again, in place of pending
    /// deploys with their hashes. A block that was not proposed changes nothing.
    pub fn orphaned_block(&mut self, block: BlockHash)
        requires
            old(self).wf(),
        ensures
            final(self).wf(),
            final(self).finalized == old(self).finalized,
            (forall|k: int| 0 <= k < old(self).proposed@.len() ==> old(self).proposed@[k].block_hash != block)
                ==> final(self).pending == old(self).pending && final(self).finalized == old(self).finalized
                && final(self).proposed@ == old(self).proposed@,
            (exists|k: int| 0 <= k < old(self).proposed@.len() && old(self).proposed@[k].block_hash == block)
                ==> exists|x: ProtoBlockDeploys| {
                &&& #[trigger] old(self).proposed@.contains(x)
                &&& x.block_hash == block
                &&& forall|y: ProtoBlockDeploys|
                    final(self).proposed@.contains(y) <==> (old(self).proposed@.contains(y) && y.block_hash != block)
                &&& forall|e: BufferedDeploy|
                    final(self).pending@.contains(e) <==> (x.deploys@.contains(e) || (old(self).pending@.contains(e) && !exists|j: int|
                        0 <= j < x.deploys@.len() && x.deploys@[j].hash == e.hash))
            },
    {
        let ghost before_proposed = self.proposed@;
        match take_block(&mut self.proposed, block) {
            None => {
                assert(forall|k: int| 0 <= k < before_proposed.len() ==> before_proposed[k].block_hash != block);
            },
            Some(x) => {
                let ghost gx = x;
                proof {
                    lemma_blocks_wf_members(before_proposed, self.proposed@, None);
                    let k = choose|k: int| 0 <= k < before_proposed.len() && before_proposed[k] == gx;
                    assert(distinct_deploys(before_proposed[k].deploys@));
                }
                let hashes = hashes_of(&x.deploys);
                let mut p = deploys_where(&self.pending, &hashes, false);
                let ghost rest = p@;
                let mut i: usize = 0;
                while i < x.deploys.len()
                    invariant
                        x == gx,
                        distinct_deploys(x.deploys@),
                        distinct_deploys(rest),
                        forall|e: BufferedDeploy| rest.contains(e) ==> !hashes@.contains(e.hash),
                        forall|h: DeployHash|
                            hashes@.contains(h) <==> exists|k: int| 0 <= k < x.deploys@.len() && x.deploys@[k].hash == h,
                        i <= x.deploys@.len(),
                        p@ == rest + x.deploys@.subrange(0, i as int),
                    decreases x.deploys@.len() - i,
                {
                    p.push(x.deploys[i]);
                    proof {
                        assert(p@ =~= rest + x.deploys@.subrange(0, i as int + 1));
                    }
                    i = i + 1;
                }
                proof {
                    assert(x.deploys@.subrange(0, i as int) =~= x.deploys@);
                    let ds = x.deploys@;
                    assert forall|a: int, b: int|
                        0 <= a < p@.len() && 0 <= b < p@.len() && a != b implies p@[a].hash != p@[b].hash by {
                        if a < rest.len() && b < rest.len() {
                            assert(p@[a] == rest[a] && p@[b] == rest[b]);
                        } else if a >= rest.len() && b >= rest.len() {
                            assert(p@[a] == ds[a - rest.len()] && p@[b] == ds[b - rest.len()]);
                        } else {
                            let (r0, d0) = if a < rest.len() { (a, b) } else { (b, a) };
                            assert(rest.contains(p@[r0]));
                            assert(p@[d0] == ds[d0 - rest.len()]);
                            assert(hashes@.contains(ds[d0 - rest.len()].hash));
                        }
                    }
                    assert forall|e: BufferedDeploy|
                        #[trigger] p@.contains(e) <==> (ds.contains(e) || rest.contains(e)) by {
                        if p@.contains(e) {
                            let q = choose|q: int| 0 <= q < p@.len() && p@[q] == e;
                            if q < rest.len() {
                                assert(rest[q] == e);
                            } else {
                                assert(ds[q - rest.len()] == e);
                            }
                        }
                        if rest.contains(e) {
                            let q = choose|q: int| 0 <= q < rest.len() && rest[q] == e;
                            assert(p@[q] == e);
                        }
                        if ds.contains(e) {
                            let q = choose|q: int| 0 <= q < ds.len() && ds[q] == e;
                            assert(p@[rest.len() + q] == e);
                        }
                    }
                    assert(before_proposed.contains(gx));
                }
                self.pending = p;
            },
        }
    }

    proof fn lemma_pruned_blocks_wf(old: Seq<ProtoBlockDeploys>, new: Seq<ProtoBlockDeploys>, now: Timestamp)
        requires
            blocks_wf(old),
            blocks_view(new) == live_blocks(blocks_view(old), now),
        ensures
            blocks_wf(new),
    {
        let v = blocks_view(old);
        assert forall|i: int| 0 <= i < v.len() implies distinct_deploys(#[trigger] v[i].1) by {
            assert(v[i].1 == old[i].deploys@);
        }
        assert forall|i: int, j: int| 0 <= i < v.len() && 0 <= j < v.len() && i != j implies v[i].0 != v[j].0 by {
            assert(v[i].0 == old[i].block_hash && v[j].0 == old[j].block_hash);
        }
        lemma_live_blocks_wf(v, now);
        let w = blocks_view(new);
        assert forall|i: int, j: int| 0 <= i < new.len() && 0 <= j < new.len() && i != j implies new[i].block_hash != new[j].block_hash by {
            assert(w[i].0 == new[i].block_hash && w[j].0 == new[j].block_hash);
        }
        assert forall|i: int| 0 <= i < new.len() implies distinct_deploys(#[trigger] new[i].deploys@) by {
            assert(w[i].1 == new[i].deploys@);
        }
    }

    /// Removes everything expired at `now`; returns how many deploys were removed.
    pub fn prune(&mut self, now: Timestamp) -> (r: usize)
        requires
            old(self).pending@.len() + total_deploys(blocks_view(old(self).proposed@))
                + total_deploys(blocks_view(old(self).finalized@)) <= usize::MAX,
        ensures
            final(self).pending@ == live(old(self).pending@, now),
            blocks_view(final(self).proposed@) == live_blocks(blocks_view(old(self).proposed@), now),
            blocks_view(final(self).finalized@) == live_blocks(blocks_view(old(self).finalized@), now),
            old(self).wf() ==> final(self).wf(),
            r == (old(self).pending@.len() - live(old(self).pending@, now).len()) + expired_in_blocks(
                blocks_view(old(self).proposed@),
                now,
            ) + expired_in_blocks(blocks_view(old(self).finalized@), now),
    {
        proof {
            lemma_expired_le_total(blocks_view(self.proposed@), now);
            lemma_expired_le_total(blocks_view(self.finalized@), now);
            lemma_live_len(self.pending@, now);
        }
        let ghost before = *self;
        let pending = prune_deploys(&mut self.pending, now);
        let proposed = prune_blocks(&mut self.proposed, now);
        let finalized = prune_blocks(&mut self.finalized, now);
        proof {
            if before.wf() {
                lemma_live_distinct(before.pending@, now);
                Self::lemma_pruned_blocks_wf(before.proposed@, self.proposed@, now);
                Self::lemma_pruned_blocks_wf(before.finalized@, self.finalized@, now);
            }
        }
        pending + proposed + finalized
    }
}

} // verus!
