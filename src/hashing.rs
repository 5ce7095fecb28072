use vstd::prelude::*;

use blake2::digest::consts::U32;
use blake2::Digest as _;

use crate::types::{BlockHeader, DeployHash, Digest};

verus! {

/// The 32-byte BLAKE2b digest of a byte string.
pub uninterp spec fn blake2b_256_of(data: Seq<u8>) -> Seq<u8>;

/// Relies on `blake2::Blake2b<U32>::digest`: the 32-byte BLAKE2b digest of `data`, a function
/// of the bytes alone.
#[verifier::external_body]
fn blake2b_256(data: &Vec<u8>) -> (r: Vec<u8>)
    ensures
        r@ == blake2b_256_of(data@),
        r@.len() == 32,
{
    blake2::Blake2b::<U32>::digest(data.as_slice()).to_vec()
}

/// The eight little-endian bytes of `x`.
pub open spec fn u64_le(x: u64) -> Seq<u8> {
    seq![
        x as u8,
        (x >> 8u64) as u8,
        (x >> 16u64) as u8,
        (x >> 24u64) as u8,
        (x >> 32u64) as u8,
        (x >> 40u64) as u8,
        (x >> 48u64) as u8,
        (x >> 56u64) as u8,
    ]
}

/// The integer whose little-endian bytes open `s`.
pub open spec fn le_u64(s: Seq<u8>) -> u64
    recommends
        s.len() >= 8,
{
    (s[0] as u64) | ((s[1] as u64) << 8u64) | ((s[2] as u64) << 16u64) | ((s[3] as u64) << 24u64)
        | ((s[4] as u64) << 32u64) | ((s[5] as u64) << 40u64) | ((s[6] as u64) << 48u64) | ((
    s[7] as u64) << 56u64)
}

/// The canonical byte encoding of a header: each integer field little-endian, in declaration
/// order, then one byte for the switch-block flag.
pub open spec fn header_bytes(h: BlockHeader) -> Seq<u8> {
    u64_le(h.parent) + u64_le(h.height) + u64_le(h.era_id) + u64_le(h.state_root) + u64_le(
        h.body_hash,
    ) + u64_le(h.timestamp) + seq![if h.is_switch_block { 1u8 } else { 0u8 }]
}

/// The encoding of a body: each deploy hash little-endian, in order.
pub open spec fn deploy_hashes_bytes(s: Seq<DeployHash>) -> Seq<u8>
    decreases s.len(),
{
    if s.len() == 0 {
        Seq::empty()
    } else {
        deploy_hashes_bytes(s.drop_last()) + u64_le(s.last())
    }
}

/// Shortened digest of a byte string.
pub open spec fn digest_of(data: Seq<u8>) -> Digest {
    le_u64(blake2b_256_of(data))
}

/// The hash that identifies a block with this header.
pub open spec fn header_hash(h: BlockHeader) -> Digest {
    digest_of(header_bytes(h))
}

/// The hash that a header commits to for a body with these deploys.
pub open spec fn body_hash(deploys: Seq<DeployHash>) -> Digest {
    digest_of(deploy_hashes_bytes(deploys))
}

fn push_u64(v: &mut Vec<u8>, x: u64)
    ensures
        final(v)@ == old(v)@ + u64_le(x),
{
    v.push(x as u8);
    v.push((x >> 8u64) as u8);
    v.push((x >> 16u64) as u8);
    v.push((x >> 24u64) as u8);
    v.push((x >> 32u64) as u8);
    v.push((x >> 40u64) as u8);
    v.push((x >> 48u64) as u8);
    v.push((x >> 56u64) as u8);
    assert(final(v)@ =~= old(v)@ + u64_le(x));
}

fn read_u64(s: &Vec<u8>) -> (r: u64)
    requires
        s@.len() >= 8,
    ensures
        r == le_u64(s@),
{
    (s[0] as u64) | ((s[1] as u64) << 8u64) | ((s[2] as u64) << 16u64) | ((s[3] as u64) << 24u64)
        | ((s[4] as u64) << 32u64) | ((s[5] as u64) << 40u64) | ((s[6] as u64) << 48u64) | ((
    s[7] as u64) << 56u64)
}

/// Shortened BLAKE2b digest of `data`.
pub fn digest(data: &Vec<u8>) -> (r: Digest)
    ensures
        r == digest_of(data@),
{
    let full = blake2b_256(data);
    read_u64(&full)
}

/// Encodes a header as `header_bytes` states.
pub fn encode_header(h: &BlockHeader) -> (r: Vec<u8>)
    ensures
        r@ == header_bytes(*h),
{
    let mut v: Vec<u8> = Vec::new();
    push_u64(&mut v, h.parent);
    push_u64(&mut v, h.height);
    push_u64(&mut v, h.era_id);
    push_u64(&mut v, h.state_root);
    push_u64(&mut v, h.body_hash);
    push_u64(&mut v, h.timestamp);
    v.push(if h.is_switch_block { 1u8 } else { 0u8 });
    assert(v@ =~= header_bytes(*h));
    v
}

/// Encodes the deploy hashes of a body as `deploy_hashes_bytes` states.
pub fn encode_deploy_hashes(s: &Vec<DeployHash>) -> (r: Vec<u8>)
    ensures
        r@ == deploy_hashes_bytes(s@),
{
    let mut v: Vec<u8> = Vec::new();
    let mut i: usize = 0;
    while i < s.len()
        invariant
            i <= s@.len(),
            v@ == deploy_hashes_bytes(s@.subrange(0, i as int)),
        decreases s@.len() - i,
    {
        proof {
            assert(s@.subrange(0, i as int + 1).drop_last() =~= s@.subrange(0, i as int));
        }
        push_u64(&mut v, s[i]);
        i = i + 1;
    }
    assert(s@.subrange(0, s@.len() as int) =~= s@);
    v
}

impl BlockHeader {
    /// The hash of the block that this header belongs to.
    pub fn block_hash(&self) -> (r: Digest)
        ensures
            r == header_hash(*self),
    {
        let bytes = encode_header(self);
        digest(&bytes)
    }
}

/// The body hash that a header must carry for a body with these deploys.
pub fn compute_body_hash(deploy_hashes: &Vec<DeployHash>) -> (r: Digest)
    ensures
        r == body_hash(deploy_hashes@),
{
    let bytes = encode_deploy_hashes(deploy_hashes);
    digest(&bytes)
}

} // verus!
