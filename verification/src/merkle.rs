use vstd::prelude::*;

use crate::bytes::{le_bytes, zeros, zero_bytes, bytes_eq, copy_bytes, push_u64_le, push_bytes};
use crate::hashing::{hash_pair, hash_pair_of};
use crate::types::{Header, HeaderView, SyncCommittee, CommitteeView};

verus! {

/// A 32-byte chunk holding the little-endian bytes of `x`.
pub open spec fn u64_chunk(x: u64) -> Seq<u8> {
    le_bytes(x) + zeros(24)
}

/// The root the Merkle walk reconstructs from a leaf, the ordered sibling
/// hashes, and the low bits of the generalized index: each bit says on which
/// side the accumulated node is concatenated before hashing.
pub open spec fn branch_root_of(leaf: Seq<u8>, branch: Seq<Seq<u8>>, gindex: u64) -> Seq<u8>
    decreases branch.len(),
{
    if branch.len() == 0 {
        leaf
    } else {
        let next = if gindex % 2 == 1 {
            hash_pair_of(branch[0], leaf)
        } else {
            hash_pair_of(leaf, branch[0])
        };
        branch_root_of(next, branch.subrange(1, branch.len() as int), gindex / 2)
    }
}

/// One level of pairwise hashing.
pub open spec fn hash_level_of(leaves: Seq<Seq<u8>>) -> Seq<Seq<u8>> {
    Seq::new(leaves.len() / 2, |i: int| hash_pair_of(leaves[2 * i], leaves[2 * i + 1]))
}

/// The root of the binary hash tree over a power-of-two number of leaves.
pub open spec fn merkle_root_of(leaves: Seq<Seq<u8>>) -> Seq<u8>
    decreases leaves.len(),
{
    if leaves.len() <= 1 {
        if leaves.len() == 1 {
            leaves[0]
        } else {
            zeros(32)
        }
    } else {
        merkle_root_of(hash_level_of(leaves))
    }
}

/// `n` is a power of two.
pub open spec fn is_pow2(n: nat) -> bool
    decreases n,
{
    if n == 0 {
        false
    } else if n == 1 {
        true
    } else {
        n % 2 == 0 && is_pow2(n / 2)
    }
}

/// Recompute the root from `leaf` along `branch` and compare it to `root`.
/// A branch whose length differs from the expected `depth` voids the proof
/// without any hashing.
pub fn verify_branch(
    leaf: &Vec<u8>,
    branch: &Vec<Vec<u8>>,
    depth: u64,
    gindex: u64,
    root: &Vec<u8>,
) -> (r: bool)
    requires
        depth <= usize::MAX,
    ensures
        r == (branch@.len() == depth && branch_root_of(
            leaf@,
            crate::types::branch_view(branch@),
            gindex,
        ) == root@),
{
    if branch.len() != depth as usize {
        return false;
    }
    let ghost bview = crate::types::branch_view(branch@);
    let mut value = copy_bytes(leaf);
    let mut idx: u64 = gindex;
    let mut i: usize = 0;
    proof {
        assert(bview.subrange(0, bview.len() as int) =~= bview);
    }
    while i < branch.len()
        invariant
            i <= branch@.len(),
            bview == crate::types::branch_view(branch@),
            bview.len() == branch@.len(),
            branch_root_of(value@, bview.subrange(i as int, bview.len() as int), idx)
                == branch_root_of(leaf@, bview, gindex),
        decreases branch@.len() - i,
    {
        let ghost rest = bview.subrange(i as int, bview.len() as int);
        let next = if idx % 2 == 1 {
            hash_pair(&branch[i], &value)
        } else {
            hash_pair(&value, &branch[i])
        };
        proof {
            assert(rest[0] == bview[i as int]);
            assert(rest.subrange(1, rest.len() as int)
                =~= bview.subrange(i as int + 1, bview.len() as int));
        }
        value = next;
        idx = idx / 2;
        i = i + 1;
    }
    proof {
        assert(bview.subrange(bview.len() as int, bview.len() as int) =~= Seq::<Seq<u8>>::empty());
    }
    bytes_eq(&value, root)
}

/// The views of a vector of tree nodes.
pub open spec fn node_views(s: Seq<Vec<u8>>) -> Seq<Seq<u8>> {
    s.map_values(|v: Vec<u8>| v@)
}

/// Hash a power-of-two number of leaves pairwise up to the root.
pub fn merkle_root(leaves: Vec<Vec<u8>>) -> (r: Vec<u8>)
    requires
        is_pow2(leaves@.len() as nat),
        forall|i: int| 0 <= i < leaves@.len() ==> (#[trigger] leaves@[i])@.len() == 32,
    ensures
        r@ == merkle_root_of(node_views(leaves@)),
        r@.len() == 32,
{
    let mut level = leaves;
    while level.len() > 1
        invariant
            is_pow2(level@.len() as nat),
            level@.len() >= 1,
            forall|i: int| 0 <= i < level@.len() ==> (#[trigger] level@[i])@.len() == 32,
            merkle_root_of(node_views(level@)) == merkle_root_of(node_views(leaves@)),
        decreases level@.len(),
    {
        let ghost prev = node_views(level@);
        let half = level.len() / 2;
        let mut next: Vec<Vec<u8>> = Vec::new();
        let mut i: usize = 0;
        while i < half
            invariant
                half == level@.len() / 2,
                level@.len() % 2 == 0,
                level@.len() >= 2,
                level@.len() <= usize::MAX,
                i <= half,
                prev == node_views(level@),
                next@.len() == i,
                    forall|j: int| 0 <= j < i ==> (#[trigger] next@[j])@ == hash_pair_of(
                    prev[2 * j],
                    prev[2 * j + 1],
                ) && (#[trigger] next@[j])@.len() == 32,
            decreases half - i,
        {
            proof {
                assert(2 * (i as int) + 1 < level@.len());
            }
            let h = hash_pair(&level[2 * i], &level[2 * i + 1]);
            next.push(h);
            i = i + 1;
        }
        proof {
            assert(node_views(next@) =~= hash_level_of(prev));
        }
        level = next;
    }
    let r = copy_bytes(&level[0]);
    proof {
        assert(node_views(level@)[0] == level@[0]@);
    }
    r
}

/// The hash tree root of a header: its five field chunks, right-padded with
/// zero chunks to eight leaves.
pub open spec fn header_root_of(h: HeaderView) -> Seq<u8> {
    hash_pair_of(
        hash_pair_of(
            hash_pair_of(u64_chunk(h.slot), u64_chunk(h.proposer_index)),
            hash_pair_of(h.parent_root, h.state_root),
        ),
        hash_pair_of(
            hash_pair_of(h.body_root, zeros(32)),
            hash_pair_of(zeros(32), zeros(32)),
        ),
    )
}

/// Compute the hash tree root of a header.
pub fn header_root(h: &Header) -> (r: Vec<u8>)
    ensures
        r@ == header_root_of(h@),
        r@.len() == 32,
{
    let mut c0: Vec<u8> = Vec::new();
    push_u64_le(&mut c0, h.slot);
    let mut z24 = zero_bytes(24);
    push_bytes(&mut c0, &z24);
    proof {
        assert(c0@ =~= u64_chunk(h.slot));
    }
    let mut c1: Vec<u8> = Vec::new();
    push_u64_le(&mut c1, h.proposer_index);
    push_bytes(&mut c1, &z24);
    proof {
        assert(c1@ =~= u64_chunk(h.proposer_index));
    }
    let z32 = zero_bytes(32);
    let left = hash_pair(&hash_pair(&c0, &c1), &hash_pair(&h.parent_root, &h.state_root));
    let right = hash_pair(&hash_pair(&h.body_root, &z32), &hash_pair(&z32, &z32));
    hash_pair(&left, &right)
}

/// The root of one 48-byte public key: its two chunks hashed, the second
/// chunk right-padded with 16 zero bytes.
pub open spec fn pubkey_root_of(pk: Seq<u8>) -> Seq<u8> {
    hash_pair_of(pk.subrange(0, 32), pk.subrange(32, 48) + zeros(16))
}

/// Compute the root of a 48-byte public key.
pub fn pubkey_root(pk: &Vec<u8>) -> (r: Vec<u8>)
    requires
        pk@.len() == 48,
    ensures
        r@ == pubkey_root_of(pk@),
        r@.len() == 32,
{
    let a = crate::bytes::read_bytes(pk, 0, 32);
    let mut b = crate::bytes::read_bytes(pk, 32, 16);
    let z16 = zero_bytes(16);
    push_bytes(&mut b, &z16);
    proof {
        assert(b@ =~= pk@.subrange(32, 48) + zeros(16));
    }
    hash_pair(&a, &b)
}

/// The hash tree root of a sync committee: the root of the 512 public-key
/// roots paired with the root of the aggregate key.
pub open spec fn committee_root_of(c: CommitteeView) -> Seq<u8> {
    hash_pair_of(
        merkle_root_of(Seq::new(c.pubkeys.len(), |i: int| pubkey_root_of(c.pubkeys[i]))),
        pubkey_root_of(c.aggregate_pubkey),
    )
}

/// Compute the hash tree root of a sync committee.
pub fn committee_root(c: &SyncCommittee) -> (r: Vec<u8>)
    requires
        c.wf(),
    ensures
        r@ == committee_root_of(c@),
        r@.len() == 32,
{
    let ghost leaf_spec = Seq::new(c@.pubkeys.len(), |i: int| pubkey_root_of(c@.pubkeys[i]));
    let mut leaves: Vec<Vec<u8>> = Vec::new();
    let mut i: usize = 0;
    while i < c.pubkeys.len()
        invariant
            i <= c.pubkeys@.len(),
            c.wf(),
            leaf_spec == Seq::new(c@.pubkeys.len(), |j: int| pubkey_root_of(c@.pubkeys[j])),
            leaves@.len() == i,
            forall|j: int| 0 <= j < i ==> (#[trigger] leaves@[j])@ == leaf_spec[j] && (
            #[trigger] leaves@[j])@.len() == 32,
        decreases c.pubkeys@.len() - i,
    {
        proof {
            assert(c@.pubkeys[i as int] == c.pubkeys@[i as int]@);
        }
        let lr = pubkey_root(&c.pubkeys[i]);
        leaves.push(lr);
        i = i + 1;
    }
    proof {
        assert(node_views(leaves@) =~= leaf_spec);
        assert(c.pubkeys@.len() == 512) by {
            assert(c@.pubkeys.len() == c.pubkeys@.len());
        }
        lemma_pow2_512();
    }
    let keys_root = merkle_root(leaves);
    let agg_root = pubkey_root(&c.aggregate_pubkey);
    hash_pair(&keys_root, &agg_root)
}

/// 512 is a power of two.
proof fn lemma_pow2_512()
    ensures
        is_pow2(512),
{
    reveal_with_fuel(is_pow2, 11);
}

} // verus!
