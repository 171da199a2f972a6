//! Merkle inclusion proofs of transactions in a block.

use vstd::prelude::*;
use crate::db::models::MerkleProof;
use crate::hexcodec::{law_hex_round_trip, hex_decode, hex_decode_text, hex_encode, hex_encode_text, is_hex_text, reverse_bytes, reversed};

verus! {

/// The double SHA-256 digest of some bytes (the 32 bytes that
/// `bitcoin_hashes::sha256d::Hash::hash` computes).
pub uninterp spec fn sha256d_digest(data: Seq<u8>) -> Seq<u8>;

/// `bitcoin_hashes::sha256d::Hash::hash` followed by `to_byte_array`: the
/// double SHA-256 digest of the data, whose 32 bytes are named `sha256d_digest`.
#[verifier::external_body]
pub(crate) fn sha256d(data: &[u8]) -> (r: Vec<u8>)
    ensures
        r@ == sha256d_digest(data@),
        r@.len() == 32,
{
    let h = <bitcoin_hashes::sha256d::Hash as bitcoin_hashes::Hash>::hash(data);
    bitcoin_hashes::Hash::to_byte_array(h).to_vec()
}

/// The sibling hashes of a proof, as text.
pub open spec fn branch_text(branch: Seq<String>) -> Seq<Seq<char>> {
    branch.map_values(|s: String| s@)
}

/// One level up the tree: the node at an even position is the left child.
pub open spec fn merkle_step(current: Seq<u8>, sibling: Seq<u8>, pos: nat) -> Seq<u8> {
    if pos % 2 == 0 {
        sha256d_digest(current + sibling)
    } else {
        sha256d_digest(sibling + current)
    }
}

/// The node reached from `current` (internal byte order) by climbing the
/// branch whose siblings are given in display hexadecimal.
pub open spec fn merkle_climb(current: Seq<u8>, branch: Seq<Seq<char>>, pos: nat) -> Seq<u8>
    decreases branch.len(),
{
    if branch.len() == 0 {
        current
    } else {
        merkle_climb(
            merkle_step(current, reversed(hex_decode_text(branch[0])), pos),
            branch.drop_first(),
            pos / 2,
        )
    }
}

/// The root, in display hexadecimal, that a transaction id and a branch lead to.
pub open spec fn merkle_root_text(txid: Seq<char>, branch: Seq<Seq<char>>, pos: nat) -> Seq<char> {
    hex_encode_text(reversed(merkle_climb(reversed(hex_decode_text(txid)), branch, pos)))
}

/// Every sibling hash of a branch is hexadecimal text.
pub open spec fn branch_is_hex(branch: Seq<Seq<char>>) -> bool {
    forall|i: int| 0 <= i < branch.len() ==> is_hex_text(#[trigger] branch[i])
}

fn concat_bytes(a: &Vec<u8>, b: &Vec<u8>) -> (r: Vec<u8>)
    ensures
        r@ == a@ + b@,
{
    let mut r: Vec<u8> = Vec::new();
    let mut i: usize = 0;
    while i < a.len()
        invariant
            i <= a@.len(),
            r@ =~= a@.subrange(0, i as int),
        decreases a@.len() - i,
    {
        r.push(a[i]);
        i = i + 1;
    }
    let mut j: usize = 0;
    while j < b.len()
        invariant
            j <= b@.len(),
            r@ =~= a@ + b@.subrange(0, j as int),
        decreases b@.len() - j,
    {
        r.push(b[j]);
        j = j + 1;
    }
    assert(b@.subrange(0, b@.len() as int) =~= b@);
    r
}

/// Checks that the transaction `txid_hex` lies under the block's merkle root
/// `expected_root_hex`: climbs the proof's branch from the transaction id and
/// compares the root reached, in lower case display hexadecimal, with the
/// expected text.
pub fn verify_merkle_proof(txid_hex: &str, proof: &MerkleProof, expected_root_hex: &str) -> (r: bool)
    requires
        is_hex_text(txid_hex@),
        branch_is_hex(branch_text(proof.merkle@)),
    ensures
        r == (merkle_root_text(txid_hex@, branch_text(proof.merkle@), proof.pos as nat)
            == expected_root_hex@),
{
    let ghost branch = branch_text(proof.merkle@);
    let mut current = match hex_decode(txid_hex) {
        Ok(v) => reverse_bytes(&v),
        Err(_) => {
            assert(false);
            return false;
        },
    };
    let ghost start = current@;
    let mut pos: usize = proof.pos;
    assert(branch.skip(0) =~= branch);
    let mut i: usize = 0;
    while i < proof.merkle.len()
        invariant
            i <= proof.merkle@.len(),
            branch == branch_text(proof.merkle@),
            branch_is_hex(branch),
            merkle_climb(start, branch, proof.pos as nat)
                == merkle_climb(current@, branch.skip(i as int), pos as nat),
        decreases proof.merkle@.len() - i,
    {
        assert(is_hex_text(branch[i as int]));
        let partner = match hex_decode(proof.merkle[i].as_str()) {
            Ok(v) => reverse_bytes(&v),
            Err(_) => {
                assert(false);
                return false;
            },
        };
        let data = if pos % 2 == 0 {
            concat_bytes(&current, &partner)
        } else {
            concat_bytes(&partner, &current)
        };
        let next = sha256d(data.as_slice());
        assert(branch.skip(i as int).drop_first() =~= branch.skip(i + 1));
        assert(next@ == merkle_step(current@, reversed(hex_decode_text(branch.skip(i as int)[0])), pos as nat));
        current = next;
        pos = pos / 2;
        i = i + 1;
    }
    assert(branch.skip(i as int) =~= Seq::<Seq<char>>::empty());
    let root = reverse_bytes(&current);
    let calculated = hex_encode(root.as_slice());
    let expected = expected_root_hex.to_owned();
    calculated == expected
}

/// Reading a sequence back to front twice gives it back.
pub proof fn lemma_reversed_twice<A>(s: Seq<A>)
    ensures
        reversed(reversed(s)) =~= s,
{
}

/// A transaction alone in its block (an empty branch) proves against a root
/// equal to its own id, written in lower case: the root reached is the
/// transaction id itself.
pub proof fn law_lone_transaction_is_root(txid_bytes: Seq<u8>, pos: nat)
    ensures
        merkle_root_text(hex_encode_text(txid_bytes), Seq::empty(), pos) == hex_encode_text(txid_bytes),
{
    law_hex_round_trip(txid_bytes);
    lemma_reversed_twice(txid_bytes);
}

/// Climbing one more level is one more step from where the shorter branch
/// led: the branch is read from the leaf up, halving the position each level.
pub proof fn law_climb_extends(current: Seq<u8>, branch: Seq<Seq<char>>, sibling: Seq<char>, pos: nat)
    ensures
        merkle_climb(current, branch.push(sibling), pos) == merkle_step(
            merkle_climb(current, branch, pos),
            reversed(hex_decode_text(sibling)),
            pos / vstd::arithmetic::power2::pow2(branch.len()),
        ),
    decreases branch.len(),
{
    if branch.len() == 0 {
        assert(branch.push(sibling).drop_first() =~= Seq::<Seq<char>>::empty());
        assert(branch.push(sibling)[0] == sibling);
        vstd::arithmetic::power2::lemma2_to64();
        let stepped = merkle_step(current, reversed(hex_decode_text(sibling)), pos);
        assert(merkle_climb(stepped, Seq::empty(), pos / 2) == stepped);
        assert(merkle_climb(current, branch, pos) == current);
    } else {
        let next = merkle_step(current, reversed(hex_decode_text(branch[0])), pos);
        assert(branch.push(sibling).drop_first() =~= branch.drop_first().push(sibling));
        assert(branch.push(sibling)[0] == branch[0]);
        law_climb_extends(next, branch.drop_first(), sibling, pos / 2);
        let n = branch.len();
        vstd::arithmetic::power2::lemma_pow2_unfold(n);
        vstd::arithmetic::power2::lemma_pow2_pos((n - 1) as nat);
        vstd::arithmetic::div_mod::lemma_div_denominator(pos as int, 2, vstd::arithmetic::power2::pow2((n - 1) as nat) as int);
        assert(branch.drop_first().len() == n - 1);
    }
}

/// Which side a node takes at each level: at an even position it is the left
/// child (hashed before its sibling), at an odd position the right child
/// (hashed after it).
pub proof fn law_merkle_step_sides(current: Seq<u8>, sibling: Seq<u8>, pos: nat)
    ensures
        pos % 2 == 0 ==> merkle_step(current, sibling, pos) == sha256d_digest(current + sibling),
        pos % 2 == 1 ==> merkle_step(current, sibling, pos) == sha256d_digest(sibling + current),
{
}

/// A node's hash as the block explorer shows it: its bytes back to front,
/// in lower case hexadecimal.
pub open spec fn shown(node: Seq<u8>) -> Seq<char> {
    hex_encode_text(reversed(node))
}

/// The parent of two nodes in a Bitcoin merkle tree.
pub open spec fn parent_node(left: Seq<u8>, right: Seq<u8>) -> Seq<u8> {
    sha256d_digest(left + right)
}

proof fn lemma_shown_reads_back(node: Seq<u8>)
    ensures
        is_hex_text(shown(node)),
        reversed(hex_decode_text(shown(node))) == node,
{
    law_hex_round_trip(reversed(node));
    lemma_reversed_twice(node);
}

proof fn lemma_two_level_climb(leaf: Seq<u8>, sibling: Seq<u8>, uncle: Seq<u8>, pos: nat)
    ensures
        merkle_root_text(shown(leaf), seq![shown(sibling), shown(uncle)], pos)
            == shown(merkle_step(merkle_step(leaf, sibling, pos), uncle, pos / 2)),
{
    lemma_shown_reads_back(leaf);
    lemma_shown_reads_back(sibling);
    lemma_shown_reads_back(uncle);
    let branch = seq![shown(sibling), shown(uncle)];
    let first = merkle_step(leaf, sibling, pos);
    assert(branch.drop_first() =~= seq![shown(uncle)]);
    assert(branch.drop_first().drop_first() =~= Seq::<Seq<char>>::empty());
    let second = merkle_step(first, uncle, pos / 2);
    assert(merkle_climb(second, branch.drop_first().drop_first(), pos / 2 / 2) == second);
    assert(merkle_climb(first, branch.drop_first(), pos / 2) == second);
    assert(merkle_climb(leaf, branch, pos) == second);
}

/// In a block of four transactions, the proof of each one, built the
/// Bitcoin way (its sibling, then the sibling of its parent, shown as the
/// explorer shows them), leads from its id to the block's merkle root.
pub proof fn law_four_leaf_proofs(l0: Seq<u8>, l1: Seq<u8>, l2: Seq<u8>, l3: Seq<u8>)
    ensures
        ({
            let a = parent_node(l0, l1);
            let b = parent_node(l2, l3);
            let root = shown(parent_node(a, b));
            &&& merkle_root_text(shown(l0), seq![shown(l1), shown(b)], 0) == root
            &&& merkle_root_text(shown(l1), seq![shown(l0), shown(b)], 1) == root
            &&& merkle_root_text(shown(l2), seq![shown(l3), shown(a)], 2) == root
            &&& merkle_root_text(shown(l3), seq![shown(l2), shown(a)], 3) == root
        }),
{
    let a = parent_node(l0, l1);
    let b = parent_node(l2, l3);
    lemma_two_level_climb(l0, l1, b, 0);
    lemma_two_level_climb(l1, l0, b, 1);
    lemma_two_level_climb(l2, l3, a, 2);
    lemma_two_level_climb(l3, l2, a, 3);
    assert(1nat / 2 == 0 && 2nat / 2 == 1 && 3nat / 2 == 1);
}

} // verus!
