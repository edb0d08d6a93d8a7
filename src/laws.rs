//! Properties that relate the ledger's operations to one another.
use crate::block::{merkle_root_of, merkle_top, Block};
use crate::chain::{block_links, chain_valid};
use crate::transaction::{tx_digest, tx_encoding, Transaction};
use vstd::prelude::*;

verus! {

/// The Merkle root depends only on the transactions' canonical encodings, in
/// order: two lists whose transactions encode alike, position by position,
/// have the same root, so computing it twice over one list gives one value.
pub proof fn merkle_root_is_deterministic(a: Seq<Transaction>, b: Seq<Transaction>)
    requires
        a.len() == b.len(),
        forall|i: int| 0 <= i < a.len() ==> tx_encoding(#[trigger] a[i]) == tx_encoding(b[i]),
    ensures
        merkle_root_of(a) == merkle_root_of(b),
{
    let la = a.map_values(|t: Transaction| tx_digest(t));
    let lb = b.map_values(|t: Transaction| tx_digest(t));
    assert forall|i: int| 0 <= i < la.len() implies la[i] == lb[i] by {
        assert(tx_encoding(a[i]) == tx_encoding(b[i]));
    }
    assert(la =~= lb);
}

/// The Merkle root of a single transaction is that transaction's own digest:
/// no level of pairing is applied.
pub proof fn merkle_root_of_single(t: Transaction)
    ensures
        merkle_root_of(seq![t]) == tx_digest(t),
{
    let leaves = seq![t].map_values(|u: Transaction| tx_digest(u));
    assert(leaves.len() == 1);
    assert(merkle_top(leaves) == leaves[0]);
}

/// A chain made of its genesis block alone is valid, whatever the difficulty.
pub proof fn genesis_only_chain_is_valid(blocks: Seq<Block>, difficulty: u32)
    requires
        blocks.len() == 1,
    ensures
        chain_valid(blocks, difficulty),
{
}

/// Altering the previous hash of a block after the genesis block, and nothing
/// else, makes a valid chain invalid.
pub proof fn altered_link_breaks_chain(
    blocks: Seq<Block>,
    altered: Seq<Block>,
    difficulty: u32,
    i: int,
)
    requires
        chain_valid(blocks, difficulty),
        1 <= i < blocks.len(),
        altered.len() == blocks.len(),
        forall|j: int| 0 <= j < blocks.len() && j != i ==> altered[j] == blocks[j],
        altered[i].header.previous_hash@ != blocks[i].header.previous_hash@,
    ensures
        !chain_valid(altered, difficulty),
{
    assert(altered[i - 1] == blocks[i - 1]);
    assert(block_links(blocks, i, difficulty));
    assert(!block_links(altered, i, difficulty));
}

} // verus!
