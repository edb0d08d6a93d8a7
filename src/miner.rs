//! The proof-of-work search: nonces are tried in increasing order until the
//! header digest has at least `difficulty_target` leading zero bits.
use crate::block::{header_digest, merkle_root_of, unix_now, Block, BlockHeader};
use crate::transaction::Transaction;
use vstd::prelude::*;

verus! {

/// How many timestamp epochs (full sweeps of the nonce space, each under a
/// freshly read clock) a search runs through before it reports failure. At
/// any real hash rate this bound is never reached.
pub const MAX_EPOCHS: u64 = 0xffff_ffff_ffff_ffff;

/// Leading zero bits of `s` from index `i` on: each zero byte counts eight,
/// the first non-zero byte counts its own leading zeros and ends the count.
pub open spec fn leading_zero_bits_from(s: Seq<u8>, i: int) -> nat
    decreases s.len() - i,
{
    if i < 0 || i >= s.len() {
        0
    } else if s[i] == 0 {
        8 + leading_zero_bits_from(s, i + 1)
    } else {
        s[i].leading_zeros() as nat
    }
}

/// Leading zero bits of a digest, counted from its first byte.
pub open spec fn leading_zero_bits(s: Seq<u8>) -> nat {
    leading_zero_bits_from(s, 0)
}

/// Whether the digest of header `h` has at least `difficulty` leading zero bits.
pub open spec fn meets_target(h: BlockHeader, difficulty: u32) -> bool {
    leading_zero_bits(header_digest(h)) >= difficulty
}

/// Header `h` with its nonce replaced by `n`.
pub open spec fn with_nonce(h: BlockHeader, n: u32) -> BlockHeader {
    BlockHeader { nonce: n, ..h }
}

/// Whether no nonce makes header `h` meet `difficulty`.
pub open spec fn no_nonce_meets(h: BlockHeader, difficulty: u32) -> bool {
    forall|n: u32| !meets_target(#[trigger] with_nonce(h, n), difficulty)
}

/// Whether some header with these fields, under some timestamp, meets
/// `difficulty` with no nonce at all: a search over such headers cannot end
/// in success.
pub open spec fn sweep_exhausted(
    version: u32,
    previous_hash: Seq<u8>,
    merkle_root: Seq<u8>,
    difficulty: u32,
) -> bool {
    exists|h: BlockHeader|
        {
            &&& h.version == version
            &&& h.previous_hash@ == previous_hash
            &&& h.merkle_root@ == merkle_root
            &&& h.difficulty_target == difficulty
            &&& #[trigger] no_nonce_meets(h, difficulty)
        }
}

/// A block that differs from `b` at most in its header's nonce.
pub open spec fn same_but_nonce(a: Block, b: Block) -> bool {
    a.transactions == b.transactions && a.height == b.height && a.header == with_nonce(
        b.header,
        a.header.nonce,
    )
}

/// The difficulty after one adjustment: one less (but not below one) when the
/// measured time is more than twice the target, one more when it is less than
/// half of it, else unchanged.
pub open spec fn adjusted(difficulty: u32, actual_time: u64, target_time: u64) -> int {
    if actual_time > 2 * target_time {
        if difficulty > 1 {
            difficulty - 1
        } else {
            difficulty as int
        }
    } else if 2 * actual_time < target_time {
        difficulty + 1
    } else {
        difficulty as int
    }
}

/// The reasons a block can fail to be produced or accepted.
#[derive(Debug, PartialEq, Eq, Structural)]
pub enum MiningError {
    InvalidBlock,
    MiningFailed,
}

impl MiningError {
    /// A short human-readable description.
    pub fn message(&self) -> (r: &'static str)
        ensures
            *self == MiningError::InvalidBlock ==> r@ == "Invalid block"@,
            *self == MiningError::MiningFailed ==> r@ == "Mining failed"@,
    {
        proof {
            reveal_strlit("Invalid block");
            reveal_strlit("Mining failed");
        }
        match self {
            MiningError::InvalidBlock => "Invalid block",
            MiningError::MiningFailed => "Mining failed",
        }
    }
}

/// Searches for headers that meet a difficulty target.
#[derive(Debug)]
pub struct Miner {
    pub difficulty_target: u32,
}

impl Miner {
    pub fn new(difficulty_target: u32) -> (r: Self)
        ensures
            r.difficulty_target == difficulty_target,
    {
        Self { difficulty_target }
    }

    /// Counts the leading zero bits of a digest.
    pub fn count_leading_zero_bits(&self, hash: &[u8; 32]) -> (r: u32)
        ensures
            r == leading_zero_bits(hash@),
    {
        let mut count: u32 = 0;
        let mut i: usize = 0;
        while i < 32
            invariant
                i <= 32,
                hash@.len() == 32,
                count == 8 * i,
                count + leading_zero_bits_from(hash@, i as int) == leading_zero_bits(hash@),
            decreases 32 - i,
        {
            if hash[i] == 0 {
                count = count + 8;
            } else {
                return count + hash[i].leading_zeros();
            }
            i = i + 1;
        }
        count
    }

    /// Whether a digest has at least `difficulty_target` leading zero bits.
    pub fn meets_difficulty_target(&self, hash: &[u8; 32]) -> (r: bool)
        ensures
            r == (leading_zero_bits(hash@) >= self.difficulty_target),
    {
        let leading_zeros = self.count_leading_zero_bits(hash);
        leading_zeros >= self.difficulty_target
    }

    /// Whether the block's header digest meets this miner's target.
    pub fn validate_block(&self, block: &Block) -> (r: bool)
        ensures
            r == meets_target(block.header, self.difficulty_target),
    {
        let hash = block.hash();
        self.meets_difficulty_target(&hash)
    }

    /// Tries the block's nonces from the current one upward, stopping at the
    /// first that meets the target or after the largest nonce.
    pub fn search_nonces(&self, block: &mut Block) -> (found: bool)
        ensures
            same_but_nonce(*final(block), *old(block)),
            old(block).header.nonce <= final(block).header.nonce,
            forall|n: u32|
                old(block).header.nonce <= n < final(block).header.nonce ==> !meets_target(
                    #[trigger] with_nonce(old(block).header, n),
                    self.difficulty_target,
                ),
            found ==> meets_target(final(block).header, self.difficulty_target),
            !found ==> final(block).header.nonce == u32::MAX && !meets_target(
                final(block).header,
                self.difficulty_target,
            ),
    {
        loop
            invariant
                same_but_nonce(*block, *old(block)),
                old(block).header.nonce <= block.header.nonce,
                forall|n: u32|
                    old(block).header.nonce <= n < block.header.nonce ==> !meets_target(
                        #[trigger] with_nonce(old(block).header, n),
                        self.difficulty_target,
                    ),
            decreases u32::MAX - block.header.nonce,
        {
            proof {
                assert(with_nonce(old(block).header, block.header.nonce) == block.header);
            }
            if self.validate_block(block) {
                return true;
            }
            if block.header.nonce == u32::MAX {
                return false;
            }
            block.header.nonce = block.header.nonce + 1;
        }
    }

    /// Builds a block over `transactions` and searches for a header that
    /// meets the target: nonces are tried in increasing order from zero; after
    /// the largest nonce the timestamp is read again and the nonce restarts at
    /// zero. The returned block's nonce is the first that meets the target
    /// under its timestamp. The search is bounded: after `MAX_EPOCHS` full
    /// sweeps, each over a header that no nonce could complete, it reports
    /// `MiningFailed` instead of searching forever.
    pub fn mine_block(
        &self,
        version: u32,
        previous_hash: [u8; 32],
        transactions: Vec<Transaction>,
        height: u32,
    ) -> (r: Result<Block, MiningError>)
        ensures
            match r {
                Ok(b) => {
                    &&& b.header.version == version
                    &&& b.header.previous_hash == previous_hash
                    &&& b.header.merkle_root@ == merkle_root_of(transactions@)
                    &&& b.header.difficulty_target == self.difficulty_target
                    &&& b.transactions == transactions
                    &&& b.height == height
                    &&& meets_target(b.header, self.difficulty_target)
                    &&& forall|n: u32|
                        n < b.header.nonce ==> !meets_target(
                            #[trigger] with_nonce(b.header, n),
                            self.difficulty_target,
                        )
                },
                Err(e) => {
                    &&& e == MiningError::MiningFailed
                    &&& sweep_exhausted(
                        version,
                        previous_hash@,
                        merkle_root_of(transactions@),
                        self.difficulty_target,
                    )
                },
            },
            self.difficulty_target == 0 ==> r is Ok && r->Ok_0.header.nonce == 0,
    {
        let mut block = Block::new(
            version,
            previous_hash,
            transactions,
            self.difficulty_target,
            height,
        );
        let ghost start = block;
        let mut epochs: u64 = 0;
        loop
            invariant
                block.header.version == version,
                block.header.previous_hash == previous_hash,
                block.header.merkle_root@ == merkle_root_of(transactions@),
                block.header.difficulty_target == self.difficulty_target,
                block.transactions == transactions,
                block.height == height,
                block.header.nonce == 0,
                epochs == 0 ==> block == start,
                start.header.nonce == 0,
                epochs < MAX_EPOCHS,
            decreases MAX_EPOCHS - epochs,
        {
            let ghost before = block;
            if self.search_nonces(&mut block) {
                proof {
                    assert forall|n: u32| n < block.header.nonce implies !meets_target(
                        #[trigger] with_nonce(block.header, n),
                        self.difficulty_target,
                    ) by {
                        assert(with_nonce(block.header, n) == with_nonce(before.header, n));
                    }
                    if self.difficulty_target == 0 && block.header.nonce > 0 {
                        assert(with_nonce(before.header, 0) == before.header);
                        assert(!meets_target(with_nonce(before.header, 0), 0));
                    }
                }
                return Ok(block);
            }
            proof {
                assert forall|n: u32| !meets_target(
                    #[trigger] with_nonce(before.header, n),
                    self.difficulty_target,
                ) by {
                    if n == u32::MAX {
                        assert(with_nonce(before.header, n) == block.header);
                    }
                }
                assert(no_nonce_meets(before.header, self.difficulty_target));
            }
            if epochs == MAX_EPOCHS - 1 {
                return Err(MiningError::MiningFailed);
            }
            block.header.timestamp = unix_now();
            block.header.nonce = 0;
            epochs = epochs + 1;
        }
    }

    /// Steps the difficulty by the ratio of measured to target time: down by
    /// one (not below one) when the ratio is above two, up by one when it is
    /// below one half, else unchanged.
    pub fn adjust_difficulty(&mut self, actual_time: u64, target_time: u64)
        requires
            2 * actual_time < target_time ==> old(self).difficulty_target < u32::MAX,
        ensures
            final(self).difficulty_target == adjusted(
                old(self).difficulty_target,
                actual_time,
                target_time,
            ),
    {
        let actual = actual_time as u128;
        let target = target_time as u128;
        if actual > 2 * target {
            if self.difficulty_target > 1 {
                self.difficulty_target = self.difficulty_target - 1;
            }
        } else if 2 * actual < target {
            self.difficulty_target = self.difficulty_target + 1;
        }
    }
}

} // verus!
