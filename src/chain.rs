//! The ledger: an append-only sequence of mined blocks, a queue of pending
//! transactions, and the miner that seals them into new blocks.
use crate::block::{header_digest, merkle_root_of, zero_digest, Block};
use crate::hashing::same_digest;
use crate::miner::{meets_target, sweep_exhausted, Miner, MiningError};
use crate::transaction::{lists, Transaction};
use vstd::prelude::*;

verus! {

/// Version written into every mined block.
pub const BLOCK_VERSION: u32 = 1;

/// Difficulty the genesis block is built with.
pub const GENESIS_DIFFICULTY: u32 = 8;

/// The amount the genesis transaction credits.
pub const GENESIS_AMOUNT: u64 = 5_000_000_000;

/// Whether every block after the first meets `difficulty` and names the
/// digest of its predecessor's header as its previous hash.
pub open spec fn chain_valid(blocks: Seq<Block>, difficulty: u32) -> bool {
    forall|i: int| 1 <= i < blocks.len() ==> #[trigger] block_links(blocks, i, difficulty)
}

/// Whether block `i` meets `difficulty` and names the digest of block `i - 1`
/// as its previous hash.
pub open spec fn block_links(blocks: Seq<Block>, i: int, difficulty: u32) -> bool {
    &&& meets_target(blocks[i].header, difficulty)
    &&& blocks[i].header.previous_hash@ == header_digest(blocks[i - 1].header)
}

/// The check a block fails in a chain.
#[derive(Debug, PartialEq, Eq, Structural)]
pub enum ChainFault {
    /// The header digest does not meet the miner's target.
    InvalidHash,
    /// The previous hash is not the digest of the block before.
    InvalidPreviousHash,
}

/// Every transaction of `blocks`, block by block, in order.
pub open spec fn all_transactions(blocks: Seq<Block>) -> Seq<Transaction>
    decreases blocks.len(),
{
    if blocks.len() == 0 {
        seq![]
    } else {
        all_transactions(blocks.drop_last()) + blocks.last().transactions@
    }
}

/// The balance after one more transaction: its amount is added when `addr`
/// is among the outputs, then subtracted, down to zero at most, when `addr`
/// is among the inputs.
pub open spec fn balance_step(balance: int, t: Transaction, addr: Seq<char>) -> int {
    let credited = if lists(t.outputs@, addr) {
        balance + t.amount
    } else {
        balance
    };
    if lists(t.inputs@, addr) {
        if credited >= t.amount {
            credited - t.amount
        } else {
            0
        }
    } else {
        credited
    }
}

/// The balance of `addr` after the transactions `txs`, starting from zero.
pub open spec fn balance_of(txs: Seq<Transaction>, addr: Seq<char>) -> int
    decreases txs.len(),
{
    if txs.len() == 0 {
        0
    } else {
        balance_step(balance_of(txs.drop_last(), addr), txs.last(), addr)
    }
}

/// Whether every credit to `addr` along `txs` keeps its balance within `u64`.
pub open spec fn credits_fit(txs: Seq<Transaction>, addr: Seq<char>) -> bool
    decreases txs.len(),
{
    if txs.len() == 0 {
        true
    } else {
        &&& credits_fit(txs.drop_last(), addr)
        &&& lists(txs.last().outputs@, addr) ==> balance_of(txs.drop_last(), addr)
            + txs.last().amount <= u64::MAX
    }
}

/// Whether `p` is a prefix of `s`.
pub open spec fn prefix_of<T>(p: Seq<T>, s: Seq<T>) -> bool {
    p.len() <= s.len() && forall|k: int| 0 <= k < p.len() ==> p[k] == s[k]
}

proof fn lemma_credits_fit_prefix(p: Seq<Transaction>, s: Seq<Transaction>, addr: Seq<char>)
    requires
        credits_fit(s, addr),
        prefix_of(p, s),
    ensures
        credits_fit(p, addr),
    decreases s.len(),
{
    if p.len() == s.len() {
        assert(p =~= s);
    } else {
        lemma_credits_fit_prefix(p, s.drop_last(), addr);
    }
}

proof fn lemma_balance_in_range(txs: Seq<Transaction>, addr: Seq<char>)
    requires
        credits_fit(txs, addr),
    ensures
        0 <= balance_of(txs, addr) <= u64::MAX,
    decreases txs.len(),
{
    if txs.len() > 0 {
        lemma_balance_in_range(txs.drop_last(), addr);
    }
}

proof fn lemma_all_transactions_prefix(blocks: Seq<Block>, i: int)
    requires
        0 <= i <= blocks.len(),
    ensures
        prefix_of(all_transactions(blocks.take(i)), all_transactions(blocks)),
    decreases blocks.len(),
{
    if i == blocks.len() {
        assert(blocks.take(i) =~= blocks);
    } else {
        assert(blocks.drop_last().take(i) =~= blocks.take(i));
        lemma_all_transactions_prefix(blocks.drop_last(), i);
    }
}

/// Whether `addr` is one of `addrs`.
fn contains_address(addrs: &Vec<String>, addr: &String) -> (r: bool)
    ensures
        r == lists(addrs@, addr@),
{
    let mut k: usize = 0;
    while k < addrs.len()
        invariant
            k <= addrs@.len(),
            forall|j: int| 0 <= j < k ==> addrs@[j]@ != addr@,
        decreases addrs@.len() - k,
    {
        if addrs[k] == *addr {
            return true;
        }
        k = k + 1;
    }
    false
}

/// Whether `b` has the shape of a genesis block: height zero, an all-zero
/// previous hash, nonce zero, and one transaction that credits the genesis
/// address with the genesis amount and draws on no address.
pub open spec fn is_genesis(b: Block) -> bool {
    &&& b.height == 0
    &&& b.header.version == BLOCK_VERSION
    &&& b.header.previous_hash@ == zero_digest()
    &&& b.header.difficulty_target == GENESIS_DIFFICULTY
    &&& b.header.nonce == 0
    &&& b.header.merkle_root@ == merkle_root_of(b.transactions@)
    &&& b.transactions@.len() == 1
    &&& b.transactions@[0].id@ == "genesis"@
    &&& b.transactions@[0].inputs@.len() == 0
    &&& b.transactions@[0].outputs@.len() == 1
    &&& b.transactions@[0].outputs@[0]@ == "1A1zP1eP5QGefi2DMPTfTL5SLmv7DivfNa"@
    &&& b.transactions@[0].amount == GENESIS_AMOUNT
}

/// The first block of every chain: height zero, an all-zero previous hash and
/// one transaction that credits a fixed address with a fixed amount.
pub fn genesis_block() -> (r: Block)
    ensures
        is_genesis(r),
{
    let genesis_transaction = Transaction::new(
        "genesis".to_owned(),
        Vec::new(),
        vec!["1A1zP1eP5QGefi2DMPTfTL5SLmv7DivfNa".to_owned()],
        GENESIS_AMOUNT,
    );
    let zero = [0u8; 32];
    assert(zero@ =~= zero_digest());
    Block::new(BLOCK_VERSION, zero, vec![genesis_transaction], GENESIS_DIFFICULTY, 0)
}

/// A transaction moving `amount` from the single address `from` to the single
/// address `to`.
fn transfer(id: &str, from: &str, to: &str, amount: u64) -> (r: Transaction)
    ensures
        r.id@ == id@,
        r.inputs@.len() == 1,
        r.inputs@[0]@ == from@,
        r.outputs@.len() == 1,
        r.outputs@[0]@ == to@,
        r.amount == amount,
{
    Transaction::new(id.to_owned(), vec![from.to_owned()], vec![to.to_owned()], amount)
}

/// Whether `t` moves `amount` from the single address `from` to the single
/// address `to`, under the identifier `id`.
pub open spec fn is_transfer(
    t: Transaction,
    id: Seq<char>,
    from: Seq<char>,
    to: Seq<char>,
    amount: u64,
) -> bool {
    &&& t.id@ == id
    &&& t.inputs@.len() == 1
    &&& t.inputs@[0]@ == from
    &&& t.outputs@.len() == 1
    &&& t.outputs@[0]@ == to
    &&& t.amount == amount
}

/// Five transfers between fixed addresses, for demonstrations.
pub fn create_sample_transactions() -> (r: Vec<Transaction>)
    ensures
        r@.len() == 5,
        is_transfer(r@[0], "tx_001"@, "1A1zP1eP5QGefi2DMPTfTL5SLmv7DivfNa"@, "1BvBMSEYstWetqTFn5Au4m4GFg7xJaNVN2"@, 1_000_000_000),
        is_transfer(r@[1], "tx_002"@, "1A1zP1eP5QGefi2DMPTfTL5SLmv7DivfNa"@, "3J98t1WpEZ73CNmQviecrnyiWrnqRhWNLy"@, 500_000_000),
        is_transfer(r@[2], "tx_003"@, "1BvBMSEYstWetqTFn5Au4m4GFg7xJaNVN2"@, "1JfbZRwdDHKZmuiZgYArJZhcuuzuw2HuMu"@, 350_000_000),
        is_transfer(r@[3], "tx_004"@, "3J98t1WpEZ73CNmQviecrnyiWrnqRhWNLy"@, "1dice8EMZmqKvrGE4Qc9bUFf9PX3xaYDp"@, 225_000_000),
        is_transfer(r@[4], "tx_005"@, "1JfbZRwdDHKZmuiZgYArJZhcuuzuw2HuMu"@, "1BoatSLRHtKNngkdXEeobR76b53LETtpyT"@, 100_000_000),
{
    vec![
        transfer("tx_001", "1A1zP1eP5QGefi2DMPTfTL5SLmv7DivfNa", "1BvBMSEYstWetqTFn5Au4m4GFg7xJaNVN2", 1_000_000_000),
        transfer("tx_002", "1A1zP1eP5QGefi2DMPTfTL5SLmv7DivfNa", "3J98t1WpEZ73CNmQviecrnyiWrnqRhWNLy", 500_000_000),
        transfer("tx_003", "1BvBMSEYstWetqTFn5Au4m4GFg7xJaNVN2", "1JfbZRwdDHKZmuiZgYArJZhcuuzuw2HuMu", 350_000_000),
        transfer("tx_004", "3J98t1WpEZ73CNmQviecrnyiWrnqRhWNLy", "1dice8EMZmqKvrGE4Qc9bUFf9PX3xaYDp", 225_000_000),
        transfer("tx_005", "1JfbZRwdDHKZmuiZgYArJZhcuuzuw2HuMu", "1BoatSLRHtKNngkdXEeobR76b53LETtpyT", 100_000_000),
    ]
}

/// Blocks in order, the transactions waiting for the next block, and the
/// miner that seals them.
#[derive(Debug)]
pub struct Blockchain {
    pub blocks: Vec<Block>,
    pub pending_transactions: Vec<Transaction>,
    pub miner: Miner,
}

impl Blockchain {
    /// The chain starts with a block of height zero and an all-zero previous
    /// hash, block `i` has height `i`, and the chain is valid under the
    /// miner's target.
    pub open spec fn wf(&self) -> bool {
        &&& self.blocks@.len() >= 1
        &&& self.blocks@[0].header.previous_hash@ == zero_digest()
        &&& forall|i: int| 0 <= i < self.blocks@.len() ==> #[trigger] self.blocks@[i].height == i
        &&& chain_valid(self.blocks@, self.miner.difficulty_target)
    }

    /// A chain holding only the genesis block, with nothing pending.
    pub fn new(difficulty: u32) -> (r: Self)
        ensures
            r.wf(),
            r.blocks@.len() == 1,
            is_genesis(r.blocks@[0]),
            r.pending_transactions@.len() == 0,
            r.miner.difficulty_target == difficulty,
    {
        let mut blockchain = Self {
            blocks: Vec::new(),
            pending_transactions: Vec::new(),
            miner: Miner::new(difficulty),
        };
        let genesis = genesis_block();
        blockchain.blocks.push(genesis);
        blockchain
    }

    /// Queues a transaction for the next block.
    pub fn add_transaction(&mut self, transaction: Transaction)
        ensures
            final(self).pending_transactions@ == old(self).pending_transactions@.push(transaction),
            final(self).blocks == old(self).blocks,
            final(self).miner == old(self).miner,
    {
        self.pending_transactions.push(transaction);
    }

    /// Seals every pending transaction into one new block at the end of the
    /// chain; with nothing pending the chain is left as it is. The search is
    /// the miner's bounded one: should it end in `MiningFailed`, the chain is
    /// left as it was and the pending transactions are dropped with the
    /// unfinished block.
    pub fn mine_pending_transactions(&mut self) -> (r: Result<(), MiningError>)
        requires
            old(self).blocks@.len() >= 1,
            old(self).blocks@.len() <= u32::MAX,
        ensures
            final(self).blocks@.len() >= 1,
            old(self).wf() ==> final(self).wf(),
            final(self).miner == old(self).miner,
            old(self).pending_transactions@.len() == 0 ==> r is Ok && *final(self) == *old(self),
            old(self).miner.difficulty_target == 0 && old(self).pending_transactions@.len() > 0
                ==> r is Ok,
            old(self).pending_transactions@.len() > 0 ==> match r {
                Ok(_) => {
                    let b = final(self).blocks@.last();
                    &&& final(self).blocks@.len() == old(self).blocks@.len() + 1
                    &&& final(self).blocks@.drop_last() == old(self).blocks@
                    &&& final(self).pending_transactions@.len() == 0
                    &&& b.transactions@ == old(self).pending_transactions@
                    &&& b.height == old(self).blocks@.len()
                    &&& b.header.version == BLOCK_VERSION
                    &&& b.header.previous_hash@ == header_digest(old(self).blocks@.last().header)
                    &&& b.header.merkle_root@ == merkle_root_of(b.transactions@)
                    &&& b.header.difficulty_target == old(self).miner.difficulty_target
                    &&& meets_target(b.header, old(self).miner.difficulty_target)
                },
                Err(e) => {
                    &&& e == MiningError::MiningFailed
                    &&& final(self).blocks == old(self).blocks
                    &&& final(self).pending_transactions@.len() == 0
                    &&& sweep_exhausted(
                        BLOCK_VERSION,
                        header_digest(old(self).blocks@.last().header),
                        merkle_root_of(old(self).pending_transactions@),
                        old(self).miner.difficulty_target,
                    )
                },
            },
    {
        if self.pending_transactions.len() == 0 {
            return Ok(());
        }
        let previous_hash = self.get_latest_block().hash();
        let height = self.blocks.len() as u32;
        let mut transactions: Vec<Transaction> = Vec::new();
        std::mem::swap(&mut transactions, &mut self.pending_transactions);
        match self.miner.mine_block(BLOCK_VERSION, previous_hash, transactions, height) {
            Ok(new_block) => {
                self.blocks.push(new_block);
                assert(self.blocks@.drop_last() =~= old(self).blocks@);
                assert(forall|i: int|
                    0 <= i < old(self).blocks@.len() ==> self.blocks@[i] == old(self).blocks@[i]);
                proof {
                    if old(self).wf() {
                        assert forall|i: int|
                            1 <= i < self.blocks@.len() implies #[trigger] block_links(
                            self.blocks@,
                            i,
                            self.miner.difficulty_target,
                        ) by {
                            if i < old(self).blocks@.len() {
                                assert(block_links(old(self).blocks@, i, self.miner.difficulty_target));
                            }
                        }
                    }
                }
                Ok(())
            },
            Err(e) => Err(e),
        }
    }

    /// The last block of the chain.
    pub fn get_latest_block(&self) -> (r: &Block)
        requires
            self.blocks@.len() >= 1,
        ensures
            *r == self.blocks@.last(),
    {
        &self.blocks[self.blocks.len() - 1]
    }

    /// The first block after the genesis block that fails validation, with
    /// the check it fails: its digest must meet the miner's target, and its
    /// previous hash must be the digest of the block before it.
    pub fn find_fault(&self) -> (r: Option<(usize, ChainFault)>)
        ensures
            match r {
                None => chain_valid(self.blocks@, self.miner.difficulty_target),
                Some((i, fault)) => {
                    &&& 1 <= i < self.blocks@.len()
                    &&& forall|j: int|
                        1 <= j < i ==> block_links(self.blocks@, j, self.miner.difficulty_target)
                    &&& fault == ChainFault::InvalidHash <==> !meets_target(
                        self.blocks@[i as int].header,
                        self.miner.difficulty_target,
                    )
                    &&& !block_links(self.blocks@, i as int, self.miner.difficulty_target)
                },
            },
    {
        let mut i: usize = 1;
        while i < self.blocks.len()
            invariant
                1 <= i,
                forall|j: int|
                    1 <= j < i && j < self.blocks@.len() ==> block_links(
                        self.blocks@,
                        j,
                        self.miner.difficulty_target,
                    ),
            decreases self.blocks@.len() - i,
        {
            let current_block = &self.blocks[i];
            let previous_block = &self.blocks[i - 1];
            if !self.miner.validate_block(current_block) {
                return Some((i, ChainFault::InvalidHash));
            }
            let previous_digest = previous_block.hash();
            if !same_digest(&current_block.header.previous_hash, &previous_digest) {
                return Some((i, ChainFault::InvalidPreviousHash));
            }
            i = i + 1;
        }
        None
    }

    /// Whether every block after the genesis block meets the miner's target
    /// and links to the digest of the block before it.
    pub fn validate_chain(&self) -> (r: bool)
        ensures
            r == chain_valid(self.blocks@, self.miner.difficulty_target),
    {
        match self.find_fault() {
            None => true,
            Some(_) => false,
        }
    }

    /// The balance of `address` over every transaction of the chain, in
    /// order: credited by each transaction that lists it among its outputs,
    /// then debited, down to zero at most, by each that lists it among its
    /// inputs.
    pub fn get_balance(&self, address: &str) -> (r: u64)
        requires
            credits_fit(all_transactions(self.blocks@), address@),
        ensures
            r == balance_of(all_transactions(self.blocks@), address@),
    {
        proof {
            lemma_balance_in_range(all_transactions(self.blocks@), address@);
        }
        match self.checked_balance(address) {
            Some(balance) => balance,
            None => 0,
        }
    }

    /// The balance of `address` as `get_balance` computes it, or `None` when
    /// a credit along the way would take it past `u64::MAX`.
    pub fn checked_balance(&self, address: &str) -> (r: Option<u64>)
        ensures
            credits_fit(all_transactions(self.blocks@), address@) ==> r == Some(
                balance_of(all_transactions(self.blocks@), address@) as u64,
            ),
            !credits_fit(all_transactions(self.blocks@), address@) ==> r is None,
    {
        let addr: String = address.to_owned();
        let ghost all = all_transactions(self.blocks@);
        let mut balance: u64 = 0;
        let mut i: usize = 0;
        assert(all_transactions(self.blocks@.take(0)) =~= seq![]);
        while i < self.blocks.len()
            invariant
                i <= self.blocks@.len(),
                addr@ == address@,
                all == all_transactions(self.blocks@),
                credits_fit(all_transactions(self.blocks@.take(i as int)), address@),
                balance == balance_of(all_transactions(self.blocks@.take(i as int)), address@),
            decreases self.blocks@.len() - i,
        {
            let ghost done = all_transactions(self.blocks@.take(i as int));
            let block = &self.blocks[i];
            proof {
                let next = self.blocks@.take(i + 1);
                assert(next.drop_last() =~= self.blocks@.take(i as int));
                assert(all_transactions(next) == done + block.transactions@);
                lemma_all_transactions_prefix(self.blocks@, i + 1);
                assert(block.transactions@.take(0) =~= seq![]);
                assert(done + block.transactions@.take(0) =~= done);
            }
            let mut j: usize = 0;
            while j < block.transactions.len()
                invariant
                    j <= block.transactions@.len(),
                    addr@ == address@,
                    all == all_transactions(self.blocks@),
                    prefix_of(done + block.transactions@, all),
                    credits_fit(done + block.transactions@.take(j as int), address@),
                    balance == balance_of(done + block.transactions@.take(j as int), address@),
                decreases block.transactions@.len() - j,
            {
                let transaction = &block.transactions[j];
                let ghost seen = done + block.transactions@.take(j as int);
                let ghost upto = done + block.transactions@.take(j + 1);
                proof {
                    assert(upto.drop_last() =~= seen);
                    assert(upto.last() == *transaction);
                    assert(prefix_of(upto, all));
                }
                if contains_address(&transaction.outputs, &addr) {
                    if balance > u64::MAX - transaction.amount {
                        proof {
                            assert(!credits_fit(upto, address@));
                            if credits_fit(all, address@) {
                                lemma_credits_fit_prefix(upto, all, address@);
                            }
                        }
                        return None;
                    }
                    balance = balance + transaction.amount;
                }
                if contains_address(&transaction.inputs, &addr) {
                    balance = balance.saturating_sub(transaction.amount);
                }
                j = j + 1;
            }
            proof {
                assert(block.transactions@.take(j as int) =~= block.transactions@);
            }
            i = i + 1;
        }
        proof {
            assert(self.blocks@.take(i as int) =~= self.blocks@);
        }
        Some(balance)
    }
}

} // verus!
