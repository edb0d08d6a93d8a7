//! Block headers, blocks and the Merkle commitment to a block's transactions.
use crate::encoding::{decimal, json_byte_list, push_all, push_decimal, push_json_byte_list};
use crate::hashing::{sha256, sha256_of};
use crate::transaction::{tx_digest, Transaction};
use vstd::prelude::*;

verus! {

/// Relies on std::time::SystemTime::now: whole seconds since the Unix epoch
/// (zero for a clock set before it). Nothing is promised of the value.
#[verifier::external_body]
pub(crate) fn unix_now() -> (r: u64) {
    match std::time::SystemTime::now().duration_since(std::time::UNIX_EPOCH) {
        Ok(d) => d.as_secs(),
        Err(_) => 0,
    }
}

/// The fixed-shape part of a block that its digest is taken over.
#[derive(Debug, Clone)]
pub struct BlockHeader {
    pub version: u32,
    pub previous_hash: [u8; 32],
    pub merkle_root: [u8; 32],
    pub timestamp: u64,
    pub difficulty_target: u32,
    pub nonce: u32,
}

/// The canonical encoding of a header:
/// `{"version":..,"previous_hash":[..],"merkle_root":[..],"timestamp":..,"difficulty_target":..,"nonce":..}`.
pub open spec fn header_encoding(h: BlockHeader) -> Seq<u8> {
    seq!['{' as u8, '"' as u8, 'v' as u8, 'e' as u8, 'r' as u8, 's' as u8, 'i' as u8, 'o' as u8, 'n' as u8, '"' as u8, ':' as u8] + decimal(h.version as nat) + seq![',' as u8, '"' as u8, 'p' as u8, 'r' as u8, 'e' as u8, 'v' as u8, 'i' as u8, 'o' as u8, 'u' as u8, 's' as u8, '_' as u8, 'h' as u8, 'a' as u8, 's' as u8, 'h' as u8, '"' as u8, ':' as u8] + json_byte_list(h.previous_hash@)
        + seq![',' as u8, '"' as u8, 'm' as u8, 'e' as u8, 'r' as u8, 'k' as u8, 'l' as u8, 'e' as u8, '_' as u8, 'r' as u8, 'o' as u8, 'o' as u8, 't' as u8, '"' as u8, ':' as u8] + json_byte_list(h.merkle_root@) + seq![',' as u8, '"' as u8, 't' as u8, 'i' as u8, 'm' as u8, 'e' as u8, 's' as u8, 't' as u8, 'a' as u8, 'm' as u8, 'p' as u8, '"' as u8, ':' as u8] + decimal(h.timestamp as nat)
        + seq![',' as u8, '"' as u8, 'd' as u8, 'i' as u8, 'f' as u8, 'f' as u8, 'i' as u8, 'c' as u8, 'u' as u8, 'l' as u8, 't' as u8, 'y' as u8, '_' as u8, 't' as u8, 'a' as u8, 'r' as u8, 'g' as u8, 'e' as u8, 't' as u8, '"' as u8, ':' as u8] + decimal(h.difficulty_target as nat) + seq![',' as u8, '"' as u8, 'n' as u8, 'o' as u8, 'n' as u8, 'c' as u8, 'e' as u8, '"' as u8, ':' as u8] + decimal(h.nonce as nat)
        + seq!['}' as u8]
}

/// The digest of a header: SHA-256 applied twice to its canonical encoding.
pub open spec fn header_digest(h: BlockHeader) -> Seq<u8> {
    sha256_of(sha256_of(header_encoding(h)))
}

/// The all-zero digest.
pub open spec fn zero_digest() -> Seq<u8> {
    Seq::new(32, |i: int| 0u8)
}

/// One level of the Merkle tree above `hs`: each pair `(l, r)` becomes the
/// digest of `l ++ r`; a last element without a partner is paired with itself.
pub open spec fn merkle_level(hs: Seq<Seq<u8>>) -> Seq<Seq<u8>> {
    Seq::new(
        ((hs.len() + 1) / 2) as nat,
        |k: int|
            sha256_of(
                hs[2 * k] + if 2 * k + 1 < hs.len() {
                    hs[2 * k + 1]
                } else {
                    hs[2 * k]
                },
            ),
    )
}

/// The top of the Merkle tree over a non-empty sequence of digests.
pub open spec fn merkle_top(hs: Seq<Seq<u8>>) -> Seq<u8>
    decreases hs.len(),
{
    if hs.len() <= 1 {
        hs[0]
    } else {
        merkle_top(merkle_level(hs))
    }
}

/// The Merkle root of a transaction list: all zeros when it is empty, else
/// the top of the tree whose leaves are the transaction digests in order.
pub open spec fn merkle_root_of(txs: Seq<Transaction>) -> Seq<u8> {
    if txs.len() == 0 {
        zero_digest()
    } else {
        merkle_top(txs.map_values(|t: Transaction| tx_digest(t)))
    }
}

/// The view of a list of digests.
pub open spec fn digests(hs: Seq<[u8; 32]>) -> Seq<Seq<u8>> {
    hs.map_values(|h: [u8; 32]| h@)
}

/// The SHA-256 digest of `a ++ b`.
fn hash_pair(a: &[u8; 32], b: &[u8; 32]) -> (r: [u8; 32])
    ensures
        r@ == sha256_of(a@ + b@),
{
    let mut buf: Vec<u8> = Vec::new();
    push_all(&mut buf, a);
    push_all(&mut buf, b);
    sha256(buf.as_slice())
}

/// One level of the Merkle tree, computed.
fn next_level(hs: &Vec<[u8; 32]>) -> (r: Vec<[u8; 32]>)
    ensures
        r@.len() == (hs@.len() + 1) / 2,
        digests(r@) == merkle_level(digests(hs@)),
{
    let ghost v = digests(hs@);
    let n = hs.len();
    let half = n / 2 + n % 2;
    let mut next: Vec<[u8; 32]> = Vec::new();
    let mut k: usize = 0;
    while k < half
        invariant
            n == hs@.len(),
            half == (n + 1) / 2,
            k <= half,
            v == digests(hs@),
            next@.len() == k,
            forall|j: int| 0 <= j < k ==> #[trigger] next@[j]@ == merkle_level(v)[j],
        decreases half - k,
    {
        let i = 2 * k;
        let left = hs[i];
        let right = if i + 1 < n {
            hs[i + 1]
        } else {
            hs[i]
        };
        let h = hash_pair(&left, &right);
        next.push(h);
        k = k + 1;
    }
    assert(digests(next@) =~= merkle_level(v));
    next
}

impl BlockHeader {
    /// A header stamped with the current time and nonce zero.
    pub fn new(
        version: u32,
        previous_hash: [u8; 32],
        merkle_root: [u8; 32],
        difficulty_target: u32,
    ) -> (r: Self)
        ensures
            r.version == version,
            r.previous_hash == previous_hash,
            r.merkle_root == merkle_root,
            r.difficulty_target == difficulty_target,
            r.nonce == 0,
    {
        let timestamp = unix_now();
        Self { version, previous_hash, merkle_root, timestamp, difficulty_target, nonce: 0 }
    }

    /// The canonical encoding of this header.
    pub fn encode(&self) -> (r: Vec<u8>)
        ensures
            r@ == header_encoding(*self),
    {
        let mut out: Vec<u8> = Vec::new();
        push_all(&mut out, &['{' as u8, '"' as u8, 'v' as u8, 'e' as u8, 'r' as u8, 's' as u8, 'i' as u8, 'o' as u8, 'n' as u8, '"' as u8, ':' as u8]);
        push_decimal(&mut out, self.version as u64);
        push_all(&mut out, &[',' as u8, '"' as u8, 'p' as u8, 'r' as u8, 'e' as u8, 'v' as u8, 'i' as u8, 'o' as u8, 'u' as u8, 's' as u8, '_' as u8, 'h' as u8, 'a' as u8, 's' as u8, 'h' as u8, '"' as u8, ':' as u8]);
        push_json_byte_list(&mut out, &self.previous_hash);
        push_all(&mut out, &[',' as u8, '"' as u8, 'm' as u8, 'e' as u8, 'r' as u8, 'k' as u8, 'l' as u8, 'e' as u8, '_' as u8, 'r' as u8, 'o' as u8, 'o' as u8, 't' as u8, '"' as u8, ':' as u8]);
        push_json_byte_list(&mut out, &self.merkle_root);
        push_all(&mut out, &[',' as u8, '"' as u8, 't' as u8, 'i' as u8, 'm' as u8, 'e' as u8, 's' as u8, 't' as u8, 'a' as u8, 'm' as u8, 'p' as u8, '"' as u8, ':' as u8]);
        push_decimal(&mut out, self.timestamp);
        push_all(&mut out, &[',' as u8, '"' as u8, 'd' as u8, 'i' as u8, 'f' as u8, 'f' as u8, 'i' as u8, 'c' as u8, 'u' as u8, 'l' as u8, 't' as u8, 'y' as u8, '_' as u8, 't' as u8, 'a' as u8, 'r' as u8, 'g' as u8, 'e' as u8, 't' as u8, '"' as u8, ':' as u8]);
        push_decimal(&mut out, self.difficulty_target as u64);
        push_all(&mut out, &[',' as u8, '"' as u8, 'n' as u8, 'o' as u8, 'n' as u8, 'c' as u8, 'e' as u8, '"' as u8, ':' as u8]);
        push_decimal(&mut out, self.nonce as u64);
        push_all(&mut out, &['}' as u8]);
        assert(out@ =~= header_encoding(*self));
        out
    }

    /// The double SHA-256 digest of the canonical encoding.
    pub fn hash(&self) -> (r: [u8; 32])
        ensures
            r@ == header_digest(*self),
    {
        let bytes = self.encode();
        let first = sha256(bytes.as_slice());
        sha256(&first)
    }
}

/// A header with the transactions it commits to, and its place in the chain.
#[derive(Debug, Clone)]
pub struct Block {
    pub header: BlockHeader,
    pub transactions: Vec<Transaction>,
    pub height: u32,
}

impl Block {
    /// A block over `transactions`, stamped with the current time, with nonce
    /// zero and the Merkle root of the transactions.
    pub fn new(
        version: u32,
        previous_hash: [u8; 32],
        transactions: Vec<Transaction>,
        difficulty_target: u32,
        height: u32,
    ) -> (r: Self)
        ensures
            r.header.version == version,
            r.header.previous_hash == previous_hash,
            r.header.merkle_root@ == merkle_root_of(transactions@),
            r.header.difficulty_target == difficulty_target,
            r.header.nonce == 0,
            r.transactions == transactions,
            r.height == height,
    {
        let merkle_root = Self::calculate_merkle_root(&transactions);
        let header = BlockHeader::new(version, previous_hash, merkle_root, difficulty_target);
        Self { header, transactions, height }
    }

    /// The digest of this block's header.
    pub fn hash(&self) -> (r: [u8; 32])
        ensures
            r@ == header_digest(self.header),
    {
        self.header.hash()
    }

    /// The Merkle root of `transactions`.
    pub fn calculate_merkle_root(transactions: &Vec<Transaction>) -> (r: [u8; 32])
        ensures
            r@ == merkle_root_of(transactions@),
    {
        if transactions.len() == 0 {
            let z = [0u8; 32];
            assert(z@ =~= zero_digest());
            return z;
        }
        let ghost leaves = transactions@.map_values(|t: Transaction| tx_digest(t));
        let mut hashes: Vec<[u8; 32]> = Vec::new();
        let mut i: usize = 0;
        while i < transactions.len()
            invariant
                i <= transactions@.len(),
                leaves == transactions@.map_values(|t: Transaction| tx_digest(t)),
                hashes@.len() == i,
                forall|k: int| 0 <= k < i ==> #[trigger] hashes@[k]@ == leaves[k],
            decreases transactions@.len() - i,
        {
            let h = transactions[i].hash();
            hashes.push(h);
            i = i + 1;
        }
        assert(digests(hashes@) =~= leaves);
        while hashes.len() > 1
            invariant
                hashes@.len() >= 1,
                merkle_top(digests(hashes@)) == merkle_top(leaves),
            decreases hashes@.len(),
        {
            hashes = next_level(&hashes);
        }
        let r = hashes[0];
        assert(digests(hashes@)[0] == r@);
        r
    }
}

} // verus!
