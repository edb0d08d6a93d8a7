//! Transactions: the leaf records of the ledger.
use crate::encoding::{
    decimal, json_str, json_str_list, json_str_of, push_all, push_decimal, push_json_str_list,
};
use crate::hashing::{sha256, sha256_of};
use vstd::prelude::*;

verus! {

/// A transfer record: the addresses it draws on, the addresses it pays and
/// the amount moved.
#[derive(Debug, Clone)]
pub struct Transaction {
    pub id: String,
    pub inputs: Vec<String>,
    pub outputs: Vec<String>,
    pub amount: u64,
}

/// The canonical encoding of a transaction:
/// `{"id":<string>,"inputs":[<strings>],"outputs":[<strings>],"amount":<decimal>}`.
pub open spec fn tx_encoding(t: Transaction) -> Seq<u8> {
    seq!['{' as u8, '"' as u8, 'i' as u8, 'd' as u8, '"' as u8, ':' as u8] + json_str_of(t.id@) + seq![',' as u8, '"' as u8, 'i' as u8, 'n' as u8, 'p' as u8, 'u' as u8, 't' as u8, 's' as u8, '"' as u8, ':' as u8] + json_str_list(t.inputs@) + seq![',' as u8, '"' as u8, 'o' as u8, 'u' as u8, 't' as u8, 'p' as u8, 'u' as u8, 't' as u8, 's' as u8, '"' as u8, ':' as u8]
        + json_str_list(t.outputs@) + seq![',' as u8, '"' as u8, 'a' as u8, 'm' as u8, 'o' as u8, 'u' as u8, 'n' as u8, 't' as u8, '"' as u8, ':' as u8] + decimal(t.amount as nat) + seq!['}' as u8]
}

/// The digest of a transaction: SHA-256 over its canonical encoding.
pub open spec fn tx_digest(t: Transaction) -> Seq<u8> {
    sha256_of(tx_encoding(t))
}

/// Whether `addr` is one of `addrs`.
pub open spec fn lists(addrs: Seq<String>, addr: Seq<char>) -> bool {
    exists|k: int| 0 <= k < addrs.len() && #[trigger] addrs[k]@ == addr
}

impl Transaction {
    pub fn new(id: String, inputs: Vec<String>, outputs: Vec<String>, amount: u64) -> (r: Self)
        ensures
            r.id == id,
            r.inputs == inputs,
            r.outputs == outputs,
            r.amount == amount,
    {
        Self { id, inputs, outputs, amount }
    }

    /// The canonical encoding of this transaction.
    pub fn encode(&self) -> (r: Vec<u8>)
        ensures
            r@ == tx_encoding(*self),
    {
        let mut out: Vec<u8> = Vec::new();
        push_all(&mut out, &['{' as u8, '"' as u8, 'i' as u8, 'd' as u8, '"' as u8, ':' as u8]);
        let id = json_str(self.id.as_str());
        push_all(&mut out, id.as_slice());
        push_all(&mut out, &[',' as u8, '"' as u8, 'i' as u8, 'n' as u8, 'p' as u8, 'u' as u8, 't' as u8, 's' as u8, '"' as u8, ':' as u8]);
        push_json_str_list(&mut out, &self.inputs);
        push_all(&mut out, &[',' as u8, '"' as u8, 'o' as u8, 'u' as u8, 't' as u8, 'p' as u8, 'u' as u8, 't' as u8, 's' as u8, '"' as u8, ':' as u8]);
        push_json_str_list(&mut out, &self.outputs);
        push_all(&mut out, &[',' as u8, '"' as u8, 'a' as u8, 'm' as u8, 'o' as u8, 'u' as u8, 'n' as u8, 't' as u8, '"' as u8, ':' as u8]);
        push_decimal(&mut out, self.amount);
        push_all(&mut out, &['}' as u8]);
        assert(out@ =~= tx_encoding(*self));
        out
    }

    /// The SHA-256 digest of the canonical encoding.
    pub fn hash(&self) -> (r: [u8; 32])
        ensures
            r@ == tx_digest(*self),
    {
        let bytes = self.encode();
        sha256(bytes.as_slice())
    }
}

} // verus!
