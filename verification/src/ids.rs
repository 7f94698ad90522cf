//! Identifiers of transactions and channels, and the revokeable outputs that they lead to.

use vstd::prelude::*;

verus! {

/// A transaction id: the 32-byte hash of a transaction.
#[derive(Clone, Copy, Debug, PartialEq, Eq)]
pub struct Txid {
    pub bytes: [u8; 32],
}

impl Txid {
    /// Whether `self` and `other` are the same transaction id.
    pub fn equals(&self, other: &Txid) -> (same: bool)
        ensures
            same == (*self == *other),
    {
        let mut i: usize = 0;
        while i < 32
            invariant
                i <= 32,
                forall|j: int| 0 <= j < i ==> self.bytes[j] == other.bytes[j],
            decreases 32 - i,
        {
            if self.bytes[i] != other.bytes[i] {
                return false;
            }
            i += 1;
        }
        assert(self.bytes =~= other.bytes);
        true
    }
}

/// The funding outpoint of a channel: the funding transaction and the index of the output that
/// funds the channel. It identifies the channel for as long as the channel exists.
#[derive(Clone, Copy, Debug, PartialEq, Eq)]
pub struct FundingRef {
    pub txid: Txid,
    pub index: u16,
}

impl FundingRef {
    /// Whether `self` and `other` name the same channel.
    pub fn equals(&self, other: &FundingRef) -> (same: bool)
        ensures
            same == (*self == *other),
    {
        self.index == other.index && self.txid.equals(&other.txid)
    }
}

/// A counterparty output that can be swept once the commitment that holds it is revoked.
#[derive(Clone, Copy, Debug, PartialEq, Eq)]
pub struct RevokeableOutput {
    /// The number of the commitment; later commitments of a channel have larger numbers.
    pub commitment_number: u64,
    /// The id of the commitment transaction.
    pub commitment_txid: Txid,
    /// The index of the revokeable output in the commitment transaction.
    pub output_idx: u32,
    /// The value of the output, in satoshis.
    pub value: u64,
}

} // verus!
