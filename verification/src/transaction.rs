//! Penalty transactions as plain values.
//!
//! The watchtower reads two things from a transaction: the value of its first output and its
//! weight. It carries everything else through unchanged, from the commitment engine that builds
//! the transaction to the commitment engine that signs it and on into the store.

use vstd::prelude::*;
use bitcoin::{OutPoint, PackedLockTime, Sequence, Transaction, TxIn, TxOut, Witness};
use crate::ids::Txid;

verus! {

/// An output of a transaction.
#[derive(Debug, PartialEq, Eq)]
pub struct TxOutput {
    /// The value of the output, in satoshis.
    pub value: u64,
    /// The script that locks the output.
    pub script_pubkey: Vec<u8>,
}

/// What a [`TxOutput`] holds.
pub struct TxOutputView {
    pub value: u64,
    pub script_pubkey: Seq<u8>,
}

impl View for TxOutput {
    type V = TxOutputView;

    open spec fn view(&self) -> TxOutputView {
        TxOutputView { value: self.value, script_pubkey: self.script_pubkey@ }
    }
}

impl Clone for TxOutput {
    fn clone(&self) -> (copy: Self)
        ensures
            copy@ == self@,
    {
        TxOutput { value: self.value, script_pubkey: self.script_pubkey.clone() }
    }
}

/// An input of a transaction.
#[derive(Debug, PartialEq, Eq)]
pub struct TxInput {
    /// The transaction whose output this input spends.
    pub previous_txid: Txid,
    /// The index of the spent output in that transaction.
    pub previous_vout: u32,
    /// The script that unlocks the spent output; empty for a witness spend.
    pub script_sig: Vec<u8>,
    /// The sequence number of the input.
    pub sequence: u32,
    /// The witness stack; empty until the input is signed.
    pub witness: Vec<Vec<u8>>,
}

/// What a [`TxInput`] holds.
pub struct TxInputView {
    pub previous_txid: Txid,
    pub previous_vout: u32,
    pub script_sig: Seq<u8>,
    pub sequence: u32,
    pub witness: Seq<Seq<u8>>,
}

impl View for TxInput {
    type V = TxInputView;

    open spec fn view(&self) -> TxInputView {
        TxInputView {
            previous_txid: self.previous_txid,
            previous_vout: self.previous_vout,
            script_sig: self.script_sig@,
            sequence: self.sequence,
            witness: self.witness.deep_view(),
        }
    }
}

impl Clone for TxInput {
    fn clone(&self) -> (copy: Self)
        ensures
            copy@ == self@,
    {
        TxInput {
            previous_txid: self.previous_txid,
            previous_vout: self.previous_vout,
            script_sig: self.script_sig.clone(),
            sequence: self.sequence,
            witness: self.witness.clone(),
        }
    }
}

/// A transaction that sweeps a revoked commitment output.
#[derive(Debug, PartialEq, Eq)]
pub struct PenaltyTx {
    pub version: i32,
    pub lock_time: u32,
    pub inputs: Vec<TxInput>,
    pub outputs: Vec<TxOutput>,
}

/// What a [`PenaltyTx`] holds.
pub struct PenaltyTxView {
    pub version: i32,
    pub lock_time: u32,
    pub inputs: Seq<TxInputView>,
    pub outputs: Seq<TxOutputView>,
}

impl PenaltyTxView {
    /// This transaction with the value of its first output replaced by `value`.
    pub open spec fn with_first_output_value(self, value: u64) -> PenaltyTxView
        recommends
            self.outputs.len() > 0,
    {
        PenaltyTxView {
            outputs: self.outputs.update(
                0,
                TxOutputView { value, script_pubkey: self.outputs[0].script_pubkey },
            ),
            ..self
        }
    }
}

impl View for PenaltyTx {
    type V = PenaltyTxView;

    open spec fn view(&self) -> PenaltyTxView {
        PenaltyTxView {
            version: self.version,
            lock_time: self.lock_time,
            inputs: self.inputs@.map_values(|input: TxInput| input@),
            outputs: self.outputs@.map_values(|output: TxOutput| output@),
        }
    }
}

impl Clone for PenaltyTx {
    fn clone(&self) -> (copy: Self)
        ensures
            copy@ == self@,
    {
        let mut inputs: Vec<TxInput> = Vec::new();
        let mut i: usize = 0;
        while i < self.inputs.len()
            invariant
                i <= self.inputs.len(),
                inputs.len() == i,
                forall|j: int| 0 <= j < i ==> inputs[j]@ == self.inputs[j]@,
            decreases self.inputs.len() - i,
        {
            inputs.push(self.inputs[i].clone());
            i += 1;
        }
        let mut outputs: Vec<TxOutput> = Vec::new();
        let mut k: usize = 0;
        while k < self.outputs.len()
            invariant
                k <= self.outputs.len(),
                outputs.len() == k,
                forall|j: int| 0 <= j < k ==> outputs[j]@ == self.outputs[j]@,
            decreases self.outputs.len() - k,
        {
            outputs.push(self.outputs[k].clone());
            k += 1;
        }
        let copy = PenaltyTx { version: self.version, lock_time: self.lock_time, inputs, outputs };
        assert(copy@.inputs =~= self@.inputs);
        assert(copy@.outputs =~= self@.outputs);
        copy
    }
}

/// The weight, in weight units, that the `bitcoin` crate computes for a transaction with these
/// contents.
pub uninterp spec fn tx_weight(tx: PenaltyTxView) -> u64;

/// Calls `bitcoin::Transaction::weight` on the `bitcoin` transaction with the contents of `tx`.
/// The weight depends on nothing but those contents.
#[verifier::external_body]
fn bitcoin_weight(tx: &PenaltyTx) -> (weight: u64)
    ensures
        weight == tx_weight(tx@),
{
    let input = tx.inputs.iter().map(|i| TxIn {
        previous_output: OutPoint::new(
            bitcoin::hashes::Hash::from_inner(i.previous_txid.bytes),
            i.previous_vout,
        ),
        script_sig: i.script_sig.clone().into(),
        sequence: Sequence(i.sequence),
        witness: Witness::from_vec(i.witness.clone()),
    }).collect();
    let output = tx.outputs.iter().map(|o| TxOut {
        value: o.value,
        script_pubkey: o.script_pubkey.clone().into(),
    }).collect();
    let lock_time = PackedLockTime(tx.lock_time);
    Transaction { version: tx.version, lock_time, input, output }.weight() as u64
}

impl PenaltyTx {
    /// The weight of the transaction as it stands, in weight units.
    pub fn weight(&self) -> (weight: u64)
        ensures
            weight == tx_weight(self@),
    {
        bitcoin_weight(self)
    }
}

} // verus!
