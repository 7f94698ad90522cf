//! The commitment engine: the collaborator that knows the channel's keys and secrets.

use vstd::prelude::*;
use crate::ids::{RevokeableOutput, Txid};
use crate::transaction::PenaltyTx;

verus! {

/// The engine could not sign because the revocation secret of the commitment is not known to
/// it yet: the commitment has not been revoked.
#[derive(Clone, Copy, Debug, PartialEq, Eq)]
pub struct SigningError;

/// What the watchtower asks of the commitment engine of a channel.
///
/// The watchtower assumes nothing about the answers: whatever an engine returns, the queue keeps
/// its order, no commitment is recorded twice, and what is recorded is what the engine signed.
pub trait CommitmentEngine {
    /// A channel state update as the engine understands it.
    type Update;

    /// The revokeable outputs of the counterparty commitments that `update` brings, oldest
    /// first.
    fn extract_new_revokeable_outputs(&self, update: &Self::Update) -> Vec<RevokeableOutput>;

    /// The unsigned transaction that sweeps output `output_idx`, worth `value` satoshis, of the
    /// commitment transaction `commitment_txid`.
    fn build_unsigned_penalty_tx(
        &self,
        commitment_txid: Txid,
        output_idx: u32,
        value: u64,
    ) -> PenaltyTx;

    /// Signs input `input_idx` of `tx`, which spends an output worth `value` satoshis of the
    /// commitment numbered `commitment_number`. Fails while that commitment is not revoked.
    fn sign_penalty_tx(
        &self,
        tx: PenaltyTx,
        input_idx: usize,
        value: u64,
        commitment_number: u64,
    ) -> Result<PenaltyTx, SigningError>;
}

} // verus!
