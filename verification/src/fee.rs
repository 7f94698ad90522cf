//! Fee arithmetic for justice transactions.
//!
//! A justice transaction pays the floor feerate on its final weight. The watchtower has to know
//! the fee before the transaction is signed, so it adds the weight of the witness that the
//! signature will bring to the weight of the unsigned transaction.

use vstd::prelude::*;
use lightning::chain::chaininterface;
use crate::transaction::{PenaltyTx, PenaltyTxView, tx_weight};

verus! {

/// Weight of the witness that spends a revoked `to_local` output: the number of witness
/// elements, the length of the signature, the signature, the length of the truth marker, the
/// truth marker, the length of the witness script, and the witness script.
pub const WEIGHT_REVOKED_OUTPUT: u64 = 1 + 1 + 73 + 1 + 1 + 1 + 77;

/// The lowest feerate, in satoshis per thousand weight units, at which a transaction relays.
pub const FEERATE_FLOOR_SATS_PER_KW: u64 = 253;

/// The weight of a justice transaction once signed, given its weight before signing.
pub open spec fn signed_weight(unsigned_weight: int) -> int {
    unsigned_weight + WEIGHT_REVOKED_OUTPUT
}

/// The fee, in satoshis, that a transaction of `weight` weight units pays at the floor feerate.
pub open spec fn fee_for_weight(weight: int) -> int {
    FEERATE_FLOOR_SATS_PER_KW * weight / 1000
}

/// The fee that a justice transaction pays, given its weight before signing.
pub open spec fn justice_fee(unsigned_weight: int) -> int {
    fee_for_weight(signed_weight(unsigned_weight))
}

/// Whether the first output of `tx` is worth at least `fee`.
pub open spec fn pays_fee(tx: PenaltyTxView, fee: int) -> bool {
    tx.outputs.len() > 0 && tx.outputs[0].value >= fee
}

/// Reads `lightning::chain::chaininterface::FEERATE_FLOOR_SATS_PER_KW`, which is 253.
#[verifier::external_body]
fn feerate_floor() -> (rate: u32)
    ensures
        rate == FEERATE_FLOOR_SATS_PER_KW,
{
    chaininterface::FEERATE_FLOOR_SATS_PER_KW
}

/// The fee of a justice transaction whose weight before signing is `unsigned_weight`.
pub fn fee_for_unsigned_weight(unsigned_weight: u64) -> (fee: u64)
    ensures
        fee == justice_fee(unsigned_weight as int),
{
    let weight: u128 = unsigned_weight as u128 + WEIGHT_REVOKED_OUTPUT as u128;
    let rate: u128 = feerate_floor() as u128;
    let fee: u128 = rate * weight / 1000;
    fee as u64
}

/// Why no fee could be taken from a transaction.
#[derive(Clone, Copy, Debug, PartialEq, Eq)]
pub enum FeeError {
    /// The transaction has no output to take the fee from.
    MissingOutput,
    /// The first output is worth less than the fee.
    InsufficientValue,
}

/// Takes the fee of a justice transaction of weight `unsigned_weight` before signing from the
/// first output of `tx`.
///
/// An output that is worth exactly the fee is left with nothing. An output that is worth less
/// is refused: nothing wraps around.
pub fn deduct_fee(tx: PenaltyTx, unsigned_weight: u64) -> (adjusted: Result<PenaltyTx, FeeError>)
    ensures
        match adjusted {
            Ok(paid) => {
                &&& pays_fee(tx@, justice_fee(unsigned_weight as int))
                &&& paid@ == tx@.with_first_output_value(
                    (tx@.outputs[0].value - justice_fee(unsigned_weight as int)) as u64,
                )
            },
            Err(FeeError::MissingOutput) => tx@.outputs.len() == 0,
            Err(FeeError::InsufficientValue) => {
                &&& tx@.outputs.len() > 0
                &&& tx@.outputs[0].value < justice_fee(unsigned_weight as int)
            },
        },
{
    let mut tx = tx;
    let ghost before = tx@;
    if tx.outputs.len() == 0 {
        return Err(FeeError::MissingOutput);
    }
    let fee = fee_for_unsigned_weight(unsigned_weight);
    let value = tx.outputs[0].value;
    if value < fee {
        return Err(FeeError::InsufficientValue);
    }
    tx.outputs[0].value = value - fee;
    assert(tx@.outputs =~= before.with_first_output_value((value - fee) as u64).outputs);
    Ok(tx)
}

/// Takes the fee that `tx` will owe once signed from its first output. The fee goes by the
/// weight of `tx` as it stands.
pub fn deduct_own_fee(tx: PenaltyTx) -> (adjusted: Result<PenaltyTx, FeeError>)
    ensures
        match adjusted {
            Ok(paid) => {
                &&& pays_fee(tx@, justice_fee(tx_weight(tx@) as int))
                &&& paid@ == tx@.with_first_output_value(
                    (tx@.outputs[0].value - justice_fee(tx_weight(tx@) as int)) as u64,
                )
            },
            Err(FeeError::MissingOutput) => tx@.outputs.len() == 0,
            Err(FeeError::InsufficientValue) => {
                &&& tx@.outputs.len() > 0
                &&& tx@.outputs[0].value < justice_fee(tx_weight(tx@) as int)
            },
        },
{
    let unsigned_weight = tx.weight();
    deduct_fee(tx, unsigned_weight)
}

} // verus!
