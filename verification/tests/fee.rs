use watchtower::fee::{
    deduct_fee, deduct_own_fee, fee_for_unsigned_weight, FeeError, FEERATE_FLOOR_SATS_PER_KW,
    WEIGHT_REVOKED_OUTPUT,
};
use watchtower::ids::Txid;
use watchtower::transaction::{PenaltyTx, TxInput, TxOutput};

fn unsigned_tx(value: u64) -> PenaltyTx {
    PenaltyTx {
        version: 2,
        lock_time: 0,
        inputs: vec![TxInput {
            previous_txid: Txid { bytes: [7; 32] },
            previous_vout: 0,
            script_sig: vec![],
            sequence: 0xffff_fffd,
            witness: vec![],
        }],
        outputs: vec![TxOutput { value, script_pubkey: vec![0x51; 22] }],
    }
}

#[test]
fn revoked_output_witness_weighs_155() {
    assert_eq!(WEIGHT_REVOKED_OUTPUT, 155);
}

#[test]
fn floor_feerate_is_253() {
    assert_eq!(FEERATE_FLOOR_SATS_PER_KW, 253);
    assert_eq!(
        FEERATE_FLOOR_SATS_PER_KW,
        lightning::chain::chaininterface::FEERATE_FLOOR_SATS_PER_KW as u64
    );
}

#[test]
fn fee_rounds_down() {
    // 253 * (328 + 155) / 1000 = 122.199
    assert_eq!(fee_for_unsigned_weight(328), 122);
    // 253 * 155 / 1000 = 39.215
    assert_eq!(fee_for_unsigned_weight(0), 39);
    // 253 * 1155 / 1000 = 292.215
    assert_eq!(fee_for_unsigned_weight(1000), 292);
    // 253 * 1000 / 1000 = 253
    assert_eq!(fee_for_unsigned_weight(845), 253);
    // 253 * 999 / 1000 = 252.747
    assert_eq!(fee_for_unsigned_weight(844), 252);
}

#[test]
fn fee_of_largest_weight_does_not_overflow() {
    assert_eq!(fee_for_unsigned_weight(u64::MAX), 4_667_026_250_648_516_597);
}

#[test]
fn fee_leaves_first_output() {
    let adjusted = deduct_fee(unsigned_tx(100_000), 328).unwrap();
    let mut expected = unsigned_tx(100_000);
    expected.outputs[0].value = 100_000 - 122;
    assert_eq!(adjusted, expected);
    assert_eq!(adjusted.outputs[0].value, 99_878);
}

#[test]
fn fee_leaves_other_outputs_alone() {
    let mut tx = unsigned_tx(5_000);
    tx.outputs.push(TxOutput { value: 77, script_pubkey: vec![1, 2, 3] });
    let adjusted = deduct_fee(tx, 1000).unwrap();
    assert_eq!(adjusted.outputs.len(), 2);
    assert_eq!(adjusted.outputs[0].value, 5_000 - 292);
    assert_eq!(adjusted.outputs[0].script_pubkey, vec![0x51; 22]);
    assert_eq!(adjusted.outputs[1], TxOutput { value: 77, script_pubkey: vec![1, 2, 3] });
    assert_eq!(adjusted.inputs, unsigned_tx(5_000).inputs);
}

#[test]
fn output_worth_the_fee_is_left_with_nothing() {
    let adjusted = deduct_fee(unsigned_tx(122), 328).unwrap();
    let mut expected = unsigned_tx(122);
    expected.outputs[0].value = 0;
    assert_eq!(adjusted, expected);
}

#[test]
fn output_worth_less_than_the_fee_is_refused() {
    assert_eq!(deduct_fee(unsigned_tx(0), 328), Err(FeeError::InsufficientValue));
    assert_eq!(deduct_fee(unsigned_tx(121), 328), Err(FeeError::InsufficientValue));
}

#[test]
fn boundary_follows_the_fee() {
    // The witness alone costs 39 satoshis.
    assert_eq!(deduct_fee(unsigned_tx(38), 0), Err(FeeError::InsufficientValue));
    assert_eq!(deduct_fee(unsigned_tx(39), 0).unwrap().outputs[0].value, 0);
    assert_eq!(deduct_fee(unsigned_tx(291), 1000), Err(FeeError::InsufficientValue));
    assert_eq!(deduct_fee(unsigned_tx(292), 1000).unwrap().outputs[0].value, 0);
}

#[test]
fn output_worth_one_more_than_the_fee_keeps_one() {
    let adjusted = deduct_fee(unsigned_tx(123), 328).unwrap();
    assert_eq!(adjusted.outputs[0].value, 1);
}

#[test]
fn transaction_without_output_is_refused() {
    let mut tx = unsigned_tx(100_000);
    tx.outputs.clear();
    assert_eq!(deduct_fee(tx, 328), Err(FeeError::MissingOutput));
}

#[test]
fn own_fee_goes_by_the_weight_of_the_transaction() {
    // One input without script, one output with a script of 22 bytes: 82 bytes, 328 weight
    // units.
    let adjusted = deduct_own_fee(unsigned_tx(100_000)).unwrap();
    assert_eq!(adjusted.outputs[0].value, 99_878);

    // A script of 34 bytes makes 94 bytes, 376 weight units: 253 * 531 / 1000 = 134.343.
    let mut wider = unsigned_tx(100_000);
    wider.outputs[0].script_pubkey = vec![0x51; 34];
    let adjusted = deduct_own_fee(wider).unwrap();
    assert_eq!(adjusted.outputs[0].value, 100_000 - 134);
}

#[test]
fn own_fee_refuses_what_cannot_pay() {
    assert_eq!(deduct_own_fee(unsigned_tx(121)), Err(FeeError::InsufficientValue));
    assert_eq!(deduct_own_fee(unsigned_tx(122)).unwrap().outputs[0].value, 0);
    let mut empty = unsigned_tx(1);
    empty.outputs.clear();
    assert_eq!(deduct_own_fee(empty), Err(FeeError::MissingOutput));
}
