use bitcoin::hashes::Hash as _;
use bitcoin::{OutPoint, PackedLockTime, Script, Sequence, Transaction, TxIn, TxOut, Witness};
use watchtower::ids::Txid;
use watchtower::transaction::{PenaltyTx, TxInput, TxOutput};

fn penalty_tx(witness: Vec<Vec<u8>>, scripts: Vec<Vec<u8>>) -> PenaltyTx {
    PenaltyTx {
        version: 2,
        lock_time: 0,
        inputs: vec![TxInput {
            previous_txid: Txid { bytes: [9; 32] },
            previous_vout: 1,
            script_sig: vec![],
            sequence: 0xffff_fffd,
            witness,
        }],
        outputs: scripts
            .into_iter()
            .map(|script_pubkey| TxOutput { value: 50_000, script_pubkey })
            .collect(),
    }
}

fn as_bitcoin(tx: &PenaltyTx) -> Transaction {
    Transaction {
        version: tx.version,
        lock_time: PackedLockTime(tx.lock_time),
        input: tx
            .inputs
            .iter()
            .map(|input| TxIn {
                previous_output: OutPoint::new(
                    bitcoin::Txid::from_inner(input.previous_txid.bytes),
                    input.previous_vout,
                ),
                script_sig: Script::from(input.script_sig.clone()),
                sequence: Sequence(input.sequence),
                witness: Witness::from_vec(input.witness.clone()),
            })
            .collect(),
        output: tx
            .outputs
            .iter()
            .map(|output| TxOut {
                value: output.value,
                script_pubkey: Script::from(output.script_pubkey.clone()),
            })
            .collect(),
    }
}

#[test]
fn unsigned_transaction_weighs_four_times_its_size() {
    // version 4, input count 1, input 41, output count 1, output 8 + 1 + 22, lock time 4.
    let tx = penalty_tx(vec![], vec![vec![0; 22]]);
    assert_eq!(tx.weight(), 4 * 82);
}

#[test]
fn witness_weighs_once() {
    let witness = vec![vec![0x30; 73], vec![1], vec![0xac; 77]];
    let tx = penalty_tx(witness, vec![vec![0; 22]]);
    // The marker, the flag, and the witness: 1 + (1 + 73) + (1 + 1) + (1 + 77).
    assert_eq!(tx.weight(), 4 * 82 + 2 + 155);
}

#[test]
fn weight_is_that_of_the_bitcoin_transaction() {
    let shapes = vec![
        penalty_tx(vec![], vec![]),
        penalty_tx(vec![], vec![vec![0; 22]]),
        penalty_tx(vec![], vec![vec![0; 34], vec![1; 300]]),
        penalty_tx(vec![vec![], vec![5; 300]], vec![vec![0; 34]]),
    ];
    for tx in &shapes {
        assert_eq!(tx.weight(), as_bitcoin(tx).weight() as u64);
    }
    let mut legacy = penalty_tx(vec![], vec![vec![0; 25]]);
    legacy.inputs[0].script_sig = vec![0x48; 107];
    legacy.inputs.push(legacy.inputs[0].clone());
    assert_eq!(legacy.weight(), as_bitcoin(&legacy).weight() as u64);
    assert_eq!(legacy.weight(), 4 * (4 + 1 + 2 * (41 + 107) + 1 + (8 + 1 + 25) + 4));
}

#[test]
fn weight_does_not_change_the_transaction() {
    let tx = penalty_tx(vec![vec![1, 2, 3]], vec![vec![0; 22]]);
    let copy = tx.clone();
    let _ = tx.weight();
    assert_eq!(tx, copy);
}

#[test]
fn clone_keeps_every_field() {
    let mut tx = penalty_tx(vec![vec![1, 2, 3], vec![], vec![4]], vec![vec![0; 22], vec![7]]);
    tx.version = -3;
    tx.lock_time = 500_000;
    tx.inputs[0].script_sig = vec![9, 9];
    let copy = tx.clone();
    assert_eq!(copy.version, -3);
    assert_eq!(copy.lock_time, 500_000);
    assert_eq!(copy.inputs.len(), 1);
    assert_eq!(copy.inputs[0].previous_txid, Txid { bytes: [9; 32] });
    assert_eq!(copy.inputs[0].previous_vout, 1);
    assert_eq!(copy.inputs[0].script_sig, vec![9, 9]);
    assert_eq!(copy.inputs[0].sequence, 0xffff_fffd);
    assert_eq!(copy.inputs[0].witness, vec![vec![1, 2, 3], vec![], vec![4]]);
    assert_eq!(copy.outputs.len(), 2);
    assert_eq!(copy.outputs[0], TxOutput { value: 50_000, script_pubkey: vec![0; 22] });
    assert_eq!(copy.outputs[1], TxOutput { value: 50_000, script_pubkey: vec![7] });
    assert_eq!(copy, tx);
}
