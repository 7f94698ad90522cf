//! The per-channel store of signed justice transactions.

use vstd::prelude::*;
use crate::ids::{RevokeableOutput, Txid};
use crate::transaction::{PenaltyTx, PenaltyTxView};

verus! {

/// A signed justice transaction together with the revoked output that it sweeps.
#[derive(Debug, PartialEq, Eq)]
pub struct JusticeRecord {
    pub output: RevokeableOutput,
    pub tx: PenaltyTx,
}

/// What a [`JusticeRecord`] holds.
pub struct JusticeRecordView {
    pub output: RevokeableOutput,
    pub tx: PenaltyTxView,
}

impl View for JusticeRecord {
    type V = JusticeRecordView;

    open spec fn view(&self) -> JusticeRecordView {
        JusticeRecordView { output: self.output, tx: self.tx@ }
    }
}

/// Whether `log` holds a justice transaction for the commitment `commitment_txid`.
pub open spec fn recorded(log: Seq<JusticeRecordView>, commitment_txid: Txid) -> bool {
    exists|i: int|
        0 <= i < log.len() && (#[trigger] log[i]).output.commitment_txid == commitment_txid
}

/// Whether no two records of `log` belong to the same commitment.
pub open spec fn distinct_commitments(log: Seq<JusticeRecordView>) -> bool {
    forall|i: int, j: int|
        0 <= i < j < log.len() ==> (#[trigger] log[i]).output.commitment_txid != (
        #[trigger] log[j]).output.commitment_txid
}

/// The justice transaction that `log` holds for the commitment `commitment_txid`.
pub open spec fn justice_of(log: Seq<JusticeRecordView>, commitment_txid: Txid) -> PenaltyTxView
    recommends
        recorded(log, commitment_txid),
{
    let i = choose|i: int|
        0 <= i < log.len() && (#[trigger] log[i]).output.commitment_txid == commitment_txid;
    log[i].tx
}

/// The revoked outputs that the records of `log` sweep, in the order of the records.
pub open spec fn swept_outputs(log: Seq<JusticeRecordView>) -> Seq<RevokeableOutput> {
    log.map_values(|record: JusticeRecordView| record.output)
}

/// In a log without two records for one commitment, the record at `i` is the one that
/// [`justice_of`] finds for its commitment.
pub proof fn lemma_justice_of_record(log: Seq<JusticeRecordView>, i: int)
    requires
        distinct_commitments(log),
        0 <= i < log.len(),
    ensures
        recorded(log, log[i].output.commitment_txid),
        justice_of(log, log[i].output.commitment_txid) == log[i].tx,
{
    let txid = log[i].output.commitment_txid;
    let j = choose|j: int| 0 <= j < log.len() && (#[trigger] log[j]).output.commitment_txid == txid;
    assert(i == j);
}

/// The justice transactions of one channel, in the order in which they were recorded. A
/// commitment has at most one.
pub struct JusticeStore {
    records: Vec<JusticeRecord>,
}

impl View for JusticeStore {
    type V = Seq<JusticeRecordView>;

    closed spec fn view(&self) -> Seq<JusticeRecordView> {
        self.records@.map_values(|record: JusticeRecord| record@)
    }
}

impl JusticeStore {
    /// Whether no commitment has two records.
    pub open spec fn wf(&self) -> bool {
        distinct_commitments(self@)
    }

    /// An empty store.
    pub fn new() -> (store: Self)
        ensures
            store@ == Seq::<JusticeRecordView>::empty(),
            store.wf(),
    {
        let store = JusticeStore { records: Vec::new() };
        store
    }

    /// The number of justice transactions.
    pub fn len(&self) -> (len: usize)
        ensures
            len == self@.len(),
    {
        self.records.len()
    }

    /// The revoked outputs that have a justice transaction, in the order in which they were
    /// recorded.
    pub fn outputs(&self) -> (outputs: Vec<RevokeableOutput>)
        ensures
            outputs@ == swept_outputs(self@),
    {
        let mut outputs: Vec<RevokeableOutput> = Vec::new();
        let mut i: usize = 0;
        while i < self.records.len()
            invariant
                i <= self.records.len(),
                outputs@ == swept_outputs(self@).take(i as int),
            decreases self.records.len() - i,
        {
            outputs.push(self.records[i].output);
            i += 1;
        }
        outputs
    }

    fn position(&self, commitment_txid: &Txid) -> (found: Option<usize>)
        ensures
            match found {
                Some(i) => i < self@.len() && self@[i as int].output.commitment_txid
                    == *commitment_txid,
                None => !recorded(self@, *commitment_txid),
            },
    {
        let mut i: usize = 0;
        while i < self.records.len()
            invariant
                i <= self.records.len(),
                forall|j: int| 0 <= j < i ==> (#[trigger] self@[j]).output.commitment_txid
                    != *commitment_txid,
            decreases self.records.len() - i,
        {
            if self.records[i].output.commitment_txid.equals(commitment_txid) {
                return Some(i);
            }
            i += 1;
        }
        None
    }

    /// Whether the commitment `commitment_txid` has a justice transaction.
    pub fn contains(&self, commitment_txid: &Txid) -> (found: bool)
        ensures
            found == recorded(self@, *commitment_txid),
    {
        self.position(commitment_txid).is_some()
    }

    /// The justice transaction of the commitment `commitment_txid`, if it has one.
    pub fn lookup(&self, commitment_txid: &Txid) -> (found: Option<PenaltyTx>)
        requires
            self.wf(),
        ensures
            match found {
                Some(tx) => recorded(self@, *commitment_txid) && tx@ == justice_of(
                    self@,
                    *commitment_txid,
                ),
                None => !recorded(self@, *commitment_txid),
            },
    {
        match self.position(commitment_txid) {
            Some(i) => {
                proof {
                    lemma_justice_of_record(self@, i as int);
                }
                Some(self.records[i].tx.clone())
            },
            None => None,
        }
    }

    /// Records `tx` as the justice transaction that sweeps `output`.
    ///
    /// A commitment is recorded once: a second record for it is a fault of the caller.
    pub fn record(&mut self, output: RevokeableOutput, tx: PenaltyTx)
        requires
            old(self).wf(),
            !recorded(old(self)@, output.commitment_txid),
        ensures
            final(self).wf(),
            final(self)@ == old(self)@.push(JusticeRecordView { output, tx: tx@ }),
    {
        self.records.push(JusticeRecord { output, tx });
        assert forall|i: int, j: int| 0 <= i < j < self@.len() implies (
        #[trigger] self@[i]).output.commitment_txid != (
        #[trigger] self@[j]).output.commitment_txid by {
            assert(self@[i] == old(self)@[i]);
            if j < old(self)@.len() {
                assert(self@[j] == old(self)@[j]);
            }
        }
    }
}

} // verus!
