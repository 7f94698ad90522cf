//! The justice builder: turns the revokeable outputs at the front of a channel's queue into
//! signed justice transactions, for as long as their commitments turn out to be revoked.

use vstd::prelude::*;
use crate::channel::{ChannelView, commitments_differ, lemma_waiting_output_has_no_record};
use crate::engine::{CommitmentEngine, SigningError};
use crate::fee::{FeeError, deduct_own_fee, justice_fee, pays_fee};
use crate::ids::RevokeableOutput;
use crate::queue::PendingQueue;
use crate::store::{JusticeRecordView, JusticeStore, recorded};
use crate::transaction::{PenaltyTx, PenaltyTxView, tx_weight};

verus! {

/// What became of the output at the front of the queue once the engine had answered.
#[derive(Clone, Copy, Debug, PartialEq, Eq)]
pub enum Resolution {
    /// The queue was empty.
    NothingPending,
    /// The engine could not sign: the commitment is not revoked yet. The output stays at the
    /// front.
    AwaitingRevocation,
    /// The commitment has a justice transaction already. The output stays at the front and the
    /// signed transaction is dropped. The host broke its promise to reveal a commitment once.
    AlreadyRecorded,
    /// The signed transaction was recorded and the output left the queue.
    Recorded,
}

/// Why justice building stopped.
#[derive(Clone, Copy, Debug, PartialEq, Eq)]
pub enum ProcessOutcome {
    /// The queue is empty.
    Drained,
    /// The commitment of the output at the front is not revoked yet.
    AwaitingRevocation,
    /// The transaction built for the output at the front has no output to take the fee from.
    MissingOutput,
    /// The transaction built for the output at the front is worth less than its fee.
    InsufficientValue,
    /// The commitment of the output at the front has a justice transaction already. The host
    /// broke its promise to reveal a commitment once.
    AlreadyRecorded,
}

/// What the engine is asked to sign for a revokeable output.
#[derive(Debug, PartialEq, Eq)]
pub struct SigningRequest {
    /// The transaction to sign, its fee already taken from its first output.
    pub tx: PenaltyTx,
    /// The input to sign.
    pub input_idx: usize,
    /// The value of the output that the input spends, in satoshis.
    pub value: u64,
    /// The number of the commitment that holds that output.
    pub commitment_number: u64,
}

/// The transaction `unsigned` once the fee that it will owe when signed is taken from its first
/// output.
pub open spec fn fee_adjusted(unsigned: PenaltyTxView) -> PenaltyTxView
    recommends
        pays_fee(unsigned, justice_fee(tx_weight(unsigned) as int)),
{
    unsigned.with_first_output_value(
        (unsigned.outputs[0].value - justice_fee(tx_weight(unsigned) as int)) as u64,
    )
}

/// Whether `request` is what the engine is asked to sign for `output`, given the transaction
/// `unsigned` that it built for it: the first input of that transaction with its fee taken,
/// against the value and the commitment number of `output`.
pub open spec fn requests(
    output: RevokeableOutput,
    unsigned: PenaltyTxView,
    request: SigningRequest,
) -> bool {
    &&& pays_fee(unsigned, justice_fee(tx_weight(unsigned) as int))
    &&& request.tx@ == fee_adjusted(unsigned)
    &&& request.input_idx == 0
    &&& request.value == output.value
    &&& request.commitment_number == output.commitment_number
}

/// Whether no request can be made of the transaction `unsigned` because of `error`.
pub open spec fn refuses(unsigned: PenaltyTxView, error: FeeError) -> bool {
    match error {
        FeeError::MissingOutput => unsigned.outputs.len() == 0,
        FeeError::InsufficientValue => {
            &&& unsigned.outputs.len() > 0
            &&& unsigned.outputs[0].value < justice_fee(tx_weight(unsigned) as int)
        },
    }
}

/// What to ask the engine to sign for `output`, given the unsigned transaction that the engine
/// built for it: the first input of that transaction with its fee taken, against the value and
/// the commitment number of `output`.
pub fn signing_request(output: &RevokeableOutput, unsigned: PenaltyTx) -> (request: Result<
    SigningRequest,
    FeeError,
>)
    ensures
        match request {
            Ok(request) => requests(*output, unsigned@, request),
            Err(error) => refuses(unsigned@, error),
        },
{
    match deduct_own_fee(unsigned) {
        Ok(tx) => Ok(
            SigningRequest {
                tx,
                input_idx: 0,
                value: output.value,
                commitment_number: output.commitment_number,
            },
        ),
        Err(error) => Err(error),
    }
}

/// Whether `extracted` are the revokeable outputs that `engine` gave when asked for those of
/// `update`.
pub open spec fn extracts<E: CommitmentEngine>(
    engine: &E,
    update: &E::Update,
    extracted: Vec<RevokeableOutput>,
) -> bool {
    call_ensures(E::extract_new_revokeable_outputs, (engine, update), extracted)
}

/// Whether `unsigned` is a transaction that `engine` gave when asked to build for `output`.
pub open spec fn builds<E: CommitmentEngine>(
    engine: &E,
    output: RevokeableOutput,
    unsigned: PenaltyTx,
) -> bool {
    call_ensures(
        E::build_unsigned_penalty_tx,
        (engine, output.commitment_txid, output.output_idx, output.value),
        unsigned,
    )
}

/// Whether `answer` is what `engine` gave when asked to sign `request`.
pub open spec fn signs<E: CommitmentEngine>(
    engine: &E,
    request: SigningRequest,
    answer: Result<PenaltyTx, SigningError>,
) -> bool {
    call_ensures(
        E::sign_penalty_tx,
        (engine, request.tx, request.input_idx, request.value, request.commitment_number),
        answer,
    )
}

/// Whether `engine` gave `answer` for `output`: it built a transaction for `output`, and
/// `answer` is what it gave when asked to sign the request made of that transaction.
pub open spec fn answers<E: CommitmentEngine>(
    engine: &E,
    output: RevokeableOutput,
    answer: Result<PenaltyTx, SigningError>,
) -> bool {
    exists|unsigned: PenaltyTx, request: SigningRequest|
        #![trigger builds(engine, output, unsigned), signs(engine, request, answer)]
        builds(engine, output, unsigned) && requests(output, unsigned@, request) && signs(
            engine,
            request,
            answer,
        )
}

/// Whether `engine` built a transaction for `output` of which no request can be made because
/// of `error`.
pub open spec fn fails<E: CommitmentEngine>(
    engine: &E,
    output: RevokeableOutput,
    error: FeeError,
) -> bool {
    exists|unsigned: PenaltyTx| #[trigger]
        builds(engine, output, unsigned) && refuses(unsigned@, error)
}

/// Whether `record` holds a transaction that `engine` signed for the output of `record`.
pub open spec fn signed_by<E: CommitmentEngine>(engine: &E, record: JusticeRecordView) -> bool {
    exists|signed: PenaltyTx| #[trigger]
        answers(engine, record.output, Ok(signed)) && record.tx == signed@
}

/// Whether justice building with `engine` may lead from `before` to `after` and stop with
/// `outcome`.
///
/// Outputs were resolved from the front of the queue only and in their order. Every record
/// that was added holds what the engine signed for its output. Building stopped because the
/// queue was empty, or at the output that is now at the front: the engine did not sign for it,
/// or built a transaction that cannot pay its fee, or signed for a commitment that has a record
/// already.
pub open spec fn builds_justice<E: CommitmentEngine>(
    engine: &E,
    before: ChannelView,
    after: ChannelView,
    outcome: ProcessOutcome,
) -> bool {
    &&& before.advances_to(after)
    &&& forall|i: int|
        before.resolved.len() <= i < after.resolved.len() ==> signed_by(
            engine,
            #[trigger] after.resolved[i],
        )
    &&& match outcome {
        ProcessOutcome::Drained => after.pending.len() == 0,
        ProcessOutcome::AwaitingRevocation => {
            &&& after.pending.len() > 0
            &&& answers(engine, after.pending[0], Err(SigningError))
        },
        ProcessOutcome::MissingOutput => {
            &&& after.pending.len() > 0
            &&& fails(engine, after.pending[0], FeeError::MissingOutput)
        },
        ProcessOutcome::InsufficientValue => {
            &&& after.pending.len() > 0
            &&& fails(engine, after.pending[0], FeeError::InsufficientValue)
        },
        ProcessOutcome::AlreadyRecorded => {
            &&& after.pending.len() > 0
            &&& recorded(after.resolved, after.pending[0].commitment_txid)
            &&& exists|signed: PenaltyTx| #[trigger] answers(engine, after.pending[0], Ok(signed))
        },
    }
}

/// Where every output that the channel has seen belongs to a commitment of its own, justice
/// building never meets a commitment that has a record already.
pub proof fn lemma_no_fault_where_commitments_differ<E: CommitmentEngine>(
    engine: &E,
    before: ChannelView,
    after: ChannelView,
    outcome: ProcessOutcome,
)
    requires
        builds_justice(engine, before, after, outcome),
        commitments_differ(before.history()),
    ensures
        !(outcome is AlreadyRecorded),
{
    if outcome is AlreadyRecorded {
        lemma_waiting_output_has_no_record(before, after, 0);
    }
}

/// What becomes of the output at the front of `pending`, given the records so far and whether
/// the engine signed.
pub open spec fn resolution_of(
    pending: Seq<RevokeableOutput>,
    log: Seq<JusticeRecordView>,
    signed: bool,
) -> Resolution {
    if pending.len() == 0 {
        Resolution::NothingPending
    } else if !signed {
        Resolution::AwaitingRevocation
    } else if recorded(log, pending[0].commitment_txid) {
        Resolution::AlreadyRecorded
    } else {
        Resolution::Recorded
    }
}

/// Settles the output at the front of `queue` once the engine has answered with `signed`.
///
/// A signed transaction is recorded for the output and the output leaves the queue. In every
/// other case the queue and the store stay exactly as they were.
pub fn resolve_front(
    queue: &mut PendingQueue,
    store: &mut JusticeStore,
    signed: Result<PenaltyTx, SigningError>,
) -> (resolution: Resolution)
    requires
        old(store).wf(),
    ensures
        final(store).wf(),
        resolution == resolution_of(old(queue)@, old(store)@, signed is Ok),
        resolution is Recorded ==> {
            &&& final(queue)@ == old(queue)@.skip(1)
            &&& final(store)@ == old(store)@.push(
                JusticeRecordView { output: old(queue)@[0], tx: signed->Ok_0@ },
            )
        },
        !(resolution is Recorded) ==> {
            &&& final(queue)@ == old(queue)@
            &&& final(store)@ == old(store)@
        },
{
    let front = match queue.peek_front() {
        Some(front) => front,
        None => {
            return Resolution::NothingPending;
        },
    };
    match signed {
        Err(_) => Resolution::AwaitingRevocation,
        Ok(tx) => {
            if store.contains(&front.commitment_txid) {
                Resolution::AlreadyRecorded
            } else {
                store.record(front, tx);
                queue.pop_front();
                Resolution::Recorded
            }
        },
    }
}

/// Builds justice transactions for the outputs at the front of `queue` for as long as `engine`
/// signs them.
///
/// For the output at the front, the engine builds the unsigned transaction, the fee that the
/// signed transaction will owe is taken from its first output, and the engine is asked to sign.
/// If it signs, the transaction is recorded, the output leaves the queue, and the next output
/// is tried. Otherwise building stops and the output stays at the front for the next call.
///
/// The contract speaks of what the engine gave in this call: every record that was added holds
/// what the engine signed for the request made for its output, and the outcome names what the
/// engine gave for the output at which building stopped.
pub fn process<E: CommitmentEngine>(
    queue: &mut PendingQueue,
    store: &mut JusticeStore,
    engine: &E,
) -> (outcome: ProcessOutcome)
    requires
        old(store).wf(),
    ensures
        final(store).wf(),
        builds_justice(
            engine,
            ChannelView { pending: old(queue)@, resolved: old(store)@ },
            ChannelView { pending: final(queue)@, resolved: final(store)@ },
            outcome,
        ),
{
    let ghost before = ChannelView { pending: queue@, resolved: store@ };
    assert(before.pending.skip(0) =~= before.pending);
    loop
        invariant
            store.wf(),
            before == (ChannelView { pending: old(queue)@, resolved: old(store)@ }),
            before.advances_to(ChannelView { pending: queue@, resolved: store@ }),
            forall|i: int|
                before.resolved.len() <= i < store@.len() ==> signed_by(
                    engine,
                    #[trigger] store@[i],
                ),
        decreases queue@.len(),
    {
        let front = match queue.peek_front() {
            Some(front) => front,
            None => {
                return ProcessOutcome::Drained;
            },
        };
        let unsigned = engine.build_unsigned_penalty_tx(
            front.commitment_txid,
            front.output_idx,
            front.value,
        );
        let ghost built = unsigned;
        assert(builds(engine, front, built));
        let request = match signing_request(&front, unsigned) {
            Ok(request) => request,
            Err(FeeError::MissingOutput) => {
                return ProcessOutcome::MissingOutput;
            },
            Err(FeeError::InsufficientValue) => {
                return ProcessOutcome::InsufficientValue;
            },
        };
        let ghost asked = request;
        let signed = engine.sign_penalty_tx(
            request.tx,
            request.input_idx,
            request.value,
            request.commitment_number,
        );
        let ghost answer = signed;
        assert(signs(engine, asked, answer));
        assert(answers(engine, front, answer));
        let ghost now = ChannelView { pending: queue@, resolved: store@ };
        match resolve_front(queue, store, signed) {
            Resolution::Recorded => {
                proof {
                    let next = ChannelView { pending: queue@, resolved: store@ };
                    let resolved_before = before.resolved_until(now);
                    assert(next.pending =~= before.pending.skip(resolved_before + 1));
                    let record = store@[store@.len() - 1];
                    assert(answers(engine, record.output, Ok(answer->Ok_0)));
                    assert(signed_by(engine, record));
                }
            },
            Resolution::AlreadyRecorded => {
                return ProcessOutcome::AlreadyRecorded;
            },
            _ => {
                assert(answer->Err_0 == SigningError);
                return ProcessOutcome::AwaitingRevocation;
            },
        }
    }
}

} // verus!
