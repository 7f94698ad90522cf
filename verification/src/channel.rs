//! The state of one channel as a mathematical value, and how justice building may change it.

use vstd::prelude::*;
use crate::ids::RevokeableOutput;
use crate::store::{JusticeRecordView, distinct_commitments, recorded, swept_outputs};

verus! {

/// The state of one channel: the revokeable outputs that wait for their revocation, oldest
/// first, and the justice transactions recorded so far, in the order of recording.
pub struct ChannelView {
    pub pending: Seq<RevokeableOutput>,
    pub resolved: Seq<JusticeRecordView>,
}

impl ChannelView {
    /// The state of a channel that has just been created.
    pub open spec fn empty() -> ChannelView {
        ChannelView { pending: Seq::empty(), resolved: Seq::empty() }
    }

    /// This state with `outputs` appended to the queue, in their order.
    pub open spec fn with_enqueued(self, outputs: Seq<RevokeableOutput>) -> ChannelView {
        ChannelView { pending: self.pending + outputs, resolved: self.resolved }
    }

    /// Every revokeable output that the channel has seen, resolved or not, in the order in
    /// which it was enqueued.
    pub open spec fn history(self) -> Seq<RevokeableOutput> {
        swept_outputs(self.resolved) + self.pending
    }

    /// How many outputs `after` has waiting less than `self`.
    pub open spec fn resolved_until(self, after: ChannelView) -> int {
        self.pending.len() - after.pending.len()
    }

    /// Whether `after` comes from `self` by resolving outputs from the front of the queue only:
    /// some first outputs of the queue have left it, each has got a record, the records stand
    /// behind the earlier ones in the order that the outputs had in the queue, and nothing else
    /// has changed.
    pub open spec fn advances_to(self, after: ChannelView) -> bool {
        let resolved_now = self.resolved_until(after);
        &&& 0 <= resolved_now
        &&& after.pending == self.pending.skip(resolved_now)
        &&& after.resolved.len() == self.resolved.len() + resolved_now
        &&& forall|i: int| 0 <= i < self.resolved.len() ==> after.resolved[i] == self.resolved[i]
        &&& forall|i: int|
            self.resolved.len() <= i < after.resolved.len() ==> (
            #[trigger] after.resolved[i]).output == self.pending[i - self.resolved.len()]
    }
}

/// Whether the commitment numbers of `outputs` increase strictly from each output to the next.
pub open spec fn commitment_ordered(outputs: Seq<RevokeableOutput>) -> bool {
    forall|i: int, j: int|
        0 <= i < j < outputs.len() ==> (#[trigger] outputs[i]).commitment_number < (
        #[trigger] outputs[j]).commitment_number
}

/// Whether no two of `outputs` belong to one commitment.
pub open spec fn commitments_differ(outputs: Seq<RevokeableOutput>) -> bool {
    forall|i: int, j: int|
        0 <= i < j < outputs.len() ==> (#[trigger] outputs[i]).commitment_txid != (
        #[trigger] outputs[j]).commitment_txid
}

/// Justice building moves outputs from the front of the queue to the end of the records and
/// keeps their order: the history of the channel stays as it was.
pub proof fn lemma_advance_keeps_history(before: ChannelView, after: ChannelView)
    requires
        before.advances_to(after),
    ensures
        after.history() == before.history(),
{
    assert forall|i: int| 0 <= i < after.history().len() implies after.history()[i]
        == before.history()[i] by {}
}

/// Justice building after justice building is justice building: what holds of one call to the
/// next holds from the first call to the last.
pub proof fn lemma_advance_is_transitive(first: ChannelView, second: ChannelView, third: ChannelView)
    requires
        first.advances_to(second),
        second.advances_to(third),
    ensures
        first.advances_to(third),
{
    let early = first.resolved_until(second);
    let late = second.resolved_until(third);
    assert(third.pending =~= first.pending.skip(early + late));
    assert forall|i: int| first.resolved.len() <= i < third.resolved.len() implies (
    #[trigger] third.resolved[i]).output == first.pending[i - first.resolved.len()] by {
        if i < second.resolved.len() {
            assert(third.resolved[i] == second.resolved[i]);
        } else {
            assert(second.pending[i - second.resolved.len()] == first.pending[i
                - first.resolved.len()]);
        }
    }
}

/// Justice transactions are recorded in the order of the queue: an output is resolved only
/// together with every output that stood before it, and its record stands behind theirs.
pub proof fn lemma_resolved_in_queue_order(before: ChannelView, after: ChannelView, i: int, j: int)
    requires
        before.advances_to(after),
        0 <= i < j < before.resolved_until(after),
    ensures
        after.resolved[before.resolved.len() + i].output == before.pending[i],
        after.resolved[before.resolved.len() + j].output == before.pending[j],
{
}

/// Where outputs were enqueued in the order of their commitment numbers, justice transactions
/// are recorded in strictly increasing order of commitment number, before and after justice
/// building, and every output that still waits belongs to a later commitment than every
/// recorded one.
pub proof fn lemma_recorded_in_commitment_order(before: ChannelView, after: ChannelView)
    requires
        before.advances_to(after),
        commitment_ordered(before.history()),
    ensures
        commitment_ordered(after.history()),
        commitment_ordered(swept_outputs(after.resolved)),
        commitment_ordered(after.pending),
        forall|i: int, j: int|
            0 <= i < after.resolved.len() && 0 <= j < after.pending.len() ==> (
            #[trigger] after.resolved[i]).output.commitment_number < (
            #[trigger] after.pending[j]).commitment_number,
{
    lemma_advance_keeps_history(before, after);
    let history = after.history();
    let n = after.resolved.len() as int;
    assert forall|i: int, j: int| 0 <= i < j < n implies (#[trigger] swept_outputs(
        after.resolved,
    )[i]).commitment_number < (#[trigger] swept_outputs(after.resolved)[j]).commitment_number by {
        assert(history[i] == swept_outputs(after.resolved)[i]);
        assert(history[j] == swept_outputs(after.resolved)[j]);
    }
    assert forall|i: int, j: int| 0 <= i < j < after.pending.len() implies (
    #[trigger] after.pending[i]).commitment_number < (
    #[trigger] after.pending[j]).commitment_number by {
        assert(history[n + i] == after.pending[i]);
        assert(history[n + j] == after.pending[j]);
    }
    assert forall|i: int, j: int| 0 <= i < n && 0 <= j < after.pending.len() implies (
    #[trigger] after.resolved[i]).output.commitment_number < (
    #[trigger] after.pending[j]).commitment_number by {
        assert(history[i] == after.resolved[i].output);
        assert(history[n + j] == after.pending[j]);
    }
}

/// An output of a later commitment than all that the channel has seen keeps the history in the
/// order of the commitment numbers when it joins the queue.
pub proof fn lemma_enqueue_keeps_commitment_order(channel: ChannelView, output: RevokeableOutput)
    requires
        commitment_ordered(channel.history()),
        forall|i: int|
            0 <= i < channel.history().len() ==> (#[trigger] channel.history()[i]).commitment_number
                < output.commitment_number,
    ensures
        channel.with_enqueued(seq![output]).history() == channel.history().push(output),
        commitment_ordered(channel.with_enqueued(seq![output]).history()),
{
    let after = channel.with_enqueued(seq![output]).history();
    assert forall|i: int, j: int| 0 <= i < j < after.len() implies (
    #[trigger] after[i]).commitment_number < (#[trigger] after[j]).commitment_number by {
        assert(after[i] == channel.history()[i]);
        if j < channel.history().len() {
            assert(after[j] == channel.history()[j]);
        }
    }
}

/// Where every output that the channel has seen belongs to a commitment of its own, an output
/// that still waits after justice building has no record.
pub proof fn lemma_waiting_output_has_no_record(before: ChannelView, after: ChannelView, j: int)
    requires
        before.advances_to(after),
        commitments_differ(before.history()),
        0 <= j < after.pending.len(),
    ensures
        !recorded(after.resolved, after.pending[j].commitment_txid),
{
    lemma_advance_keeps_history(before, after);
    let history = after.history();
    let n = after.resolved.len() as int;
    assert(history[n + j] == after.pending[j]);
    assert forall|i: int| 0 <= i < n implies (#[trigger] after.resolved[i]).output.commitment_txid
        != after.pending[j].commitment_txid by {
        assert(history[i] == after.resolved[i].output);
    }
}

/// Justice building that resolves nothing changes nothing: where the output at the front cannot
/// be resolved yet, the queue and the records stay exactly as they were.
pub proof fn lemma_halt_changes_nothing(before: ChannelView, after: ChannelView)
    requires
        before.advances_to(after),
        after.pending.len() == before.pending.len(),
    ensures
        after == before,
{
    assert(after.pending =~= before.pending);
    assert(after.resolved =~= before.resolved);
}

/// Each commitment is recorded at most once: where the records hold no commitment twice after
/// justice building, a record that was added belongs to a commitment that had no record before,
/// and to no commitment of another record.
pub proof fn lemma_recorded_at_most_once(before: ChannelView, after: ChannelView, i: int, j: int)
    requires
        before.advances_to(after),
        distinct_commitments(after.resolved),
        before.resolved.len() <= j < after.resolved.len(),
        0 <= i < after.resolved.len(),
        i != j,
    ensures
        after.resolved[i].output.commitment_txid != after.resolved[j].output.commitment_txid,
        !recorded(before.resolved, after.resolved[j].output.commitment_txid),
{
    let added = after.resolved[j].output.commitment_txid;
    assert forall|k: int| 0 <= k < before.resolved.len() implies (
    #[trigger] before.resolved[k]).output.commitment_txid != added by {}
}

} // verus!
