//! The watchtower: the state of every channel, driven by the two events of a channel's life.

use vstd::prelude::*;
use crate::builder::{ProcessOutcome, builds_justice, extracts, process};
use crate::channel::ChannelView;
use crate::engine::CommitmentEngine;
use crate::ids::{FundingRef, RevokeableOutput, Txid};
use crate::queue::PendingQueue;
use crate::store::{
    JusticeRecordView, JusticeStore, distinct_commitments, justice_of, recorded, swept_outputs,
};
use crate::transaction::PenaltyTx;

verus! {

/// The state of one channel.
struct Channel {
    funding: FundingRef,
    pending: PendingQueue,
    justice: JusticeStore,
}

impl View for Channel {
    type V = ChannelView;

    closed spec fn view(&self) -> ChannelView {
        ChannelView { pending: self.pending@, resolved: self.justice@ }
    }
}

/// The channels that the watchtower watches, each with its queue of revokeable outputs and its
/// justice transactions.
pub struct Watchtower {
    channels: Vec<Channel>,
}

impl View for Watchtower {
    type V = Map<FundingRef, ChannelView>;

    closed spec fn view(&self) -> Map<FundingRef, ChannelView> {
        Map::new(
            |funding: FundingRef| self.holds(funding),
            |funding: FundingRef| self.channels[self.index_of(funding)]@,
        )
    }
}

impl Watchtower {
    spec fn holds(&self, funding: FundingRef) -> bool {
        exists|i: int|
            0 <= i < self.channels.len() && (#[trigger] self.channels[i]).funding == funding
    }

    spec fn index_of(&self, funding: FundingRef) -> int {
        choose|i: int|
            0 <= i < self.channels.len() && (#[trigger] self.channels[i]).funding == funding
    }

    /// Whether every channel stands once and no commitment of a channel has two justice
    /// transactions.
    pub closed spec fn wf(&self) -> bool {
        &&& forall|i: int, j: int|
            0 <= i < j < self.channels.len() ==> (#[trigger] self.channels[i]).funding != (
            #[trigger] self.channels[j]).funding
        &&& forall|i: int|
            0 <= i < self.channels.len() ==> (#[trigger] self.channels[i]).justice.wf()
    }

    /// In a well-formed watchtower the records of a channel hold no commitment twice.
    pub proof fn lemma_wf_distinct_commitments(&self, funding: FundingRef)
        requires
            self.wf(),
            self@.contains_key(funding),
        ensures
            distinct_commitments(self@[funding].resolved),
    {
        let i = self.index_of(funding);
    }

    proof fn lemma_channel_at(&self, i: int)
        requires
            self.wf(),
            0 <= i < self.channels.len(),
        ensures
            self@.contains_key(self.channels[i].funding),
            self.index_of(self.channels[i].funding) == i,
            self@[self.channels[i].funding] == self.channels[i]@,
    {
        let j = self.index_of(self.channels[i].funding);
        assert(self.channels[j].funding == self.channels[i].funding);
        assert(i == j);
    }

    /// A change to the channel at `i` that keeps its funding reference changes the value at that
    /// reference and nothing else.
    proof fn lemma_channel_replaced(&self, before: &Watchtower, i: int)
        requires
            before.wf(),
            0 <= i < before.channels.len(),
            self.channels.len() == before.channels.len(),
            self.channels[i].funding == before.channels[i].funding,
            self.channels[i].justice.wf(),
            forall|j: int|
                0 <= j < before.channels.len() && j != i ==> self.channels[j]
                    == before.channels[j],
        ensures
            self.wf(),
            self@ == before@.insert(before.channels[i].funding, self.channels[i]@),
    {
        assert forall|j: int| 0 <= j < self.channels.len() implies (
        #[trigger] self.channels[j]).funding == before.channels[j].funding by {}
        assert(self.wf());
        let expected = before@.insert(before.channels[i].funding, self.channels[i]@);
        assert forall|funding: FundingRef| self@.contains_key(funding) implies expected.contains_key(
            funding,
        ) && self@[funding] == expected[funding] by {
            let j = self.index_of(funding);
            self.lemma_channel_at(j);
            before.lemma_channel_at(j);
        }
        assert forall|funding: FundingRef| expected.contains_key(funding) implies self@.contains_key(
            funding,
        ) by {
            if funding == before.channels[i].funding {
                self.lemma_channel_at(i);
            } else {
                let j = before.index_of(funding);
                self.lemma_channel_at(j);
            }
        }
        assert(self@ =~= expected);
    }

    /// A watchtower that watches no channel.
    pub fn new() -> (tower: Self)
        ensures
            tower.wf(),
            tower@ == Map::<FundingRef, ChannelView>::empty(),
    {
        let tower = Watchtower { channels: Vec::new() };
        tower
    }

    fn find(&self, funding: &FundingRef) -> (found: Option<usize>)
        requires
            self.wf(),
        ensures
            match found {
                Some(i) => {
                    &&& i < self.channels.len()
                    &&& self.channels[i as int].funding == *funding
                    &&& self@.contains_key(*funding)
                    &&& self@[*funding] == self.channels[i as int]@
                },
                None => !self@.contains_key(*funding),
            },
    {
        let mut i: usize = 0;
        while i < self.channels.len()
            invariant
                self.wf(),
                i <= self.channels.len(),
                forall|j: int| 0 <= j < i ==> (#[trigger] self.channels[j]).funding != *funding,
            decreases self.channels.len() - i,
        {
            if self.channels[i].funding.equals(funding) {
                proof {
                    self.lemma_channel_at(i as int);
                }
                return Some(i);
            }
            i += 1;
        }
        None
    }

    /// Whether the channel `funding` is watched.
    pub fn has_channel(&self, funding: &FundingRef) -> (watched: bool)
        requires
            self.wf(),
        ensures
            watched == self@.contains_key(*funding),
    {
        self.find(funding).is_some()
    }

    /// Starts to watch the channel `funding`, with nothing pending and nothing recorded.
    ///
    /// A channel is created once: to create it again is a fault of the host.
    pub fn on_channel_created(&mut self, funding: FundingRef)
        requires
            old(self).wf(),
            !old(self)@.contains_key(funding),
        ensures
            final(self).wf(),
            final(self)@ == old(self)@.insert(funding, ChannelView::empty()),
    {
        let channel = Channel {
            funding,
            pending: PendingQueue::new(),
            justice: JusticeStore::new(),
        };
        self.channels.push(channel);
        proof {
            let n = old(self).channels.len() as int;
            assert forall|i: int| 0 <= i < n implies (#[trigger] self.channels[i]).funding
                != funding by {
                assert(old(self).holds(old(self).channels[i].funding));
            }
            assert(self.wf());
            let expected = old(self)@.insert(funding, ChannelView::empty());
            assert forall|other: FundingRef| self@.contains_key(other) implies expected.contains_key(
                other,
            ) && self@[other] == expected[other] by {
                let j = self.index_of(other);
                self.lemma_channel_at(j);
                if j < n {
                    old(self).lemma_channel_at(j);
                }
            }
            assert forall|other: FundingRef| expected.contains_key(other) implies self@.contains_key(
                other,
            ) by {
                if other == funding {
                    self.lemma_channel_at(n);
                } else {
                    let j = old(self).index_of(other);
                    self.lemma_channel_at(j);
                }
            }
            assert(self@ =~= expected);
        }
    }

    /// Appends `output` to the queue of the channel `funding`.
    pub fn enqueue(&mut self, funding: &FundingRef, output: RevokeableOutput)
        requires
            old(self).wf(),
            old(self)@.contains_key(*funding),
        ensures
            final(self).wf(),
            final(self)@ == old(self)@.insert(
                *funding,
                ChannelView {
                    pending: old(self)@[*funding].pending.push(output),
                    resolved: old(self)@[*funding].resolved,
                },
            ),
    {
        let found = self.find(funding);
        let i = found.unwrap();
        self.channels[i].pending.enqueue(output);
        proof {
            self.lemma_channel_replaced(old(self), i as int);
        }
    }

    /// Appends `outputs` to the queue of the channel `funding`, in their order.
    pub fn enqueue_all(&mut self, funding: &FundingRef, outputs: &Vec<RevokeableOutput>)
        requires
            old(self).wf(),
            old(self)@.contains_key(*funding),
        ensures
            final(self).wf(),
            final(self)@ == old(self)@.insert(
                *funding,
                old(self)@[*funding].with_enqueued(outputs@),
            ),
    {
        let found = self.find(funding);
        let i = found.unwrap();
        self.channels[i].pending.extend(outputs);
        proof {
            self.lemma_channel_replaced(old(self), i as int);
        }
    }

    /// The output at the front of the queue of the channel `funding`, if the channel is watched
    /// and its queue is not empty.
    pub fn peek_front(&self, funding: &FundingRef) -> (front: Option<RevokeableOutput>)
        requires
            self.wf(),
        ensures
            front == (if self@.contains_key(*funding) && self@[*funding].pending.len() > 0 {
                Some(self@[*funding].pending[0])
            } else {
                None
            }),
    {
        match self.find(funding) {
            Some(i) => self.channels[i].pending.peek_front(),
            None => None,
        }
    }

    /// The number of outputs that wait in the queue of the channel `funding`; zero if the
    /// channel is not watched.
    pub fn pending_len(&self, funding: &FundingRef) -> (len: usize)
        requires
            self.wf(),
        ensures
            len == (if self@.contains_key(*funding) {
                self@[*funding].pending.len()
            } else {
                0
            }),
    {
        match self.find(funding) {
            Some(i) => self.channels[i].pending.len(),
            None => 0,
        }
    }

    /// The number of justice transactions of the channel `funding`; zero if the channel is not
    /// watched.
    pub fn justice_len(&self, funding: &FundingRef) -> (len: usize)
        requires
            self.wf(),
        ensures
            len == (if self@.contains_key(*funding) {
                self@[*funding].resolved.len()
            } else {
                0
            }),
    {
        match self.find(funding) {
            Some(i) => self.channels[i].justice.len(),
            None => 0,
        }
    }

    /// The revoked outputs of the channel `funding` that have a justice transaction, in the
    /// order in which they were recorded; none if the channel is not watched.
    pub fn resolved_outputs(&self, funding: &FundingRef) -> (outputs: Vec<RevokeableOutput>)
        requires
            self.wf(),
        ensures
            outputs@ == (if self@.contains_key(*funding) {
                swept_outputs(self@[*funding].resolved)
            } else {
                Seq::empty()
            }),
    {
        match self.find(funding) {
            Some(i) => self.channels[i].justice.outputs(),
            None => Vec::new(),
        }
    }

    /// Records `tx` as the justice transaction that sweeps `output` of the channel `funding`.
    ///
    /// A commitment is recorded once: a second record for it is a fault of the host.
    pub fn record(&mut self, funding: &FundingRef, output: RevokeableOutput, tx: PenaltyTx)
        requires
            old(self).wf(),
            old(self)@.contains_key(*funding),
            !recorded(old(self)@[*funding].resolved, output.commitment_txid),
        ensures
            final(self).wf(),
            final(self)@ == old(self)@.insert(
                *funding,
                ChannelView {
                    pending: old(self)@[*funding].pending,
                    resolved: old(self)@[*funding].resolved.push(
                        JusticeRecordView { output, tx: tx@ },
                    ),
                },
            ),
    {
        let found = self.find(funding);
        let i = found.unwrap();
        self.channels[i].justice.record(output, tx);
        proof {
            self.lemma_channel_replaced(old(self), i as int);
        }
    }

    /// Whether the commitment `commitment_txid` of the channel `funding` has a justice
    /// transaction.
    pub fn has_justice_tx(&self, funding: &FundingRef, commitment_txid: &Txid) -> (found: bool)
        requires
            self.wf(),
        ensures
            found == (self@.contains_key(*funding) && recorded(
                self@[*funding].resolved,
                *commitment_txid,
            )),
    {
        match self.find(funding) {
            Some(i) => self.channels[i].justice.contains(commitment_txid),
            None => false,
        }
    }

    /// The justice transaction of the commitment `commitment_txid` of the channel `funding`.
    ///
    /// There is none while the commitment is not revoked, and none for a commitment or a channel
    /// that the watchtower has never seen.
    pub fn justice_tx(&self, funding: &FundingRef, commitment_txid: &Txid) -> (found: Option<
        PenaltyTx,
    >)
        requires
            self.wf(),
        ensures
            match found {
                Some(tx) => {
                    &&& self@.contains_key(*funding)
                    &&& recorded(self@[*funding].resolved, *commitment_txid)
                    &&& tx@ == justice_of(self@[*funding].resolved, *commitment_txid)
                },
                None => !(self@.contains_key(*funding) && recorded(
                    self@[*funding].resolved,
                    *commitment_txid,
                )),
            },
    {
        match self.find(funding) {
            Some(i) => {
                self.channels[i].justice.lookup(commitment_txid)
            },
            None => None,
        }
    }

    /// Builds justice transactions for the outputs at the front of the queue of the channel
    /// `funding`, for as long as `engine` signs them.
    ///
    /// Outputs are resolved from the front only and in their order, each with the transaction
    /// that `engine` signed for it; the first that cannot be resolved stays at the front, and
    /// building stops there. Other channels are not touched.
    pub fn process<E: CommitmentEngine>(&mut self, funding: &FundingRef, engine: &E) -> (outcome:
        ProcessOutcome)
        requires
            old(self).wf(),
            old(self)@.contains_key(*funding),
        ensures
            final(self).wf(),
            final(self)@ == old(self)@.insert(*funding, final(self)@[*funding]),
            builds_justice(engine, old(self)@[*funding], final(self)@[*funding], outcome),
    {
        let found = self.find(funding);
        let i = found.unwrap();
        let channel = &mut self.channels[i];
        let outcome = process(&mut channel.pending, &mut channel.justice, engine);
        proof {
            self.lemma_channel_replaced(old(self), i as int);
        }
        outcome
    }

    /// Takes in a state update of the channel `funding`.
    ///
    /// Without an update nothing happens. With one, the revokeable outputs that `engine` finds
    /// in it join the queue of the channel, and justice transactions are built from the front of
    /// the queue for as long as `engine` signs them. The outcome says why building stopped. The
    /// host stores the update whatever the outcome is.
    pub fn on_channel_updated<E: CommitmentEngine>(
        &mut self,
        funding: &FundingRef,
        update: Option<&E::Update>,
        engine: &E,
    ) -> (outcome: Option<ProcessOutcome>)
        requires
            old(self).wf(),
            update is Some ==> old(self)@.contains_key(*funding),
        ensures
            final(self).wf(),
            update is None ==> outcome is None && final(self)@ == old(self)@,
            update is Some ==> {
                &&& outcome is Some
                &&& final(self)@ == old(self)@.insert(*funding, final(self)@[*funding])
                &&& exists|extracted: Vec<RevokeableOutput>|
                    #[trigger] extracts(engine, update->Some_0, extracted) && builds_justice(
                        engine,
                        old(self)@[*funding].with_enqueued(extracted@),
                        final(self)@[*funding],
                        outcome->Some_0,
                    )
            },
    {
        match update {
            None => None,
            Some(update) => {
                let extracted = engine.extract_new_revokeable_outputs(update);
                assert(extracts(engine, update, extracted));
                self.enqueue_all(funding, &extracted);
                let outcome = self.process(funding, engine);
                Some(outcome)
            },
        }
    }
}

} // verus!
