use vstd::prelude::*;
use crate::error::DagError;
use crate::keys::{Digest, Height, PublicKey, Slot, ViewNumber};
use crate::messages::{
    high_qc_view, Certificate, CertificateView, ConsensusMessage, HighQC, HighQCView, MessageView,
    Proposal, TCView, Timeout, TimeoutView, TC,
};

verus! {

/// What the primary asks of the world around it once it has taken an event
/// in: the caller carries the actions out in the order given.
#[derive(Debug, PartialEq, Eq)]
pub enum Action {
    /// Send the replica's own header, the one just handed in, to every other
    /// primary.
    BroadcastHeader { id: Digest, height: Height },
    /// Write the header just handed in to the store, under its id.
    StoreHeader { id: Digest },
    /// Write the certificate to the store.
    StoreCertificate(Certificate),
    /// Hand the replica's own certificate to the proposer, which may then
    /// make the next header.
    DeliverCertificate(Certificate),
    /// Hand a consensus message to the proposer, to go out with a header.
    Propose(ConsensusMessage),
    /// Hand a commit whose proposals are all at hand to the committer.
    Commit(ConsensusMessage),
    /// Start fetching the header that `proposal` points to, and what it
    /// builds on, for the consensus message with the digest `instance`.
    SyncProposal { author: PublicKey, proposal: Proposal, instance: Digest },
    /// Find out which proposals of this commit are at hand, and hand the
    /// commit back with the answer.
    ResolveCommit(ConsensusMessage),
    /// Sign the header's id and the digests listed, and cast the vote: back
    /// to this replica where the header is its own, else to the author.
    CastVote { header: Digest, height: Height, origin: PublicKey, instances: Vec<Digest>, own: bool },
    /// Start a timer that reports `(slot, view)` after `delay` milliseconds.
    ArmTimer { slot: Slot, view: ViewNumber, delay: u64 },
    /// Sign a timeout with this content and hand it back.
    SignTimeout { slot: Slot, view: ViewNumber, high_qc: Option<HighQC> },
    /// Send the replica's own timeout to every other replica.
    BroadcastTimeout(Timeout),
    /// Send the timeout certificate to every other replica.
    BroadcastTC(TC),
    /// Drop what is kept, for sends in flight, of heights below `below`.
    Forget { below: Height },
}

/// The model of `Action` that contracts speak of.
pub enum ActionView {
    BroadcastHeader { id: Digest, height: Height },
    StoreHeader { id: Digest },
    StoreCertificate(CertificateView),
    DeliverCertificate(CertificateView),
    Propose(MessageView),
    Commit(MessageView),
    SyncProposal { author: PublicKey, proposal: Proposal, instance: Digest },
    ResolveCommit(MessageView),
    CastVote { header: Digest, height: Height, origin: PublicKey, instances: Seq<Digest>, own: bool },
    ArmTimer { slot: Slot, view: ViewNumber, delay: u64 },
    SignTimeout { slot: Slot, view: ViewNumber, high_qc: Option<HighQCView> },
    BroadcastTimeout(TimeoutView),
    BroadcastTC(TCView),
    Forget { below: Height },
}

impl View for Action {
    type V = ActionView;

    open spec fn view(&self) -> ActionView {
        match self {
            Action::BroadcastHeader { id, height } => ActionView::BroadcastHeader {
                id: *id,
                height: *height,
            },
            Action::StoreHeader { id } => ActionView::StoreHeader { id: *id },
            Action::StoreCertificate(c) => ActionView::StoreCertificate(c@),
            Action::DeliverCertificate(c) => ActionView::DeliverCertificate(c@),
            Action::Propose(m) => ActionView::Propose(m@),
            Action::Commit(m) => ActionView::Commit(m@),
            Action::SyncProposal { author, proposal, instance } => ActionView::SyncProposal {
                author: *author,
                proposal: *proposal,
                instance: *instance,
            },
            Action::ResolveCommit(m) => ActionView::ResolveCommit(m@),
            Action::CastVote { header, height, origin, instances, own } => ActionView::CastVote {
                header: *header,
                height: *height,
                origin: *origin,
                instances: instances@,
                own: *own,
            },
            Action::ArmTimer { slot, view, delay } => ActionView::ArmTimer {
                slot: *slot,
                view: *view,
                delay: *delay,
            },
            Action::SignTimeout { slot, view, high_qc } => ActionView::SignTimeout {
                slot: *slot,
                view: *view,
                high_qc: high_qc_view(*high_qc),
            },
            Action::BroadcastTimeout(t) => ActionView::BroadcastTimeout(t@),
            Action::BroadcastTC(tc) => ActionView::BroadcastTC(tc@),
            Action::Forget { below } => ActionView::Forget { below: *below },
        }
    }
}

/// The models of a list of actions.
pub open spec fn actions_view(s: Seq<Action>) -> Seq<ActionView> {
    Seq::new(s.len(), |i: int| s[i]@)
}

/// Adds an action to the end of a list.
pub fn emit(actions: &mut Vec<Action>, action: Action)
    ensures
        actions_view(final(actions)@) == actions_view(old(actions)@).push(action@),
{
    actions.push(action);
    assert(actions_view(actions@) =~= actions_view(old(actions)@).push(action@));
}

/// What came of an event: the actions to carry out, and the error, if the
/// event was turned down or gave rise to one.
#[derive(Debug, PartialEq, Eq)]
pub struct Outcome {
    pub actions: Vec<Action>,
    pub error: Option<DagError>,
}

} // verus!
