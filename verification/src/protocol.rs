use vstd::prelude::*;
use crate::actions::ActionView;
use crate::aggregators::{votes_for, QCMakerView, TCMakerView, VotesAggregatorView};
use crate::collections::{as_map, first_at, has_key, upsert};
use crate::committee::leader_in;
use crate::error::DagError;
use crate::events::EventView;
use crate::keys::{Ballot, Digest, Height, PublicKey, Round, Signature, Slot, Stake, ViewNumber};
use crate::messages::{
    CertificateView, EvidenceView, HeaderView, HighQCView, MessageView, Proposal, QCView, TCView,
    TicketView, TimeoutView, VoteView,
};
use crate::validity::{quorum_of, validity_of, votes_verdict};

verus! {

/// What a primary knows: the model on which its steps are defined.
pub struct State {
    /// This replica.
    pub name: PublicKey,
    /// The committee, as listed.
    pub members: Seq<(PublicKey, Stake)>,
    /// How many rounds are kept behind the round of consensus.
    pub gc_depth: Height,
    /// Milliseconds before the timer of a view fires.
    pub timeout_delay: u64,
    /// The round below which everything has been given up.
    pub gc_round: Height,
    /// The headers voted for, by height and author.
    pub last_voted: Set<Ballot>,
    /// The replica's own header that is collecting votes.
    pub current_header: Option<HeaderView>,
    /// The votes for that header.
    pub votes_aggregator: VotesAggregatorView,
    /// The certificate of that header, from when it has formed until it is
    /// processed.
    pub formed: Option<CertificateView>,
    /// How many quorum certificates have formed over consensus messages of
    /// that header.
    pub qcs_formed: u64,
    /// The highest header known of each author.
    pub tips: Map<PublicKey, HeaderView>,
    /// For each author the pointer to its highest header.
    pub current_proposals: Seq<(PublicKey, Proposal)>,
    /// The highest certificate known of each author.
    pub current_certs: Map<PublicKey, CertificateView>,
    /// The view that each slot is in; a slot not listed is in view 1.
    pub views: Map<Slot, ViewNumber>,
    /// The views for which a timer was started on a Prepare.
    pub timers: Set<Round>,
    /// The views in which this replica has voted for a Prepare.
    pub last_voted_consensus: Set<Round>,
    /// Commits that wait for their proposals, oldest first.
    pub commit_messages: Seq<MessageView>,
    /// The latest Confirm seen for each slot.
    pub qcs: Map<Slot, HighQCView>,
    /// The votes over consensus messages, by the message's digest.
    pub qc_makers: Map<Digest, QCMakerView>,
    /// The timeouts gathered, by slot and view.
    pub tc_makers: Map<Round, TCMakerView>,
    /// Tickets that wait for coverage, oldest first.
    pub tickets: Seq<TicketView>,
    /// The slots for which this replica has proposed in view 1.
    pub already_proposed: Set<Slot>,
}

/// Whether `entry`, a proposal of now, lies above what the ticket lists for
/// the same author.
pub open spec fn covers(ticket: Seq<(PublicKey, Proposal)>, entry: (PublicKey, Proposal)) -> bool {
    has_key(ticket, entry.0) && entry.1.height > as_map(ticket)[entry.0].height
}

/// Whether the `i`-th entry of `current` counts towards coverage: it is the
/// first entry of its author, and it lies above what the ticket lists for
/// that author.
pub open spec fn moved_on(
    ticket: Seq<(PublicKey, Proposal)>,
    current: Seq<(PublicKey, Proposal)>,
    i: int,
) -> bool {
    first_at(current, current[i].0) == i && covers(ticket, current[i])
}

/// How many replicas, among the first `n` entries of `current`, have moved
/// on from what the ticket lists; a replica that is listed more than once
/// counts once, by its first entry.
pub open spec fn newer_count(
    ticket: Seq<(PublicKey, Proposal)>,
    current: Seq<(PublicKey, Proposal)>,
    n: int,
) -> nat
    decreases n,
{
    if n <= 0 {
        0
    } else {
        newer_count(ticket, current, n - 1) + if moved_on(ticket, current, n - 1) {
            1nat
        } else {
            0nat
        }
    }
}

/// The coverage rule: of the replicas that the ticket lists, a quorum's
/// number has moved on.
pub open spec fn enough_coverage(
    members: Seq<(PublicKey, Stake)>,
    ticket: Seq<(PublicKey, Proposal)>,
    current: Seq<(PublicKey, Proposal)>,
) -> bool {
    newer_count(ticket, current, current.len() as int) >= quorum_of(members)
}

/// The requests to fetch what the proposals of one consensus message point
/// to.
pub open spec fn sync_actions(proposals: Seq<(PublicKey, Proposal)>, instance: Digest) -> Seq<
    ActionView,
> {
    Seq::new(
        proposals.len(),
        |i: int|
            ActionView::SyncProposal { author: proposals[i].0, proposal: proposals[i].1, instance },
    )
}

/// Of the certificates for `slot` that the first `n` timeouts carry the one
/// of the highest view; of several of that view the first. A certificate for
/// another slot is passed over.
pub open spec fn best_high_qc(timeouts: Seq<TimeoutView>, slot: Slot, n: int) -> Option<HighQCView>
    decreases n,
{
    if n <= 0 {
        None
    } else {
        let before = best_high_qc(timeouts, slot, n - 1);
        match timeouts[n - 1].high_qc {
            Some(h) => if h.slot != slot {
                before
            } else {
                match before {
                    None => Some(h),
                    Some(b) => if h.view > b.view {
                        Some(h)
                    } else {
                        before
                    },
                }
            },
            None => before,
        }
    }
}

/// Whether a commit can go to the committer: every one of its proposals is
/// reported at hand.
pub open spec fn commit_ready(message: MessageView, readiness: Seq<bool>) -> bool {
    &&& message is Commit
    &&& readiness.len() == message.proposals().len()
    &&& forall|i: int| 0 <= i < readiness.len() ==> readiness[i]
}

/// The message that follows `m` once `qc` has formed over it: a Prepare
/// gives a Confirm, to which the leader adds its own header `tip` as a
/// proposal; a Confirm gives a Commit; nothing follows a Commit.
pub open spec fn next_message(m: MessageView, qc: QCView, leader: PublicKey, tip: Proposal) -> Option<
    MessageView,
> {
    match m {
        MessageView::Prepare { slot, view, ticket, proposals } => Some(
            MessageView::Confirm { slot, view, qc, proposals: upsert(proposals, leader, tip) },
        ),
        MessageView::Confirm { slot, view, qc: _, proposals } => Some(
            MessageView::Commit { slot, view, qc, proposals },
        ),
        MessageView::Commit { .. } => None,
    }
}

/// What becomes of a quorum certificate over `digest`: nothing, unless the
/// digest is that of a consensus message of `header`, the header that
/// collects votes; then the message that follows goes to the proposer.
pub open spec fn successor_of(
    header: Option<HeaderView>,
    name: PublicKey,
    digest: Digest,
    qc: QCView,
) -> Option<Seq<ActionView>> {
    match header {
        None => None,
        Some(h) => if !has_key(h.consensus_instances, digest) {
            None
        } else {
            match next_message(
                as_map(h.consensus_instances)[digest],
                qc,
                name,
                Proposal { header_digest: h.id, height: h.height },
            ) {
                Some(m) => Some(seq![ActionView::Propose(m)]),
                None => Some(Seq::empty()),
            }
        },
    }
}

/// One more, as far as the type goes.
pub open spec fn bump(n: u64) -> u64 {
    if n < u64::MAX {
        (n + 1) as u64
    } else {
        n
    }
}

impl State {
    /// The state that a primary starts in: the tips and certificates are
    /// those of genesis, everything else is empty.
    pub open spec fn initial(
        name: PublicKey,
        members: Seq<(PublicKey, Stake)>,
        gc_depth: Height,
        timeout_delay: u64,
    ) -> State {
        State {
            name,
            members,
            gc_depth,
            timeout_delay,
            gc_round: 0,
            last_voted: Set::empty(),
            current_header: None,
            votes_aggregator: VotesAggregatorView::fresh(),
            formed: None,
            qcs_formed: 0,
            tips: Map::new(|pk: PublicKey| has_key(members, pk), |pk: PublicKey| HeaderView::genesis(pk)),
            current_proposals: Seq::empty(),
            current_certs: Map::new(
                |pk: PublicKey| has_key(members, pk),
                |pk: PublicKey| CertificateView::genesis(pk),
            ),
            views: Map::empty(),
            timers: Set::empty(),
            last_voted_consensus: Set::empty(),
            commit_messages: Seq::empty(),
            qcs: Map::empty(),
            qc_makers: Map::empty(),
            tc_makers: Map::empty(),
            tickets: Seq::empty(),
            already_proposed: Set::empty(),
        }
    }

    /// The height of the highest header known of `author`.
    pub open spec fn tip_height(self, author: PublicKey) -> Height {
        if self.tips.contains_key(author) {
            self.tips[author].height
        } else {
            0
        }
    }

    /// The height of the highest certificate known of `author`.
    pub open spec fn cert_height(self, author: PublicKey) -> Height {
        if self.current_certs.contains_key(author) {
            self.current_certs[author].height
        } else {
            0
        }
    }

    /// The height of the header that collects votes; zero where none does.
    pub open spec fn header_height(self) -> Height {
        match self.current_header {
            Some(h) => h.height,
            None => 0,
        }
    }

    /// The view that `slot` is in.
    pub open spec fn current_view(self, slot: Slot) -> ViewNumber {
        if self.views.contains_key(slot) {
            self.views[slot]
        } else {
            1
        }
    }

    /// Whether this replica leads `view` of `slot`.
    pub open spec fn leads(self, slot: Slot, view: ViewNumber) -> bool {
        self.name == leader_in(self.members, slot, view)
    }

    /// Whether a header is admissible, where `digest` is the content address
    /// of what it holds: it is not below the garbage-collection round, its
    /// id is that digest, and author and signature are in order.
    pub open spec fn header_admissible(self, h: HeaderView, digest: Digest) -> Result<(), DagError> {
        if h.height < self.gc_round {
            Err(DagError::HeaderTooOld(h.id, h.height))
        } else {
            h.verdict(digest, self.members)
        }
    }

    /// Whether a vote is admissible: it is for the header that is
    /// collecting votes, and voter and signature are in order.
    pub open spec fn vote_admissible(self, v: VoteView) -> Result<(), DagError> {
        match self.current_header {
            None => Err(DagError::UnexpectedVote(v.id)),
            Some(h) => if v.height < h.height {
                Err(DagError::VoteTooOld(v.id, v.height))
            } else if !votes_for(v, h) {
                Err(DagError::UnexpectedVote(v.id))
            } else {
                v.verdict(self.members)
            },
        }
    }

    /// Whether a certificate is admissible: it is not below the
    /// garbage-collection round, and it verifies.
    pub open spec fn certificate_admissible(self, c: CertificateView) -> Result<(), DagError> {
        if c.height < self.gc_round {
            Err(DagError::CertificateTooOld(c.header_id, c.height))
        } else {
            c.verdict(self.members)
        }
    }

    /// The front ticket becomes a Prepare for the next slot once coverage is
    /// enough, the slot has not been proposed for, and this replica leads it.
    pub open spec fn ticket_step(self) -> (State, Seq<ActionView>) {
        if self.tickets.len() == 0 {
            (self, Seq::empty())
        } else {
            let ticket = self.tickets[0];
            if ticket.slot < u64::MAX && enough_coverage(
                self.members,
                ticket.proposals,
                self.current_proposals,
            ) && !self.already_proposed.contains((ticket.slot + 1) as u64) && self.leads(
                (ticket.slot + 1) as u64,
                1,
            ) {
                let prepare = MessageView::Prepare {
                    slot: (ticket.slot + 1) as u64,
                    view: 1,
                    ticket,
                    proposals: self.current_proposals,
                };
                (
                    State {
                        tickets: self.tickets.drop_first(),
                        already_proposed: self.already_proposed.insert((ticket.slot + 1) as u64),
                        ..self
                    },
                    seq![ActionView::Propose(prepare)],
                )
            } else {
                (self, Seq::empty())
            }
        }
    }

    /// A certificate is stored, goes to the proposer where it is this
    /// replica's own, and, where it is the highest of its origin, may make a
    /// waiting ticket ready.
    pub open spec fn certificate_step(self, c: CertificateView) -> (State, Seq<ActionView>) {
        let first = if c.origin == self.name {
            seq![ActionView::StoreCertificate(c), ActionView::DeliverCertificate(c)]
        } else {
            seq![ActionView::StoreCertificate(c)]
        };
        if c.height > self.cert_height(c.origin) {
            let (next, more) = State {
                current_certs: self.current_certs.insert(c.origin, c),
                ..self
            }.ticket_step();
            (next, first + more)
        } else {
            (self, first)
        }
    }

    /// Whether this replica votes for a consensus message.
    pub open spec fn is_valid(self, m: MessageView) -> bool {
        match m {
            MessageView::Prepare { slot, view, ticket, .. } => {
                &&& !self.last_voted_consensus.contains(Round { slot, view })
                &&& ticket.slot + 1 == slot
                &&& self.current_view(slot) == view
            },
            MessageView::Confirm { slot, view, qc, .. } => {
                &&& qc.verdict(self.members) is Ok
                &&& self.current_view(slot) == view
            },
            MessageView::Commit { slot, view, qc, .. } => {
                &&& qc.verdict(self.members) is Ok
                &&& self.current_view(slot) == view
            },
        }
    }

    /// What a valid Prepare for `slot`, carried by the header `header_id`,
    /// sets off for the next slot: its leader proposes or keeps a ticket, and
    /// the slot's timer is started.
    pub open spec fn prepare_step(
        self,
        header_id: Digest,
        slot: Slot,
        proposals: Seq<(PublicKey, Proposal)>,
    ) -> (State, Seq<ActionView>) {
        if slot == u64::MAX {
            (self, Seq::empty())
        } else {
            let next = (slot + 1) as u64;
            let (s1, a1) = if self.leads(next, 1) && !self.already_proposed.contains(next) {
                let ticket = TicketView { evidence: EvidenceView::Header(header_id), slot, proposals };
                if enough_coverage(self.members, proposals, self.current_proposals) {
                    (
                        State { already_proposed: self.already_proposed.insert(next), ..self },
                        seq![
                            ActionView::Propose(
                                MessageView::Prepare {
                                    slot: next,
                                    view: 1,
                                    ticket,
                                    proposals: self.current_proposals,
                                },
                            ),
                        ],
                    )
                } else {
                    (State { tickets: self.tickets.push(ticket), ..self }, Seq::empty())
                }
            } else {
                (self, Seq::empty())
            };
            if s1.timers.contains(Round { slot: next, view: 1 }) {
                (s1, a1)
            } else {
                (
                    State { timers: s1.timers.insert(Round { slot: next, view: 1 }), ..s1 },
                    a1.push(ActionView::ArmTimer { slot: next, view: 1, delay: self.timeout_delay }),
                )
            }
        }
    }

    /// What one consensus message of a header does, and the digest that
    /// this replica signs for it, if it signs.
    pub open spec fn instance_step(self, header_id: Digest, digest: Digest, m: MessageView) -> (
        State,
        Seq<ActionView>,
        Seq<Digest>,
    ) {
        if !self.is_valid(m) {
            (self, Seq::empty(), Seq::empty())
        } else {
            match m {
                MessageView::Prepare { slot, view, ticket, proposals } => {
                    let (s1, a1) = self.prepare_step(header_id, slot, proposals);
                    (
                        State {
                            last_voted_consensus: s1.last_voted_consensus.insert(
                                Round { slot, view },
                            ),
                            ..s1
                        },
                        sync_actions(proposals, digest) + a1,
                        seq![digest],
                    )
                },
                MessageView::Confirm { slot, view, qc, proposals } => (
                    State {
                        qcs: self.qcs.insert(slot, HighQCView { slot, view, qc, proposals }),
                        ..self
                    },
                    sync_actions(proposals, digest),
                    seq![digest],
                ),
                MessageView::Commit { slot, view, qc, proposals } => (
                    self,
                    sync_actions(proposals, digest).push(ActionView::ResolveCommit(m)),
                    Seq::empty(),
                ),
            }
        }
    }

    /// What the first `n` consensus messages of a header do, one after the
    /// other.
    pub open spec fn instances_step(
        self,
        header_id: Digest,
        instances: Seq<(Digest, MessageView)>,
        n: int,
    ) -> (State, Seq<ActionView>, Seq<Digest>)
        decreases n,
    {
        if n <= 0 {
            (self, Seq::empty(), Seq::empty())
        } else {
            let (s1, a1, d1) = self.instances_step(header_id, instances, n - 1);
            let (s2, a2, d2) = s1.instance_step(header_id, instances[n - 1].0, instances[n - 1].1);
            (s2, a1 + a2, d1 + d2)
        }
    }

    /// Whether a header is taken in: it must be admissible, stand one above
    /// its parent certificate, and the parent certificate must be that of
    /// genesis or carry valid votes of the validity threshold.
    pub open spec fn header_verdict(self, h: HeaderView, digest: Digest) -> Result<(), DagError> {
        match self.header_admissible(h, digest) {
            Err(e) => Err(e),
            Ok(_) => if !(h.height > 0 && h.parent_cert.height == h.height - 1) {
                Err(DagError::MalformedHeader(h.id))
            } else if !(h.parent_cert.height == 0 || votes_verdict(
                self.members,
                h.parent_cert.votes,
                h.parent_cert.header_id,
                validity_of(self.members),
            ) is Ok) {
                Err(DagError::HeaderRequiresQuorum(h.id))
            } else {
                Ok(())
            },
        }
    }

    /// A header above its author's tip becomes the tip, and the author's
    /// proposal points to it.
    pub open spec fn tip_step(self, h: HeaderView) -> State {
        if h.height > self.tip_height(h.author) {
            State {
                tips: self.tips.insert(h.author, h),
                current_proposals: upsert(
                    self.current_proposals,
                    h.author,
                    Proposal { header_digest: h.id, height: h.height },
                ),
                ..self
            }
        } else {
            self
        }
    }

    /// A header is voted for unless a header of its author at its height was
    /// voted for before: its consensus messages are acted on, and the vote
    /// covers the header and the messages found valid.
    pub open spec fn voting_step(self, h: HeaderView) -> (State, Seq<ActionView>) {
        let ballot = Ballot { height: h.height, author: h.author };
        if self.last_voted.contains(ballot) {
            (self, Seq::empty())
        } else {
            let (s1, a1, signed) = State {
                last_voted: self.last_voted.insert(ballot),
                ..self
            }.instances_step(h.id, h.consensus_instances, h.consensus_instances.len() as int);
            (
                s1,
                a1.push(
                    ActionView::CastVote {
                        header: h.id,
                        height: h.height,
                        origin: h.author,
                        instances: signed,
                        own: h.author == self.name,
                    },
                ),
            )
        }
    }

    /// What a header does that is taken in and has all it depends on: it is
    /// stored, may become its author's tip, has its parent certificate
    /// processed, and is voted for.
    pub open spec fn accept_step(self, h: HeaderView) -> (State, Seq<ActionView>) {
        let s1 = self.tip_step(h);
        let (s2, a2) = s1.certificate_step(h.parent_cert);
        let (s3, a3) = s2.voting_step(h);
        (s3, seq![ActionView::StoreHeader { id: h.id }] + a2 + a3)
    }

    /// What a header does. It is turned down where it is not taken in; it
    /// waits, and nothing happens, where something it depends on is missing.
    pub open spec fn header_step(
        self,
        h: HeaderView,
        digest: Digest,
        payload_missing: bool,
        parent_missing: bool,
    ) -> (
        State,
        Seq<ActionView>,
        Option<DagError>,
    ) {
        match self.header_verdict(h, digest) {
            Err(e) => (self, Seq::empty(), Some(e)),
            Ok(_) => if payload_missing || parent_missing {
                (self, Seq::empty(), None)
            } else {
                let (s1, a1) = self.accept_step(h);
                (s1, a1, None)
            },
        }
    }

    /// What a header of this replica's own does: it becomes the header that
    /// collects votes, is sent to the others, and is then processed as any
    /// header is.
    pub open spec fn own_header_step(
        self,
        h: HeaderView,
        digest: Digest,
        payload_missing: bool,
        parent_missing: bool,
    ) -> (State, Seq<ActionView>, Option<DagError>) {
        let (s1, a1, e1) = State {
            current_header: Some(h),
            votes_aggregator: VotesAggregatorView::fresh(),
            formed: None,
            qcs_formed: 0,
            ..self
        }.header_step(h, digest, payload_missing, parent_missing);
        (s1, seq![ActionView::BroadcastHeader { id: h.id, height: h.height }] + a1, e1)
    }

    /// What becomes of a quorum certificate over `digest`.
    pub open spec fn successor(self, digest: Digest, qc: QCView) -> Option<Seq<ActionView>> {
        successor_of(self.current_header, self.name, digest, qc)
    }

    /// What a voter's signature over the digest of a consensus message does:
    /// it joins the votes over that digest, and where they become a quorum
    /// and the message is one of the header that collects votes, the next
    /// message of the slot goes to the proposer.
    pub open spec fn share_step(self, voter: PublicKey, digest: Digest, signature: Signature) -> (
        State,
        Seq<ActionView>,
        Option<DagError>,
    ) {
        let maker = if self.qc_makers.contains_key(digest) {
            self.qc_makers[digest]
        } else {
            QCMakerView::fresh(digest, self.header_height())
        };
        let (maker2, out) = maker.append(self.members, voter, signature);
        let s1 = State { qc_makers: self.qc_makers.insert(digest, maker2), ..self };
        match out {
            Err(e) => (self, Seq::empty(), Some(e)),
            Ok(None) => (s1, Seq::empty(), None),
            Ok(Some(qc)) => match self.successor(digest, qc) {
                None => (s1, Seq::empty(), None),
                Some(a) => (State { qcs_formed: bump(s1.qcs_formed), ..s1 }, a, None),
            },
        }
    }

    /// What the first `n` of a vote's signatures over consensus messages do;
    /// the first error ends the run.
    pub open spec fn shares_step(self, voter: PublicKey, sigs: Seq<(Digest, Signature)>, n: int) -> (
        State,
        Seq<ActionView>,
        Option<DagError>,
    )
        decreases n,
    {
        if n <= 0 {
            (self, Seq::empty(), None)
        } else {
            let (s1, a1, e1) = self.shares_step(voter, sigs, n - 1);
            if e1 is Some {
                (s1, a1, e1)
            } else {
                let (s2, a2, e2) = s1.share_step(voter, sigs[n - 1].0, sigs[n - 1].1);
                (s2, a1 + a2, e2)
            }
        }
    }

    /// The certificate of the header that collects votes is processed as
    /// soon as it has formed and, where the header carries consensus
    /// messages, a quorum certificate has formed over each; until then a
    /// certificate that has formed is kept.
    pub open spec fn release_step(self, newly: Option<CertificateView>, h: HeaderView) -> (
        State,
        Seq<ActionView>,
    ) {
        let formed = if newly is Some {
            newly
        } else {
            self.formed
        };
        if formed is Some && (h.consensus_instances.len() == 0 || self.qcs_formed
            == h.consensus_instances.len()) {
            State { formed: None, qcs_formed: 0, ..self }.certificate_step(formed->0)
        } else {
            (State { formed, ..self }, Seq::empty())
        }
    }

    /// What a vote for the header `h` does to the votes gathered for it.
    pub open spec fn tally_step(self, v: VoteView, h: HeaderView) -> (
        State,
        Seq<ActionView>,
        Option<DagError>,
    ) {
        let (aggregator, out) = self.votes_aggregator.append(self.members, v, h);
        let s1 = State { votes_aggregator: aggregator, ..self };
        match out {
            Err(e) => (s1, Seq::empty(), Some(e)),
            Ok(newly) => {
                let (s2, a2) = s1.release_step(newly, h);
                (s2, a2, None)
            },
        }
    }

    /// What a vote does: its signatures over consensus messages are taken
    /// in, then the vote itself. Where any of them gives an error, the vote
    /// does nothing at all.
    pub open spec fn vote_step(self, v: VoteView) -> (State, Seq<ActionView>, Option<DagError>) {
        match self.current_header {
            None => (self, Seq::empty(), Some(DagError::UnexpectedVote(v.id))),
            Some(h) => {
                let (s1, a1, e1) = self.shares_step(
                    v.author,
                    v.consensus_sigs,
                    v.consensus_sigs.len() as int,
                );
                if e1 is Some {
                    (self, Seq::empty(), e1)
                } else {
                    let (s2, a2, e2) = s1.tally_step(v, h);
                    if e2 is Some {
                        (self, Seq::empty(), e2)
                    } else {
                        (s2, a1 + a2, None)
                    }
                }
            },
        }
    }

    /// What the leader of the view after a timeout certificate does: it
    /// proposes for the new view what the highest certificate for the slot
    /// among the timeouts proposed, or, where none of them carries a
    /// certificate for the slot, its own tips; and the certificate is its
    /// ticket for the next slot.
    pub open spec fn leader_step(self, tc: TCView) -> (State, Seq<ActionView>) {
        let best = best_high_qc(tc.timeouts, tc.slot, tc.timeouts.len() as int);
        let winning = match best {
            Some(h) => h.proposals,
            None => Seq::empty(),
        };
        let proposals = match best {
            Some(h) => h.proposals,
            None => self.current_proposals,
        };
        let ticket = TicketView {
            evidence: EvidenceView::Timeouts(tc),
            slot: tc.slot,
            proposals: winning,
        };
        let first = ActionView::Propose(
            MessageView::Prepare { slot: tc.slot, view: (tc.view + 1) as u64, ticket, proposals },
        );
        if tc.slot < u64::MAX && !self.already_proposed.contains((tc.slot + 1) as u64)
            && enough_coverage(self.members, winning, proposals) {
            (
                State {
                    already_proposed: self.already_proposed.insert((tc.slot + 1) as u64),
                    ..self
                },
                seq![
                    first,
                    ActionView::Propose(
                        MessageView::Prepare {
                            slot: (tc.slot + 1) as u64,
                            view: 1,
                            ticket,
                            proposals,
                        },
                    ),
                ],
            )
        } else {
            (State { tickets: self.tickets.push(ticket), ..self }, seq![first])
        }
    }

    /// What a timeout certificate does that has formed here: the slot enters
    /// the next view, whose timer is started; the certificate is sent to the
    /// others; and the leader of the new view acts on it.
    pub open spec fn advance_step(self, tc: TCView) -> (State, Seq<ActionView>) {
        if tc.view == u64::MAX {
            (self, Seq::empty())
        } else {
            let s1 = State { views: self.views.insert(tc.slot, (tc.view + 1) as u64), ..self };
            let a1 = seq![
                ActionView::ArmTimer {
                    slot: tc.slot,
                    view: (tc.view + 1) as u64,
                    delay: self.timeout_delay,
                },
                ActionView::BroadcastTC(tc),
            ];
            if s1.leads(tc.slot, (tc.view + 1) as u64) {
                let (s2, a2) = s1.leader_step(tc);
                (s2, a1 + a2)
            } else {
                (s1, a1)
            }
        }
    }

    /// What a timeout does: one for a view that the slot has left is
    /// ignored; another is verified and joins the timeouts of its view, and
    /// where they become a quorum the slot enters the next view.
    pub open spec fn timeout_step(self, t: TimeoutView, digest: Digest) -> (
        State,
        Seq<ActionView>,
        Option<DagError>,
    ) {
        if t.view < self.current_view(t.slot) {
            (self, Seq::empty(), None)
        } else {
            match t.verdict(digest, self.members) {
                Err(e) => (self, Seq::empty(), Some(e)),
                Ok(_) => {
                    let round = Round { slot: t.slot, view: t.view };
                    let maker = if self.tc_makers.contains_key(round) {
                        self.tc_makers[round]
                    } else {
                        TCMakerView::fresh(round)
                    };
                    let (maker2, out) = maker.append(self.members, t);
                    let s1 = State { tc_makers: self.tc_makers.insert(round, maker2), ..self };
                    match out {
                        Err(e) => (self, Seq::empty(), Some(e)),
                        Ok(None) => (s1, Seq::empty(), None),
                        Ok(Some(tc)) => {
                            let (s2, a2) = s1.advance_step(tc);
                            (s2, a2, None)
                        },
                    }
                },
            }
        }
    }

    /// What this replica's own timeout does: it is sent to the others and
    /// then taken in as any timeout is.
    pub open spec fn own_timeout_step(self, t: TimeoutView, digest: Digest) -> (
        State,
        Seq<ActionView>,
        Option<DagError>,
    ) {
        let (s1, a1, e1) = self.timeout_step(t, digest);
        (s1, seq![ActionView::BroadcastTimeout(t)] + a1, e1)
    }

    /// What a timeout certificate from a peer does: the leader of the next
    /// view acts on it; the view itself is not advanced.
    pub open spec fn tc_step(self, tc: TCView) -> (State, Seq<ActionView>) {
        if tc.view < u64::MAX && self.leads(tc.slot, (tc.view + 1) as u64) {
            self.leader_step(tc)
        } else {
            (self, Seq::empty())
        }
    }

    /// What a timer does that has run out: a timeout is to be signed, with
    /// the latest Confirm seen for the slot. A timer of a view that the slot
    /// has left is passed over.
    pub open spec fn timer_step(self, slot: Slot, view: ViewNumber) -> Seq<ActionView> {
        if view < self.current_view(slot) {
            Seq::empty()
        } else {
            seq![
                ActionView::SignTimeout {
                    slot,
                    view,
                    high_qc: if self.qcs.contains_key(slot) {
                        Some(self.qcs[slot])
                    } else {
                        None
                    },
                },
            ]
        }
    }

    /// What a commit does whose proposals have been looked up: it goes to
    /// the committer, or waits.
    pub open spec fn commit_step(self, m: MessageView, readiness: Seq<bool>) -> (
        State,
        Seq<ActionView>,
    ) {
        if !(m is Commit) {
            (self, Seq::empty())
        } else if commit_ready(m, readiness) {
            (self, seq![ActionView::Commit(m)])
        } else {
            (State { commit_messages: self.commit_messages.push(m), ..self }, Seq::empty())
        }
    }

    /// What a loopback does: the commit that waits in front goes to the
    /// committer once its proposals are at hand.
    pub open spec fn loopback_step(self, readiness: Seq<bool>) -> (State, Seq<ActionView>) {
        if self.commit_messages.len() > 0 && commit_ready(self.commit_messages[0], readiness) {
            (
                State { commit_messages: self.commit_messages.drop_first(), ..self },
                seq![ActionView::Commit(self.commit_messages[0])],
            )
        } else {
            (self, Seq::empty())
        }
    }

    /// What the round of consensus does to what is kept: once it exceeds the
    /// depth, everything below `round - gc_depth` goes. Votes for headers go
    /// by the height of the header; the votes over a consensus message by
    /// the height of the header whose votes started them; and what is kept
    /// by slot goes by the slot, which counts as a round.
    pub open spec fn gc_step(self, round: Height) -> (State, Seq<ActionView>) {
        if round > self.gc_depth {
            let gc_round = (round - self.gc_depth) as u64;
            (
                State {
                    gc_round,
                    last_voted: self.last_voted.filter(|b: Ballot| b.height >= gc_round),
                    qc_makers: self.qc_makers.remove_keys(
                        Set::new(
                            |d: Digest|
                                self.qc_makers.contains_key(d) && self.qc_makers[d].round
                                    < gc_round,
                        ),
                    ),
                    tc_makers: self.tc_makers.remove_keys(Set::new(|r: Round| r.slot < gc_round)),
                    timers: self.timers.filter(|r: Round| r.slot >= gc_round),
                    already_proposed: self.already_proposed.filter(|s: Slot| s >= gc_round),
                    ..self
                },
                seq![ActionView::Forget { below: gc_round }],
            )
        } else {
            (self, Seq::empty())
        }
    }

    /// What an event does.
    pub open spec fn event_step(self, e: EventView) -> (State, Seq<ActionView>, Option<DagError>) {
        match e {
            EventView::Header { header, digest, payload_missing, parent_missing } => self.header_step(
                header,
                digest,
                payload_missing,
                parent_missing,
            ),
            EventView::OwnHeader {
                header,
                digest,
                payload_missing,
                parent_missing,
            } => self.own_header_step(
                header,
                digest,
                payload_missing,
                parent_missing,
            ),
            EventView::Vote(v) => match self.vote_admissible(v) {
                Err(e) => (self, Seq::empty(), Some(e)),
                Ok(_) => self.vote_step(v),
            },
            EventView::OwnVote(v) => self.vote_step(v),
            EventView::Certificate(c) => match self.certificate_admissible(c) {
                Err(e) => (self, Seq::empty(), Some(e)),
                Ok(_) => {
                    let (s, a) = self.certificate_step(c);
                    (s, a, None)
                },
            },
            EventView::Timeout { timeout, digest } => self.timeout_step(timeout, digest),
            EventView::OwnTimeout { timeout, digest } => self.own_timeout_step(timeout, digest),
            EventView::TimeoutCertificate(tc) => {
                let (s, a) = self.tc_step(tc);
                (s, a, None)
            },
            EventView::Timer { slot, view } => (self, self.timer_step(slot, view), None),
            EventView::Loopback { readiness } => {
                let (s, a) = self.loopback_step(readiness);
                (s, a, None)
            },
            EventView::CommitResolved { message, readiness } => {
                let (s, a) = self.commit_step(message, readiness);
                (s, a, None)
            },
        }
    }
}

} // verus!
