use std::collections::VecDeque;
use vstd::prelude::*;
use crate::actions::{actions_view, emit, Action, ActionView, Outcome};
use crate::aggregators::{QCMaker, TCMaker, VotesAggregator, VotesAggregatorView};
use crate::collections::{
    as_map, each_view, find_key, first_at, has_key, lemma_as_map_at, lemma_first_at,
    lemma_has_key_take, lemma_marked_all, lemma_marked_next, marked, opt_view, upsert_entry,
    views_of, KeyMap, KeySet,
};
use crate::committee::Committee;
use crate::error::DagError;
use crate::keys::{
    Ballot, Digest, Height, PublicKey, Round, Signature, Slot, Stake, ViewNumber,
};
use crate::messages::{
    copy_list, instances_view, timeouts_view, Certificate, CertificateView, ConsensusMessage,
    Evidence, Header, HeaderView, HighQC, HighQCView, Proposal, Proposals, Ticket, Timeout, Vote,
    QC, TC,
};
use crate::events::{Event, EventView};
use crate::standing::{
    all_vouched, law_standing, law_start_in_good_standing, law_timeout_vouched, law_vote_vouched,
};
use crate::protocol::{
    best_high_qc, commit_ready, covers, enough_coverage, newer_count, next_message, successor_of,
    sync_actions, State,
};
use crate::validity::check_votes;

verus! {

/// The state machine of a primary: it takes events in and says what is to
/// be done about them.
pub struct Core {
    name: PublicKey,
    committee: Committee,
    gc_depth: Height,
    timeout_delay: u64,
    gc_round: Height,
    last_voted: KeySet<Ballot>,
    current_header: Option<Header>,
    votes_aggregator: VotesAggregator,
    formed: Option<Certificate>,
    qcs_formed: u64,
    tips: KeyMap<PublicKey, Header>,
    current_proposals: KeyMap<PublicKey, Proposal>,
    current_certs: KeyMap<PublicKey, Certificate>,
    views: KeyMap<Slot, ViewNumber>,
    timers: KeySet<Round>,
    last_voted_consensus: KeySet<Round>,
    commit_messages: VecDeque<ConsensusMessage>,
    qcs: KeyMap<Slot, HighQC>,
    qc_makers: KeyMap<Digest, QCMaker>,
    tc_makers: KeyMap<Round, TCMaker>,
    tickets: VecDeque<Ticket>,
    already_proposed_slots: KeySet<Slot>,
}

/// The tips of the first `n` members at the start.
spec fn genesis_tips(members: Seq<(PublicKey, Stake)>, n: int) -> Map<PublicKey, HeaderView>
    decreases n,
{
    if n <= 0 {
        Map::empty()
    } else {
        genesis_tips(members, n - 1).insert(members[n - 1].0, HeaderView::genesis(members[n - 1].0))
    }
}

/// The certificates of the first `n` members at the start.
spec fn genesis_certs(members: Seq<(PublicKey, Stake)>, n: int) -> Map<PublicKey, CertificateView>
    decreases n,
{
    if n <= 0 {
        Map::empty()
    } else {
        genesis_certs(members, n - 1).insert(
            members[n - 1].0,
            CertificateView::genesis(members[n - 1].0),
        )
    }
}

proof fn lemma_genesis(members: Seq<(PublicKey, Stake)>, n: int)
    requires
        0 <= n <= members.len(),
    ensures
        genesis_tips(members, n) == Map::new(
            |pk: PublicKey| has_key(members.take(n), pk),
            |pk: PublicKey| HeaderView::genesis(pk),
        ),
        genesis_certs(members, n) == Map::new(
            |pk: PublicKey| has_key(members.take(n), pk),
            |pk: PublicKey| CertificateView::genesis(pk),
        ),
    decreases n,
{
    if n > 0 {
        lemma_genesis(members, n - 1);
        assert forall|k: PublicKey| #[trigger]
            has_key(members.take(n), k) == (has_key(members.take(n - 1), k) || k == members[n
                - 1].0) by {
            lemma_has_key_take(members, n - 1, k);
        }
    }
    assert(genesis_tips(members, n) =~= Map::new(
        |pk: PublicKey| has_key(members.take(n), pk),
        |pk: PublicKey| HeaderView::genesis(pk),
    ));
    assert(genesis_certs(members, n) =~= Map::new(
        |pk: PublicKey| has_key(members.take(n), pk),
        |pk: PublicKey| CertificateView::genesis(pk),
    ));
}

/// Adds the actions `more` to the end of `actions`.
pub fn extend(actions: &mut Vec<Action>, more: Vec<Action>)
    ensures
        actions_view(final(actions)@) == actions_view(old(actions)@) + actions_view(more@),
{
    let ghost added = more@;
    let mut more = more;
    actions.append(&mut more);
    assert(actions_view(actions@) =~= actions_view(old(actions)@) + actions_view(added));
}

impl Core {
    /// The model of the state.
    pub closed spec fn view(&self) -> State {
        State {
            name: self.name,
            members: self.committee.members(),
            gc_depth: self.gc_depth,
            timeout_delay: self.timeout_delay,
            gc_round: self.gc_round,
            last_voted: self.last_voted@,
            current_header: opt_view(self.current_header),
            votes_aggregator: self.votes_aggregator@,
            formed: opt_view(self.formed),
            qcs_formed: self.qcs_formed,
            tips: views_of(self.tips@),
            current_proposals: self.current_proposals.entries(),
            current_certs: views_of(self.current_certs@),
            views: self.views@,
            timers: self.timers@,
            last_voted_consensus: self.last_voted_consensus@,
            commit_messages: each_view(self.commit_messages@),
            qcs: views_of(self.qcs@),
            qc_makers: views_of(self.qc_makers@),
            tc_makers: views_of(self.tc_makers@),
            tickets: each_view(self.tickets@),
            already_proposed: self.already_proposed_slots@,
        }
    }

    /// A primary named `name` at the start: the tips and certificates are
    /// those of genesis.
    pub fn new(name: PublicKey, committee: Committee, gc_depth: Height, timeout_delay: u64) -> (core:
        Core)
        ensures
            core@ == State::initial(name, committee.members(), gc_depth, timeout_delay),
            core@.in_good_standing(),
    {
        proof {
            law_start_in_good_standing(name, committee.members(), gc_depth, timeout_delay);
        }
        let mut tips: KeyMap<PublicKey, Header> = KeyMap::new();
        let mut current_certs: KeyMap<PublicKey, Certificate> = KeyMap::new();
        let n = committee.size();
        let mut i: usize = 0;
        while i < n
            invariant
                i <= n,
                n == committee.members().len(),
                views_of(tips@) == genesis_tips(committee.members(), i as int),
                views_of(current_certs@) == genesis_certs(committee.members(), i as int),
            decreases n - i,
        {
            let pk = committee.member_at(i);
            let ghost tips_before = tips@;
            let ghost certs_before = current_certs@;
            let header = Header::genesis(pk);
            let certificate = Certificate::genesis(pk);
            tips.insert(pk, header);
            current_certs.insert(pk, certificate);
            proof {
                assert(views_of(tips@) =~= views_of(tips_before).insert(pk, header@));
                assert(views_of(current_certs@) =~= views_of(certs_before).insert(
                    pk,
                    certificate@,
                ));
            }
            i += 1;
        }
        proof {
            lemma_genesis(committee.members(), n as int);
            assert(committee.members().take(n as int) =~= committee.members());
        }
        let core = Core {
            name,
            committee,
            gc_depth,
            timeout_delay,
            gc_round: 0,
            last_voted: KeySet::new(),
            current_header: None,
            votes_aggregator: VotesAggregator::new(),
            formed: None,
            qcs_formed: 0,
            tips,
            current_proposals: KeyMap::new(),
            current_certs,
            views: KeyMap::new(),
            timers: KeySet::new(),
            last_voted_consensus: KeySet::new(),
            commit_messages: VecDeque::new(),
            qcs: KeyMap::new(),
            qc_makers: KeyMap::new(),
            tc_makers: KeyMap::new(),
            tickets: VecDeque::new(),
            already_proposed_slots: KeySet::new(),
        };
        proof {
            let s = State::initial(name, core.committee.members(), gc_depth, timeout_delay);
            assert(core@.commit_messages =~= s.commit_messages);
            assert(core@.tickets =~= s.tickets);
            assert(core@.qcs =~= s.qcs);
            assert(core@.qc_makers =~= s.qc_makers);
            assert(core@.tc_makers =~= s.tc_makers);
            assert(core@.tips =~= s.tips);
            assert(core@.current_certs =~= s.current_certs);
        }
        core
    }

    /// The coverage rule: whether, of the replicas that the ticket lists, as
    /// many as a quorum's stake counts have a higher proposal in `current`.
    pub fn enough_coverage(&self, ticket: &Proposals, current: &Proposals) -> (r: bool)
        ensures
            r == enough_coverage(self@.members, ticket@, current@),
    {
        count_newer(ticket, current) as u128 >= self.committee.quorum_threshold() as u128
    }

    /// Looks at the ticket that waits in front: it becomes a Prepare for the
    /// next slot once coverage is enough, that slot has not been proposed
    /// for, and this replica leads it.
    pub fn is_ticket_ready(&mut self) -> (actions: Vec<Action>)
        ensures
            final(self)@ == old(self)@.ticket_step().0,
            actions_view(actions@) == old(self)@.ticket_step().1,
    {
        let mut actions: Vec<Action> = Vec::new();
        assert(actions_view(actions@) =~= Seq::empty());
        if self.tickets.len() == 0 {
            return actions;
        }
        let slot = self.tickets[0].slot;
        if slot == u64::MAX {
            return actions;
        }
        let next: Slot = slot + 1;
        let current = self.current_proposals.to_vec();
        if self.enough_coverage(&self.tickets[0].proposals, &current)
            && !self.already_proposed_slots.contains(&next) && self.name
            == self.committee.get_leader(next, 1) {
            let ticket = self.tickets.pop_front().unwrap();
            self.already_proposed_slots.insert(next);
            emit(
                &mut actions,
                Action::Propose(
                    ConsensusMessage::Prepare { slot: next, view: 1, ticket, proposals: current },
                ),
            );
            proof {
                assert(self@.tickets =~= old(self)@.tickets.drop_first());
                assert(actions_view(actions@) =~= old(self)@.ticket_step().1);
            }
        }
        actions
    }

    /// Takes a certificate in: it is stored, goes to the proposer where it is
    /// this replica's own, and, where it is the highest of its origin, may
    /// make a waiting ticket ready.
    pub fn process_certificate(&mut self, certificate: Certificate) -> (actions: Vec<Action>)
        ensures
            final(self)@ == old(self)@.certificate_step(certificate@).0,
            actions_view(actions@) == old(self)@.certificate_step(certificate@).1,
    {
        let mut actions: Vec<Action> = Vec::new();
        assert(actions_view(actions@) =~= Seq::empty());
        emit(&mut actions, Action::StoreCertificate(certificate.clone()));
        if certificate.origin == self.name {
            emit(&mut actions, Action::DeliverCertificate(certificate.clone()));
        }
        let known: Height = match self.current_certs.get(&certificate.origin) {
            Some(c) => c.height,
            None => 0,
        };
        if certificate.height > known {
            let origin = certificate.origin;
            self.current_certs.insert(origin, certificate);
            proof {
                assert(self@.current_certs =~= old(self)@.current_certs.insert(
                    origin,
                    certificate@,
                ));
            }
            let more = self.is_ticket_ready();
            extend(&mut actions, more);
        }
        proof {
            assert(actions_view(actions@) =~= old(self)@.certificate_step(certificate@).1);
        }
        actions
    }

    /// This replica.
    pub fn name(&self) -> (name: PublicKey)
        ensures
            name == self@.name,
    {
        self.name
    }

    /// The committee.
    pub fn committee(&self) -> (committee: &Committee)
        ensures
            committee.members() == self@.members,
    {
        &self.committee
    }

    /// The round below which everything has been given up.
    pub fn gc_round(&self) -> (round: Height)
        ensures
            round == self@.gc_round,
    {
        self.gc_round
    }

    /// The height of the highest header known of `author`.
    pub fn tip_height(&self, author: &PublicKey) -> (height: Height)
        ensures
            height == self@.tip_height(*author),
    {
        match self.tips.get(author) {
            Some(h) => h.height,
            None => 0,
        }
    }

    /// The height of the highest certificate known of `author`.
    pub fn cert_height(&self, author: &PublicKey) -> (height: Height)
        ensures
            height == self@.cert_height(*author),
    {
        match self.current_certs.get(author) {
            Some(c) => c.height,
            None => 0,
        }
    }

    /// For each author the pointer to its highest header.
    pub fn current_proposals(&self) -> (proposals: Proposals)
        ensures
            proposals@ == self@.current_proposals,
    {
        self.current_proposals.to_vec()
    }

    /// Whether a header of `author` at `height` has been voted for.
    pub fn has_voted(&self, height: Height, author: &PublicKey) -> (r: bool)
        ensures
            r == self@.last_voted.contains(Ballot { height, author: *author }),
    {
        self.last_voted.contains(&Ballot { height, author: *author })
    }

    /// Whether a Prepare has been voted for in `view` of `slot`.
    pub fn has_voted_consensus(&self, slot: Slot, view: ViewNumber) -> (r: bool)
        ensures
            r == self@.last_voted_consensus.contains(Round { slot, view }),
    {
        self.last_voted_consensus.contains(&Round { slot, view })
    }

    /// Whether this replica has proposed for `slot` in its first view.
    pub fn has_proposed(&self, slot: Slot) -> (r: bool)
        ensures
            r == self@.already_proposed.contains(slot),
    {
        self.already_proposed_slots.contains(&slot)
    }

    /// Whether the timer of `view` of `slot` is marked as started.
    pub fn has_timer(&self, slot: Slot, view: ViewNumber) -> (r: bool)
        ensures
            r == self@.timers.contains(Round { slot, view }),
    {
        self.timers.contains(&Round { slot, view })
    }

    /// Whether votes are kept over the consensus message with this digest.
    pub fn gathers_votes(&self, digest: &Digest) -> (r: bool)
        ensures
            r == self@.qc_makers.contains_key(*digest),
    {
        self.qc_makers.contains_key(digest)
    }

    /// Whether timeouts are kept for `view` of `slot`.
    pub fn gathers_timeouts(&self, slot: Slot, view: ViewNumber) -> (r: bool)
        ensures
            r == self@.tc_makers.contains_key(Round { slot, view }),
    {
        self.tc_makers.contains_key(&Round { slot, view })
    }

    /// How many tickets wait for coverage.
    pub fn tickets_waiting(&self) -> (n: usize)
        ensures
            n == self@.tickets.len(),
    {
        self.tickets.len()
    }

    /// How many commits wait for their proposals.
    pub fn commits_waiting(&self) -> (n: usize)
        ensures
            n == self@.commit_messages.len(),
    {
        self.commit_messages.len()
    }

    /// The commit that waits in front, if any.
    pub fn front_commit(&self) -> (r: Option<ConsensusMessage>)
        ensures
            opt_view(r) == if self@.commit_messages.len() > 0 {
                Some(self@.commit_messages[0])
            } else {
                None
            },
    {
        if self.commit_messages.len() > 0 {
            Some(self.commit_messages[0].clone())
        } else {
            None
        }
    }

    /// The view that `slot` is in.
    pub fn view_of(&self, slot: Slot) -> (view: ViewNumber)
        ensures
            view == self@.current_view(slot),
    {
        match self.views.get(&slot) {
            Some(v) => *v,
            None => 1,
        }
    }

    /// Whether a header is admissible, where `digest` is the content address
    /// of what it holds.
    pub fn sanitize_header(&self, header: &Header, digest: &Digest) -> (r: Result<(), DagError>)
        ensures
            r == self@.header_admissible(header@, *digest),
    {
        if header.height < self.gc_round {
            return Err(DagError::HeaderTooOld(header.id, header.height));
        }
        header.verify(digest, &self.committee)
    }

    /// Whether a vote is admissible.
    pub fn sanitize_vote(&self, vote: &Vote) -> (r: Result<(), DagError>)
        ensures
            r == self@.vote_admissible(vote@),
    {
        match &self.current_header {
            None => Err(DagError::UnexpectedVote(vote.id)),
            Some(h) => {
                if vote.height < h.height {
                    Err(DagError::VoteTooOld(vote.id, vote.height))
                } else if !(vote.id == h.id && vote.origin == h.author && vote.height == h.height) {
                    Err(DagError::UnexpectedVote(vote.id))
                } else {
                    vote.verify(&self.committee)
                }
            },
        }
    }

    /// Whether a certificate is admissible.
    pub fn sanitize_certificate(&self, certificate: &Certificate) -> (r: Result<(), DagError>)
        ensures
            r == self@.certificate_admissible(certificate@),
    {
        if certificate.height < self.gc_round {
            return Err(DagError::CertificateTooOld(certificate.header_id, certificate.height));
        }
        certificate.verify(&self.committee)
    }

    /// Whether this replica votes for a consensus message.
    pub fn is_valid(&self, message: &ConsensusMessage) -> (r: bool)
        ensures
            r == self@.is_valid(message@),
    {
        match message {
            ConsensusMessage::Prepare { slot, view, ticket, proposals: _ } => {
                !self.last_voted_consensus.contains(&Round { slot: *slot, view: *view })
                    && ticket.slot < u64::MAX && ticket.slot + 1 == *slot && self.view_of(*slot)
                    == *view
            },
            ConsensusMessage::Confirm { slot, view, qc, proposals: _ } => {
                qc.verify(&self.committee).is_ok() && self.view_of(*slot) == *view
            },
            ConsensusMessage::Commit { slot, view, qc, proposals: _ } => {
                qc.verify(&self.committee).is_ok() && self.view_of(*slot) == *view
            },
        }
    }

    /// Acts on a valid Prepare for `slot` that the header `header_id`
    /// carries: the leader of the next slot proposes or keeps a ticket, and
    /// the next slot's timer is started.
    pub fn process_prepare_message(&mut self, header_id: Digest, slot: Slot, proposals: &Proposals) -> (actions:
        Vec<Action>)
        ensures
            final(self)@ == old(self)@.prepare_step(header_id, slot, proposals@).0,
            actions_view(actions@) == old(self)@.prepare_step(header_id, slot, proposals@).1,
    {
        let mut actions: Vec<Action> = Vec::new();
        assert(actions_view(actions@) =~= Seq::empty());
        if slot == u64::MAX {
            return actions;
        }
        let next: Slot = slot + 1;
        if self.name == self.committee.get_leader(next, 1) && !self.already_proposed_slots.contains(
            &next,
        ) {
            let ticket = Ticket {
                evidence: Evidence::Header(header_id),
                slot,
                proposals: copy_list(proposals),
            };
            let current = self.current_proposals.to_vec();
            if self.enough_coverage(proposals, &current) {
                self.already_proposed_slots.insert(next);
                emit(
                    &mut actions,
                    Action::Propose(
                        ConsensusMessage::Prepare { slot: next, view: 1, ticket, proposals: current },
                    ),
                );
            } else {
                self.tickets.push_back(ticket);
                assert(self@.tickets =~= old(self)@.tickets.push(ticket@));
            }
        }
        if self.timers.insert(Round { slot: next, view: 1 }) {
            emit(&mut actions, Action::ArmTimer { slot: next, view: 1, delay: self.timeout_delay });
        } else {
            assert(self@.timers =~= old(self)@.timers);
        }
        proof {
            assert(actions_view(actions@) =~= old(self)@.prepare_step(header_id, slot, proposals@).1);
        }
        actions
    }

    /// Acts on a valid Confirm: it becomes the latest seen for its slot.
    pub fn process_confirm_message(
        &mut self,
        slot: Slot,
        view: ViewNumber,
        qc: &QC,
        proposals: &Proposals,
    )
        ensures
            final(self)@ == (State {
                qcs: old(self)@.qcs.insert(
                    slot,
                    HighQCView { slot, view, qc: qc@, proposals: proposals@ },
                ),
                ..old(self)@
            }),
    {
        let confirm = HighQC { slot, view, qc: qc.clone(), proposals: copy_list(proposals) };
        self.qcs.insert(slot, confirm);
        assert(self@.qcs =~= old(self)@.qcs.insert(
            slot,
            HighQCView { slot, view, qc: qc@, proposals: proposals@ },
        ));
    }

    /// Acts on one consensus message of a header.
    fn process_instance(
        &mut self,
        header_id: Digest,
        digest: Digest,
        message: &ConsensusMessage,
        actions: &mut Vec<Action>,
        signed: &mut Vec<Digest>,
    )
        ensures
            final(self)@ == old(self)@.instance_step(header_id, digest, message@).0,
            actions_view(final(actions)@) == actions_view(old(actions)@) + old(
                self,
            )@.instance_step(header_id, digest, message@).1,
            final(signed)@ == old(signed)@ + old(self)@.instance_step(
                header_id,
                digest,
                message@,
            ).2,
    {
        if !self.is_valid(message) {
            assert(actions_view(actions@) =~= actions_view(old(actions)@) + Seq::empty());
            assert(signed@ =~= old(signed)@ + Seq::empty());
            return ;
        }
        match message {
            ConsensusMessage::Prepare { slot, view, ticket: _, proposals } => {
                sync_proposals(proposals, digest, actions);
                let more = self.process_prepare_message(header_id, *slot, proposals);
                extend(actions, more);
                self.last_voted_consensus.insert(Round { slot: *slot, view: *view });
                signed.push(digest);
                proof {
                    let step = old(self)@.instance_step(header_id, digest, message@);
                    assert(actions_view(actions@) =~= actions_view(old(actions)@) + step.1);
                    assert(signed@ =~= old(signed)@ + step.2);
                }
            },
            ConsensusMessage::Confirm { slot, view, qc, proposals } => {
                sync_proposals(proposals, digest, actions);
                self.process_confirm_message(*slot, *view, qc, proposals);
                signed.push(digest);
                proof {
                    let step = old(self)@.instance_step(header_id, digest, message@);
                    assert(signed@ =~= old(signed)@ + step.2);
                }
            },
            ConsensusMessage::Commit { slot: _, view: _, qc: _, proposals } => {
                sync_proposals(proposals, digest, actions);
                emit(actions, Action::ResolveCommit(message.clone()));
                proof {
                    let step = old(self)@.instance_step(header_id, digest, message@);
                    assert(actions_view(actions@) =~= actions_view(old(actions)@) + step.1);
                    assert(signed@ =~= old(signed)@ + step.2);
                }
            },
        }
    }

    /// Acts on the consensus messages that a header carries, one after the
    /// other, and says which digests this replica signs.
    pub fn process_consensus_messages(&mut self, header: &Header) -> (r: (Vec<Action>, Vec<Digest>))
        ensures
            final(self)@ == old(self)@.instances_step(
                header.id,
                header@.consensus_instances,
                header@.consensus_instances.len() as int,
            ).0,
            actions_view(r.0@) == old(self)@.instances_step(
                header.id,
                header@.consensus_instances,
                header@.consensus_instances.len() as int,
            ).1,
            r.1@ == old(self)@.instances_step(
                header.id,
                header@.consensus_instances,
                header@.consensus_instances.len() as int,
            ).2,
    {
        let mut actions: Vec<Action> = Vec::new();
        let mut signed: Vec<Digest> = Vec::new();
        assert(actions_view(actions@) =~= Seq::empty());
        let ghost pre = self@;
        let ghost instances = header@.consensus_instances;
        let mut i: usize = 0;
        while i < header.consensus_instances.len()
            invariant
                i <= header.consensus_instances.len(),
                instances == header@.consensus_instances,
                instances.len() == header.consensus_instances.len(),
                self@ == pre.instances_step(header.id, instances, i as int).0,
                actions_view(actions@) == pre.instances_step(header.id, instances, i as int).1,
                signed@ == pre.instances_step(header.id, instances, i as int).2,
            decreases header.consensus_instances.len() - i,
        {
            let digest = header.consensus_instances[i].0;
            self.process_instance(
                header.id,
                digest,
                &header.consensus_instances[i].1,
                &mut actions,
                &mut signed,
            );
            i += 1;
        }
        (actions, signed)
    }

    /// Whether a header is taken in.
    pub fn check_header(&self, header: &Header, digest: &Digest) -> (r: Result<(), DagError>)
        ensures
            r == self@.header_verdict(header@, *digest),
    {
        match self.sanitize_header(header, digest) {
            Err(e) => {
                return Err(e);
            },
            Ok(_) => {},
        }
        if !(header.height > 0 && header.parent_cert.height == header.height - 1) {
            return Err(DagError::MalformedHeader(header.id));
        }
        if !(header.parent_cert.height == 0 || check_votes(
            &self.committee,
            &header.parent_cert.votes,
            &header.parent_cert.header_id,
            self.committee.validity_threshold(),
        ).is_ok()) {
            return Err(DagError::HeaderRequiresQuorum(header.id));
        }
        Ok(())
    }

    /// Makes a header its author's tip where it lies above the tip.
    fn note_tip(&mut self, header: &Header)
        ensures
            final(self)@ == old(self)@.tip_step(header@),
    {
        let tip: Height = match self.tips.get(&header.author) {
            Some(h) => h.height,
            None => 0,
        };
        if header.height > tip {
            self.tips.insert(header.author, header.clone());
            self.current_proposals.insert(
                header.author,
                Proposal { header_digest: header.id, height: header.height },
            );
            assert(self@.tips =~= old(self)@.tips.insert(header.author, header@));
        }
    }

    /// Votes for a header unless a header of its author at its height was
    /// voted for before.
    fn vote_for(&mut self, header: &Header) -> (actions: Vec<Action>)
        ensures
            final(self)@ == old(self)@.voting_step(header@).0,
            actions_view(actions@) == old(self)@.voting_step(header@).1,
    {
        let ballot = Ballot { height: header.height, author: header.author };
        let own = header.author == self.name;
        if self.last_voted.insert(ballot) {
            let ghost s1 = self@;
            proof {
                assert(s1 == State { last_voted: old(self)@.last_voted.insert(ballot), ..old(self)@ });
            }
            let (more, signed) = self.process_consensus_messages(header);
            let mut actions = more;
            emit(
                &mut actions,
                Action::CastVote {
                    header: header.id,
                    height: header.height,
                    origin: header.author,
                    instances: signed,
                    own,
                },
            );
            actions
        } else {
            let actions: Vec<Action> = Vec::new();
            assert(actions_view(actions@) =~= Seq::empty());
            assert(self@.last_voted =~= old(self)@.last_voted);
            actions
        }
    }

    /// Acts on a header that is taken in and has all it depends on.
    fn accept_header(&mut self, header: &Header) -> (actions: Vec<Action>)
        ensures
            final(self)@ == old(self)@.accept_step(header@).0,
            actions_view(actions@) == old(self)@.accept_step(header@).1,
    {
        let mut actions: Vec<Action> = Vec::new();
        assert(actions_view(actions@) =~= Seq::empty());
        emit(&mut actions, Action::StoreHeader { id: header.id });
        self.note_tip(header);
        let more = self.process_certificate(header.parent_cert.clone());
        extend(&mut actions, more);
        let more = self.vote_for(header);
        extend(&mut actions, more);
        proof {
            assert(actions_view(actions@) =~= old(self)@.accept_step(header@).1);
        }
        actions
    }

    /// Takes a header in; `digest` is the content address of what it holds.
    pub fn process_header(
        &mut self,
        header: Header,
        digest: Digest,
        payload_missing: bool,
        parent_missing: bool,
    ) -> (r: Outcome)
        ensures
            (final(self)@, actions_view(r.actions@), r.error) == old(self)@.header_step(
                header@,
                digest,
                payload_missing,
                parent_missing,
            ),
    {
        match self.check_header(&header, &digest) {
            Err(e) => {
                let actions: Vec<Action> = Vec::new();
                assert(actions_view(actions@) =~= Seq::empty());
                Outcome { actions, error: Some(e) }
            },
            Ok(_) => {
                if payload_missing || parent_missing {
                    let actions: Vec<Action> = Vec::new();
                    assert(actions_view(actions@) =~= Seq::empty());
                    Outcome { actions, error: None }
                } else {
                    let actions = self.accept_header(&header);
                    Outcome { actions, error: None }
                }
            },
        }
    }

    /// Takes in a voter's signature over the digest of a consensus message.
    fn process_share(
        &mut self,
        voter: PublicKey,
        digest: Digest,
        signature: Signature,
        actions: &mut Vec<Action>,
    ) -> (e: Option<DagError>)
        ensures
            final(self)@ == old(self)@.share_step(voter, digest, signature).0,
            actions_view(final(actions)@) == actions_view(old(actions)@) + old(self)@.share_step(
                voter,
                digest,
                signature,
            ).1,
            e == old(self)@.share_step(voter, digest, signature).2,
    {
        let round: Height = match &self.current_header {
            Some(h) => h.height,
            None => 0,
        };
        let known = self.qc_makers.remove(&digest);
        let was_known = known.is_some();
        let mut maker = match known {
            Some(m) => m,
            None => QCMaker::new(digest, round),
        };
        let out = maker.append(voter, signature, &self.committee);
        if out.is_ok() || was_known {
            self.qc_makers.insert(digest, maker);
        }
        proof {
            if out is Ok {
                assert(self@.qc_makers =~= old(self)@.qc_makers.insert(digest, maker@));
            } else {
                assert(self@.qc_makers =~= old(self)@.qc_makers);
            }
            assert(actions_view(actions@) =~= actions_view(old(actions)@) + Seq::empty());
        }
        match out {
            Err(e) => Some(e),
            Ok(None) => None,
            Ok(Some(qc)) => {
                match succeed(&self.current_header, self.name, &digest, qc) {
                    None => None,
                    Some(more) => {
                        if self.qcs_formed < u64::MAX {
                            self.qcs_formed = self.qcs_formed + 1;
                        }
                        extend(actions, more);
                        None
                    },
                }
            },
        }
    }

    /// The certificate of the header that collects votes is processed once
    /// it has formed and a quorum certificate has formed over each consensus
    /// message of the header.
    fn release(&mut self, newly: Option<Certificate>, instances: usize) -> (actions: Vec<Action>)
        requires
            old(self)@.current_header is Some,
            instances == old(self)@.current_header->0.consensus_instances.len(),
        ensures
            final(self)@ == old(self)@.release_step(
                opt_view(newly),
                old(self)@.current_header->0,
            ).0,
            actions_view(actions@) == old(self)@.release_step(
                opt_view(newly),
                old(self)@.current_header->0,
            ).1,
    {
        if newly.is_some() {
            self.formed = newly;
        }
        let ready = instances == 0 || self.qcs_formed == instances as u64;
        if self.formed.is_some() && ready {
            let certificate = self.formed.take().unwrap();
            self.qcs_formed = 0;
            self.process_certificate(certificate)
        } else {
            let actions: Vec<Action> = Vec::new();
            assert(actions_view(actions@) =~= Seq::empty());
            actions
        }
    }

    /// Takes in a vote for the header that collects votes.
    fn tally(&mut self, vote: &Vote) -> (r: Outcome)
        requires
            old(self)@.current_header is Some,
        ensures
            (final(self)@, actions_view(r.actions@), r.error) == old(self)@.tally_step(
                vote@,
                old(self)@.current_header->0,
            ),
    {
        let (out, instances) = match &self.current_header {
            Some(h) => (
                self.votes_aggregator.append(vote, &self.committee, h),
                h.consensus_instances.len(),
            ),
            None => (Ok(None), 0),
        };
        match out {
            Err(e) => {
                let actions: Vec<Action> = Vec::new();
                assert(actions_view(actions@) =~= Seq::empty());
                Outcome { actions, error: Some(e) }
            },
            Ok(newly) => {
                let actions = self.release(newly, instances);
                Outcome { actions, error: None }
            },
        }
    }

    /// Takes a vote in.
    pub fn process_vote(&mut self, vote: Vote) -> (r: Outcome)
        ensures
            (final(self)@, actions_view(r.actions@), r.error) == old(self)@.vote_step(vote@),
            old(self)@.in_good_standing() ==> final(self)@.in_good_standing() && all_vouched(
                old(self)@.members,
                actions_view(r.actions@),
            ),
    {
        proof {
            if self@.in_good_standing() {
                law_vote_vouched(self@, vote@);
            }
        }
        let mut actions: Vec<Action> = Vec::new();
        assert(actions_view(actions@) =~= Seq::empty());
        if self.current_header.is_none() {
            return Outcome { actions, error: Some(DagError::UnexpectedVote(vote.id)) };
        }
        let ghost pre = self@;
        let saved = copy_makers(&self.qc_makers);
        let saved_count = self.qcs_formed;
        let mut i: usize = 0;
        let mut error: Option<DagError> = None;
        while i < vote.consensus_sigs.len() && error.is_none()
            invariant
                i <= vote.consensus_sigs.len(),
                self@ == (State { qc_makers: self@.qc_makers, qcs_formed: self@.qcs_formed, ..pre }),
                (self@, actions_view(actions@), error) == pre.shares_step(
                    vote.author,
                    vote.consensus_sigs@,
                    i as int,
                ),
            decreases vote.consensus_sigs.len() - i,
        {
            error =
            self.process_share(
                vote.author,
                vote.consensus_sigs[i].0,
                vote.consensus_sigs[i].1,
                &mut actions,
            );
            i += 1;
        }
        proof {
            lemma_shares_stop(
                pre,
                vote.author,
                vote.consensus_sigs@,
                i as int,
                vote.consensus_sigs@.len() as int,
            );
        }
        if error.is_some() {
            self.qc_makers = saved;
            self.qcs_formed = saved_count;
            let nothing: Vec<Action> = Vec::new();
            assert(actions_view(nothing@) =~= Seq::empty());
            return Outcome { actions: nothing, error };
        }
        let out = self.tally(&vote);
        if out.error.is_some() {
            self.qc_makers = saved;
            self.qcs_formed = saved_count;
            let nothing: Vec<Action> = Vec::new();
            assert(actions_view(nothing@) =~= Seq::empty());
            return Outcome { actions: nothing, error: out.error };
        }
        extend(&mut actions, out.actions);
        Outcome { actions, error: None }
    }

    /// What the leader of the view after a timeout certificate does.
    fn lead_after(&mut self, tc: TC) -> (actions: Vec<Action>)
        requires
            tc.view < u64::MAX,
        ensures
            final(self)@ == old(self)@.leader_step(tc@).0,
            actions_view(actions@) == old(self)@.leader_step(tc@).1,
    {
        let mut actions: Vec<Action> = Vec::new();
        assert(actions_view(actions@) =~= Seq::empty());
        let best = highest_qc(&tc.timeouts, tc.slot);
        let (winning, proposals): (Proposals, Proposals) = match best {
            Some(b) => {
                match &tc.timeouts[b].high_qc {
                    Some(h) => (copy_list(&h.proposals), copy_list(&h.proposals)),
                    None => (Vec::new(), Vec::new()),
                }
            },
            None => (Vec::new(), self.current_proposals.to_vec()),
        };
        let slot = tc.slot;
        let view: ViewNumber = tc.view + 1;
        let ticket = Ticket { evidence: Evidence::Timeouts(tc), slot, proposals: winning };
        let covered = self.enough_coverage(&ticket.proposals, &proposals);
        if slot < u64::MAX && !self.already_proposed_slots.contains(&(slot + 1)) && covered {
            emit(
                &mut actions,
                Action::Propose(
                    ConsensusMessage::Prepare {
                        slot,
                        view,
                        ticket: ticket.clone(),
                        proposals: copy_list(&proposals),
                    },
                ),
            );
            self.already_proposed_slots.insert(slot + 1);
            emit(
                &mut actions,
                Action::Propose(
                    ConsensusMessage::Prepare { slot: slot + 1, view: 1, ticket, proposals },
                ),
            );
        } else {
            emit(
                &mut actions,
                Action::Propose(
                    ConsensusMessage::Prepare { slot, view, ticket: ticket.clone(), proposals },
                ),
            );
            self.tickets.push_back(ticket);
            assert(self@.tickets =~= old(self)@.tickets.push(ticket@));
        }
        proof {
            assert(actions_view(actions@) =~= old(self)@.leader_step(tc@).1);
        }
        actions
    }

    /// What a timeout certificate does that has formed here.
    fn advance(&mut self, tc: TC) -> (actions: Vec<Action>)
        ensures
            final(self)@ == old(self)@.advance_step(tc@).0,
            actions_view(actions@) == old(self)@.advance_step(tc@).1,
    {
        let mut actions: Vec<Action> = Vec::new();
        assert(actions_view(actions@) =~= Seq::empty());
        if tc.view == u64::MAX {
            return actions;
        }
        let slot = tc.slot;
        let view: ViewNumber = tc.view + 1;
        self.views.insert(slot, view);
        emit(&mut actions, Action::ArmTimer { slot, view, delay: self.timeout_delay });
        emit(&mut actions, Action::BroadcastTC(tc.clone()));
        if self.name == self.committee.get_leader(slot, view) {
            let more = self.lead_after(tc);
            extend(&mut actions, more);
        }
        proof {
            assert(actions_view(actions@) =~= old(self)@.advance_step(tc@).1);
        }
        actions
    }

    /// Takes a timeout in; `digest` is the content address of its slot, its
    /// view and the certificate it carries.
    pub fn handle_timeout(&mut self, timeout: Timeout, digest: Digest) -> (r: Outcome)
        ensures
            (final(self)@, actions_view(r.actions@), r.error) == old(self)@.timeout_step(
                timeout@,
                digest,
            ),
            old(self)@.in_good_standing() ==> final(self)@.in_good_standing() && all_vouched(
                old(self)@.members,
                actions_view(r.actions@),
            ),
    {
        proof {
            if self@.in_good_standing() {
                law_timeout_vouched(self@, timeout@, digest);
            }
        }
        let actions: Vec<Action> = Vec::new();
        assert(actions_view(actions@) =~= Seq::empty());
        if timeout.view < self.view_of(timeout.slot) {
            return Outcome { actions, error: None };
        }
        match timeout.verify(&digest, &self.committee) {
            Err(e) => {
                return Outcome { actions, error: Some(e) };
            },
            Ok(_) => {},
        }
        let round = Round { slot: timeout.slot, view: timeout.view };
        let known = self.tc_makers.remove(&round);
        let was_known = known.is_some();
        let mut maker = match known {
            Some(m) => m,
            None => TCMaker::new(round),
        };
        let out = maker.append(timeout, &self.committee);
        if out.is_ok() || was_known {
            self.tc_makers.insert(round, maker);
        }
        proof {
            if out is Ok {
                assert(self@.tc_makers =~= old(self)@.tc_makers.insert(round, maker@));
            } else {
                assert(self@.tc_makers =~= old(self)@.tc_makers);
            }
        }
        match out {
            Err(e) => Outcome { actions, error: Some(e) },
            Ok(None) => Outcome { actions, error: None },
            Ok(Some(tc)) => {
                let actions = self.advance(tc);
                Outcome { actions, error: None }
            },
        }
    }

    /// Takes in the timeout that this replica had signed: it is sent to the
    /// others and then taken in as any timeout is.
    pub fn process_own_timeout(&mut self, timeout: Timeout, digest: Digest) -> (r: Outcome)
        ensures
            (final(self)@, actions_view(r.actions@), r.error) == old(self)@.own_timeout_step(
                timeout@,
                digest,
            ),
    {
        let mut actions: Vec<Action> = Vec::new();
        assert(actions_view(actions@) =~= Seq::empty());
        emit(&mut actions, Action::BroadcastTimeout(timeout.clone()));
        let out = self.handle_timeout(timeout, digest);
        extend(&mut actions, out.actions);
        proof {
            assert(actions_view(actions@) =~= old(self)@.own_timeout_step(timeout@, digest).1);
        }
        Outcome { actions, error: out.error }
    }

    /// Takes in a timeout certificate from a peer.
    pub fn handle_tc(&mut self, tc: TC) -> (actions: Vec<Action>)
        ensures
            final(self)@ == old(self)@.tc_step(tc@).0,
            actions_view(actions@) == old(self)@.tc_step(tc@).1,
    {
        if tc.view < u64::MAX && self.name == self.committee.get_leader(tc.slot, tc.view + 1) {
            self.lead_after(tc)
        } else {
            let actions: Vec<Action> = Vec::new();
            assert(actions_view(actions@) =~= Seq::empty());
            actions
        }
    }

    /// Acts on a timer that has run out: a timeout is to be signed, with the
    /// latest Confirm seen for the slot, unless the slot has left the view.
    pub fn local_timeout_round(&self, slot: Slot, view: ViewNumber) -> (actions: Vec<Action>)
        ensures
            actions_view(actions@) == self@.timer_step(slot, view),
    {
        let mut actions: Vec<Action> = Vec::new();
        assert(actions_view(actions@) =~= Seq::empty());
        if view < self.view_of(slot) {
            return actions;
        }
        let high_qc = match self.qcs.get(&slot) {
            Some(h) => Some(h.clone()),
            None => None,
        };
        emit(&mut actions, Action::SignTimeout { slot, view, high_qc });
        proof {
            assert(actions_view(actions@) =~= self@.timer_step(slot, view));
        }
        actions
    }

    /// Whether a commit can go to the committer: `readiness` must say of
    /// each of its proposals that it is at hand.
    pub fn is_commit_ready(message: &ConsensusMessage, readiness: &Vec<bool>) -> (r: bool)
        ensures
            r == commit_ready(message@, readiness@),
    {
        match message {
            ConsensusMessage::Commit { slot: _, view: _, qc: _, proposals } => {
                if readiness.len() != proposals.len() {
                    return false;
                }
                let mut i: usize = 0;
                while i < readiness.len()
                    invariant
                        i <= readiness.len(),
                        forall|j: int| 0 <= j < i ==> readiness@[j],
                    decreases readiness.len() - i,
                {
                    if !readiness[i] {
                        return false;
                    }
                    i += 1;
                }
                true
            },
            _ => false,
        }
    }

    /// Takes in a commit whose proposals have been looked up: it goes to the
    /// committer, or waits.
    pub fn process_commit_message(&mut self, message: ConsensusMessage, readiness: &Vec<bool>) -> (actions:
        Vec<Action>)
        ensures
            final(self)@ == old(self)@.commit_step(message@, readiness@).0,
            actions_view(actions@) == old(self)@.commit_step(message@, readiness@).1,
    {
        let mut actions: Vec<Action> = Vec::new();
        assert(actions_view(actions@) =~= Seq::empty());
        let is_commit = match &message {
            ConsensusMessage::Commit { .. } => true,
            _ => false,
        };
        if !is_commit {
            return actions;
        }
        if Self::is_commit_ready(&message, readiness) {
            emit(&mut actions, Action::Commit(message));
            proof {
                assert(actions_view(actions@) =~= old(self)@.commit_step(message@, readiness@).1);
            }
        } else {
            self.commit_messages.push_back(message);
            assert(self@.commit_messages =~= old(self)@.commit_messages.push(message@));
        }
        actions
    }

    /// Acts on a loopback: the commit that waits in front goes to the
    /// committer once its proposals are at hand.
    pub fn process_loopback(&mut self, readiness: &Vec<bool>) -> (actions: Vec<Action>)
        ensures
            final(self)@ == old(self)@.loopback_step(readiness@).0,
            actions_view(actions@) == old(self)@.loopback_step(readiness@).1,
    {
        let mut actions: Vec<Action> = Vec::new();
        assert(actions_view(actions@) =~= Seq::empty());
        if self.commit_messages.len() > 0 && Self::is_commit_ready(
            &self.commit_messages[0],
            readiness,
        ) {
            let message = self.commit_messages.pop_front().unwrap();
            emit(&mut actions, Action::Commit(message));
            proof {
                assert(self@.commit_messages =~= old(self)@.commit_messages.drop_first());
                assert(actions_view(actions@) =~= old(self)@.loopback_step(readiness@).1);
            }
        }
        actions
    }

    /// Gives up what lies too far behind `round`, the round of consensus.
    pub fn collect_garbage(&mut self, round: Height) -> (actions: Vec<Action>)
        ensures
            final(self)@ == old(self)@.gc_step(round).0,
            actions_view(actions@) == old(self)@.gc_step(round).1,
            old(self)@.in_good_standing() ==> final(self)@.in_good_standing(),
    {
        proof {
            if self@.in_good_standing() {
                law_standing(self@, EventView::Timer { slot: 0, view: 0 }, round);
            }
        }
        let mut actions: Vec<Action> = Vec::new();
        assert(actions_view(actions@) =~= Seq::empty());
        if round > self.gc_depth {
            let gc_round: Height = round - self.gc_depth;
            self.last_voted = self.last_voted.from_date(gc_round);
            self.timers = self.timers.from_date(gc_round);
            self.already_proposed_slots = self.already_proposed_slots.from_date(gc_round);
            let late = stale_makers(&self.qc_makers, gc_round);
            self.qc_makers.remove_keys(&late);
            let past = stale_rounds(&self.tc_makers, gc_round);
            self.tc_makers.remove_keys(&past);
            self.gc_round = gc_round;
            emit(&mut actions, Action::Forget { below: gc_round });
            proof {
                let s = old(self)@;
                let t = s.gc_step(round).0;
                assert(self@.last_voted =~= t.last_voted);
                assert(self@.timers =~= t.timers);
                assert(self@.already_proposed =~= t.already_proposed);
                assert(self@.qc_makers =~= t.qc_makers);
                assert(self@.tc_makers =~= t.tc_makers);
                assert(actions_view(actions@) =~= s.gc_step(round).1);
            }
        }
        actions
    }

    /// Takes an event in and says what is to be done about it.
    pub fn step(&mut self, event: Event) -> (r: Outcome)
        ensures
            (final(self)@, actions_view(r.actions@), r.error) == old(self)@.event_step(event@),
            old(self)@.in_good_standing() ==> final(self)@.in_good_standing() && all_vouched(
                old(self)@.members,
                actions_view(r.actions@),
            ),
    {
        proof {
            if self@.in_good_standing() {
                law_standing(self@, event@, 0);
            }
        }
        self.dispatch(event)
    }

    /// Hands an event to the function that takes it in.
    fn dispatch(&mut self, event: Event) -> (r: Outcome)
        ensures
            (final(self)@, actions_view(r.actions@), r.error) == old(self)@.event_step(event@),
    {
        match event {
            Event::Header { header, digest, payload_missing, parent_missing } => self.process_header(
                header,
                digest,
                payload_missing,
                parent_missing,
            ),
            Event::OwnHeader {
                header,
                digest,
                payload_missing,
                parent_missing,
            } => self.process_own_header(
                header,
                digest,
                payload_missing,
                parent_missing,
            ),
            Event::Vote(vote) => match self.sanitize_vote(&vote) {
                Err(e) => {
                    let actions: Vec<Action> = Vec::new();
                    assert(actions_view(actions@) =~= Seq::empty());
                    Outcome { actions, error: Some(e) }
                },
                Ok(_) => self.process_vote(vote),
            },
            Event::OwnVote(vote) => self.process_vote(vote),
            Event::Certificate(certificate) => match self.sanitize_certificate(&certificate) {
                Err(e) => {
                    let actions: Vec<Action> = Vec::new();
                    assert(actions_view(actions@) =~= Seq::empty());
                    Outcome { actions, error: Some(e) }
                },
                Ok(_) => Outcome { actions: self.process_certificate(certificate), error: None },
            },
            Event::Timeout { timeout, digest } => self.handle_timeout(timeout, digest),
            Event::OwnTimeout { timeout, digest } => self.process_own_timeout(timeout, digest),
            Event::TimeoutCertificate(tc) => Outcome { actions: self.handle_tc(tc), error: None },
            Event::Timer { slot, view } => Outcome {
                actions: self.local_timeout_round(slot, view),
                error: None,
            },
            Event::Loopback { readiness } => Outcome {
                actions: self.process_loopback(&readiness),
                error: None,
            },
            Event::CommitResolved { message, readiness } => Outcome {
                actions: self.process_commit_message(message, &readiness),
                error: None,
            },
        }
    }

    /// Takes in a header that this replica's proposer has made.
    pub fn process_own_header(
        &mut self,
        header: Header,
        digest: Digest,
        payload_missing: bool,
        parent_missing: bool,
    ) -> (r: Outcome)
        ensures
            (final(self)@, actions_view(r.actions@), r.error) == old(self)@.own_header_step(
                header@,
                digest,
                payload_missing,
                parent_missing,
            ),
    {
        self.current_header = Some(header.clone());
        self.votes_aggregator = VotesAggregator::new();
        self.formed = None;
        self.qcs_formed = 0;
        let ghost s0 = self@;
        proof {
            assert(s0 == State {
                current_header: Some(header@),
                votes_aggregator: VotesAggregatorView::fresh(),
                formed: None,
                qcs_formed: 0,
                ..old(self)@
            });
        }
        let mut actions: Vec<Action> = Vec::new();
        assert(actions_view(actions@) =~= Seq::empty());
        emit(&mut actions, Action::BroadcastHeader { id: header.id, height: header.height });
        let ghost first = actions_view(actions@);
        let out = self.process_header(header, digest, payload_missing, parent_missing);
        let ghost rest = actions_view(out.actions@);
        extend(&mut actions, out.actions);
        proof {
            let inner = s0.header_step(header@, digest, payload_missing, parent_missing);
            assert(rest == inner.1);
            assert(first =~= seq![ActionView::BroadcastHeader { id: header.id, height: header.height }]);
            let step = old(self)@.own_header_step(header@, digest, payload_missing, parent_missing);
            assert(actions_view(actions@) =~= step.1);
        }
        Outcome { actions, error: out.error }
    }
}

/// A copy of the votes kept over consensus messages.
pub fn copy_makers(makers: &KeyMap<Digest, QCMaker>) -> (copy: KeyMap<Digest, QCMaker>)
    ensures
        views_of(copy@) == views_of(makers@),
{
    let ghost all = |d: Digest, m: QCMaker| true;
    let mut copy: KeyMap<Digest, QCMaker> = KeyMap::new();
    let n = makers.len();
    let mut i: usize = 0;
    while i < n
        invariant
            i <= n,
            n == makers.entries().len(),
            all == (|d: Digest, m: QCMaker| true),
            forall|d: Digest| copy@.contains_key(d) <==> marked(makers.entries(), i as int, all, d),
            forall|d: Digest|
                copy@.contains_key(d) ==> makers@.contains_key(d) && (#[trigger] copy@[d])@
                    == makers@[d]@,
        decreases n - i,
    {
        let k = makers.key_at(i);
        let m = makers.value_at(i).copy();
        proof {
            assert forall|d: Digest|
                copy@.insert(k, m).contains_key(d) <==> marked(makers.entries(), i + 1, all, d) by {
                lemma_marked_next(makers.entries(), i as int, all, d);
            }
        }
        copy.insert(k, m);
        i += 1;
    }
    proof {
        assert forall|d: Digest| copy@.contains_key(d) <==> makers@.contains_key(d) by {
            lemma_marked_all(makers.entries(), all, d);
        }
        assert(views_of(copy@) =~= views_of(makers@));
    }
    copy
}

/// The digests under which votes are kept that were started below `floor`.
pub fn stale_makers(makers: &KeyMap<Digest, QCMaker>, floor: Height) -> (late: Vec<Digest>)
    ensures
        forall|d: Digest|
            late@.contains(d) <==> makers@.contains_key(d) && makers@[d]@.round < floor,
{
    let ghost bad = |d: Digest, m: QCMaker| m@.round < floor;
    let mut late: Vec<Digest> = Vec::new();
    let n = makers.len();
    let mut i: usize = 0;
    while i < n
        invariant
            i <= n,
            n == makers.entries().len(),
            bad == (|d: Digest, m: QCMaker| m@.round < floor),
            forall|d: Digest| late@.contains(d) <==> marked(makers.entries(), i as int, bad, d),
        decreases n - i,
    {
        let k = makers.key_at(i);
        let ghost before = late@;
        let stale = makers.value_at(i).round() < floor;
        if stale {
            late.push(k);
        }
        proof {
            assert forall|d: Digest| late@.contains(d) <==> marked(
                makers.entries(),
                i + 1,
                bad,
                d,
            ) by {
                lemma_marked_next(makers.entries(), i as int, bad, d);
                if stale {
                    if before.contains(d) {
                        let j = choose|j: int| 0 <= j < before.len() && before[j] == d;
                        assert(late@[j] == d);
                    }
                    if d == k {
                        assert(late@[before.len() as int] == d);
                    }
                    if late@.contains(d) {
                        let j = choose|j: int| 0 <= j < late@.len() && late@[j] == d;
                        if j < before.len() {
                            assert(before[j] == d);
                        }
                    }
                }
            }
        }
        i += 1;
    }
    proof {
        assert forall|d: Digest|
            late@.contains(d) <==> makers@.contains_key(d) && makers@[d]@.round < floor by {
            lemma_marked_all(makers.entries(), bad, d);
        }
    }
    late
}

/// The views of slots below `floor` for which timeouts are kept.
pub fn stale_rounds(makers: &KeyMap<Round, TCMaker>, floor: Slot) -> (past: Vec<Round>)
    ensures
        forall|r: Round| past@.contains(r) <==> makers@.contains_key(r) && r.slot < floor,
{
    let ghost bad = |r: Round, m: TCMaker| r.slot < floor;
    let mut past: Vec<Round> = Vec::new();
    let n = makers.len();
    let mut i: usize = 0;
    while i < n
        invariant
            i <= n,
            n == makers.entries().len(),
            bad == (|r: Round, m: TCMaker| r.slot < floor),
            forall|r: Round| past@.contains(r) <==> marked(makers.entries(), i as int, bad, r),
        decreases n - i,
    {
        let k = makers.key_at(i);
        let ghost before = past@;
        let stale = k.slot < floor;
        if stale {
            past.push(k);
        }
        proof {
            assert forall|r: Round| past@.contains(r) <==> marked(
                makers.entries(),
                i + 1,
                bad,
                r,
            ) by {
                lemma_marked_next(makers.entries(), i as int, bad, r);
                if stale {
                    if before.contains(r) {
                        let j = choose|j: int| 0 <= j < before.len() && before[j] == r;
                        assert(past@[j] == r);
                    }
                    if r == k {
                        assert(past@[before.len() as int] == r);
                    }
                    if past@.contains(r) {
                        let j = choose|j: int| 0 <= j < past@.len() && past@[j] == r;
                        if j < before.len() {
                            assert(before[j] == r);
                        }
                    }
                }
            }
        }
        i += 1;
    }
    proof {
        assert forall|r: Round| past@.contains(r) <==> makers@.contains_key(r) && r.slot < floor by {
            lemma_marked_all(makers.entries(), bad, r);
        }
    }
    past
}

/// Whether `entry`, a proposal of now, lies above what the ticket lists for
/// the same author.
pub fn is_newer(ticket: &Proposals, entry: &(PublicKey, Proposal)) -> (r: bool)
    ensures
        r == covers(ticket@, *entry),
{
    match find_key(ticket, &entry.0) {
        Some(j) => entry.1.height > ticket[j].1.height,
        None => false,
    }
}

/// How many replicas listed in `current` have moved on from what the ticket
/// lists, each counted once.
pub fn count_newer(ticket: &Proposals, current: &Proposals) -> (count: usize)
    ensures
        count == newer_count(ticket@, current@, current@.len() as int),
{
    let mut count: usize = 0;
    let mut i: usize = 0;
    while i < current.len()
        invariant
            i <= current.len(),
            count <= i,
            count == newer_count(ticket@, current@, i as int),
        decreases current.len() - i,
    {
        let first = match find_key(current, &current[i].0) {
            Some(f) => f == i,
            None => false,
        };
        if first && is_newer(ticket, &current[i]) {
            count += 1;
        }
        i += 1;
    }
    count
}

/// Of the timeouts that carry a certificate for `slot` the first whose
/// certificate has the highest view.
pub fn highest_qc(timeouts: &Vec<Timeout>, slot: Slot) -> (r: Option<usize>)
    ensures
        r is Some == best_high_qc(timeouts_view(timeouts@), slot, timeouts@.len() as int) is Some,
        r matches Some(b) ==> b < timeouts.len() && timeouts@[b as int].high_qc is Some
            && best_high_qc(timeouts_view(timeouts@), slot, timeouts@.len() as int) == Some(
            timeouts@[b as int].high_qc->0@,
        ),
{
    let mut best: Option<usize> = None;
    let mut i: usize = 0;
    while i < timeouts.len()
        invariant
            i <= timeouts.len(),
            best is Some == best_high_qc(timeouts_view(timeouts@), slot, i as int) is Some,
            best matches Some(b) ==> b < i && timeouts@[b as int].high_qc is Some && best_high_qc(
                timeouts_view(timeouts@),
                slot,
                i as int,
            ) == Some(timeouts@[b as int].high_qc->0@),
        decreases timeouts.len() - i,
    {
        proof {
            assert(timeouts_view(timeouts@)[i as int] == timeouts@[i as int]@);
        }
        match &timeouts[i].high_qc {
            None => {},
            Some(h) => {
                if h.slot == slot {
                    match best {
                        None => {
                            best = Some(i);
                        },
                        Some(b) => {
                            let better = match &timeouts[b].high_qc {
                                Some(old) => h.view > old.view,
                                None => false,
                            };
                            if better {
                                best = Some(i);
                            }
                        },
                    }
                }
            },
        }
        i += 1;
    }
    best
}

/// The message that follows `message` once `qc` has formed over it.
pub fn follow(message: &ConsensusMessage, qc: QC, leader: PublicKey, tip: Proposal) -> (r: Option<
    ConsensusMessage,
>)
    ensures
        opt_view(r) == next_message(message@, qc@, leader, tip),
{
    match message {
        ConsensusMessage::Prepare { slot, view, ticket: _, proposals } => {
            let mut extended = copy_list(proposals);
            upsert_entry(&mut extended, leader, tip);
            Some(ConsensusMessage::Confirm { slot: *slot, view: *view, qc, proposals: extended })
        },
        ConsensusMessage::Confirm { slot, view, qc: _, proposals } => Some(
            ConsensusMessage::Commit {
                slot: *slot,
                view: *view,
                qc,
                proposals: copy_list(proposals),
            },
        ),
        ConsensusMessage::Commit { .. } => None,
    }
}

/// The position of the consensus message with the digest `digest`.
pub fn find_instance(instances: &Vec<(Digest, ConsensusMessage)>, digest: &Digest) -> (r: Option<
    usize,
>)
    ensures
        r is Some == has_key(instances_view(instances@), *digest),
        r matches Some(i) ==> i < instances.len() && as_map(instances_view(instances@))[*digest]
            == instances@[i as int].1@,
{
    proof {
        lemma_instances_keys(instances@, *digest);
    }
    find_key(instances, digest)
}

/// What becomes of a quorum certificate over `digest`, where `header` is the
/// header that collects votes.
pub fn succeed(header: &Option<Header>, name: PublicKey, digest: &Digest, qc: QC) -> (r: Option<
    Vec<Action>,
>)
    ensures
        r is Some == successor_of(opt_view(*header), name, *digest, qc@) is Some,
        r matches Some(a) ==> actions_view(a@) == successor_of(
            opt_view(*header),
            name,
            *digest,
            qc@,
        )->0,
{
    match header {
        None => None,
        Some(h) => {
            match find_instance(&h.consensus_instances, digest) {
                None => None,
                Some(i) => {
                    let mut actions: Vec<Action> = Vec::new();
                    assert(actions_view(actions@) =~= Seq::empty());
                    let tip = Proposal { header_digest: h.id, height: h.height };
                    match follow(&h.consensus_instances[i].1, qc, name, tip) {
                        Some(m) => {
                            emit(&mut actions, Action::Propose(m));
                        },
                        None => {},
                    }
                    Some(actions)
                },
            }
        },
    }
}

/// The keys of the consensus messages of a header are those of their models.
proof fn lemma_instances_keys(s: Seq<(Digest, ConsensusMessage)>, digest: Digest)
    ensures
        has_key(instances_view(s), digest) == has_key(s, digest),
        has_key(s, digest) ==> first_at(instances_view(s), digest) == first_at(s, digest) && as_map(
            instances_view(s),
        )[digest] == s[first_at(s, digest)].1@,
{
    let v = instances_view(s);
    if has_key(v, digest) {
        let j = choose|j: int| 0 <= j < v.len() && #[trigger] v[j].0 == digest;
        assert(s[j].0 == digest);
    }
    if has_key(s, digest) {
        lemma_first_at(s, digest);
        let i = first_at(s, digest);
        assert(v[i].0 == digest);
        assert forall|j: int| 0 <= j < i implies #[trigger] v[j].0 != v[i].0 by {
            assert(s[j].0 != digest);
        }
        lemma_as_map_at(v, i);
    }
}

/// Once a signature has given an error, the rest of the run changes nothing.
proof fn lemma_shares_stop(
    s: State,
    voter: PublicKey,
    sigs: Seq<(Digest, Signature)>,
    n: int,
    m: int,
)
    requires
        n <= m,
        s.shares_step(voter, sigs, n).2 is Some || n == m,
    ensures
        s.shares_step(voter, sigs, m) == s.shares_step(voter, sigs, n),
    decreases m - n,
{
    if n < m {
        lemma_shares_stop(s, voter, sigs, n, m - 1);
    }
}

/// Asks for what the proposals of the consensus message `instance` point to.
pub fn sync_proposals(proposals: &Proposals, instance: Digest, actions: &mut Vec<Action>)
    ensures
        actions_view(final(actions)@) == actions_view(old(actions)@) + sync_actions(
            proposals@,
            instance,
        ),
{
    let mut i: usize = 0;
    while i < proposals.len()
        invariant
            i <= proposals.len(),
            actions_view(actions@) == actions_view(old(actions)@) + sync_actions(
                proposals@.take(i as int),
                instance,
            ),
        decreases proposals.len() - i,
    {
        emit(
            actions,
            Action::SyncProposal { author: proposals[i].0, proposal: proposals[i].1, instance },
        );
        proof {
            assert(sync_actions(proposals@.take(i + 1), instance) =~= sync_actions(
                proposals@.take(i as int),
                instance,
            ).push(
                ActionView::SyncProposal {
                    author: proposals@[i as int].0,
                    proposal: proposals@[i as int].1,
                    instance,
                },
            ));
        }
        i += 1;
    }
    proof {
        assert(proposals@.take(proposals@.len() as int) =~= proposals@);
    }
}

} // verus!
