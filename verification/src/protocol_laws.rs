use vstd::prelude::*;
use crate::actions::ActionView;
use crate::events::EventView;
use crate::keys::{Ballot, Digest, Height, PublicKey, Round, Signature, Slot, Stake};
use crate::messages::{
    CertificateView, HeaderView, MessageView, Proposal, QCView, TCView, TimeoutView, VoteView,
};
use crate::protocol::{enough_coverage, sync_actions, State};
use crate::validity::{validity_of, votes_verdict};

verus! {

/// The coverage rule on one action: a Prepare for the slot after its
/// ticket's slot is proposed only with proposals that cover the ticket.
pub open spec fn gated(members: Seq<(PublicKey, Stake)>, a: ActionView) -> bool {
    a matches ActionView::Propose(MessageView::Prepare { slot, ticket, proposals, .. }) ==> (slot
        == ticket.slot + 1 ==> enough_coverage(members, ticket.proposals, proposals))
}

/// Actions among which no vote is cast and no header stored, and which all
/// respect the coverage rule.
pub open spec fn quiet(members: Seq<(PublicKey, Stake)>, a: Seq<ActionView>) -> bool {
    forall|i: int|
        0 <= i < a.len() ==> !((#[trigger] a[i]) is CastVote) && !(a[i] is StoreHeader) && gated(
            members,
            a[i],
        )
}

/// What every step keeps: who the replica is, the committee, the
/// parameters and the garbage-collection round stay; what was voted for
/// stays voted for; and no slot falls back to an earlier view.
pub open spec fn grows(s: State, t: State) -> bool {
    &&& t.name == s.name
    &&& t.members == s.members
    &&& t.gc_depth == s.gc_depth
    &&& t.gc_round == s.gc_round
    &&& t.timeout_delay == s.timeout_delay
    &&& s.last_voted.subset_of(t.last_voted)
    &&& s.last_voted_consensus.subset_of(t.last_voted_consensus)
    &&& forall|slot: Slot| t.current_view(slot) >= s.current_view(slot)
}

/// `grows` with, in addition, the same headers voted for and the same header
/// collecting votes.
pub open spec fn settled(s: State, t: State) -> bool {
    &&& grows(s, t)
    &&& t.last_voted == s.last_voted
    &&& t.current_header == s.current_header
}

proof fn lemma_quiet_add(members: Seq<(PublicKey, Stake)>, a: Seq<ActionView>, b: Seq<ActionView>)
    requires
        quiet(members, a),
        quiet(members, b),
    ensures
        quiet(members, a + b),
{
    assert forall|i: int| 0 <= i < (a + b).len() implies !((#[trigger] (a + b)[i]) is CastVote)
        && !((a + b)[i] is StoreHeader) && gated(members, (a + b)[i]) by {
        if i < a.len() {
            assert((a + b)[i] == a[i]);
        } else {
            assert((a + b)[i] == b[i - a.len()]);
        }
    }
}

proof fn lemma_ticket(s: State)
    ensures
        settled(s, s.ticket_step().0),
        quiet(s.members, s.ticket_step().1),
{
}

proof fn lemma_certificate(s: State, c: CertificateView)
    ensures
        settled(s, s.certificate_step(c).0),
        quiet(s.members, s.certificate_step(c).1),
{
    if c.height > s.cert_height(c.origin) {
        let s1 = State { current_certs: s.current_certs.insert(c.origin, c), ..s };
        lemma_ticket(s1);
        let first = if c.origin == s.name {
            seq![ActionView::StoreCertificate(c), ActionView::DeliverCertificate(c)]
        } else {
            seq![ActionView::StoreCertificate(c)]
        };
        lemma_quiet_add(s.members, first, s1.ticket_step().1);
    }
}

proof fn lemma_prepare(s: State, header_id: Digest, slot: Slot, proposals: Seq<(PublicKey, Proposal)>)
    ensures
        settled(s, s.prepare_step(header_id, slot, proposals).0),
        quiet(s.members, s.prepare_step(header_id, slot, proposals).1),
{
}

proof fn lemma_sync(members: Seq<(PublicKey, Stake)>, proposals: Seq<(PublicKey, Proposal)>, d: Digest)
    ensures
        quiet(members, sync_actions(proposals, d)),
{
}

proof fn lemma_instance(s: State, header_id: Digest, digest: Digest, m: MessageView)
    ensures
        settled(s, s.instance_step(header_id, digest, m).0),
        quiet(s.members, s.instance_step(header_id, digest, m).1),
{
    if s.is_valid(m) {
        lemma_sync(s.members, m.proposals(), digest);
        match m {
            MessageView::Prepare { slot, view, ticket, proposals } => {
                lemma_prepare(s, header_id, slot, proposals);
                lemma_quiet_add(
                    s.members,
                    sync_actions(proposals, digest),
                    s.prepare_step(header_id, slot, proposals).1,
                );
            },
            MessageView::Confirm { .. } => {},
            MessageView::Commit { slot, view, qc, proposals } => {
                lemma_quiet_add(
                    s.members,
                    sync_actions(proposals, digest),
                    seq![ActionView::ResolveCommit(m)],
                );
                assert(sync_actions(proposals, digest).push(ActionView::ResolveCommit(m))
                    =~= sync_actions(proposals, digest) + seq![ActionView::ResolveCommit(m)]);
            },
        }
    }
}

proof fn lemma_instances(s: State, header_id: Digest, instances: Seq<(Digest, MessageView)>, n: int)
    ensures
        settled(s, s.instances_step(header_id, instances, n).0),
        quiet(s.members, s.instances_step(header_id, instances, n).1),
    decreases n,
{
    if n > 0 {
        lemma_instances(s, header_id, instances, n - 1);
        let (s1, a1, d1) = s.instances_step(header_id, instances, n - 1);
        lemma_instance(s1, header_id, instances[n - 1].0, instances[n - 1].1);
        let (s2, a2, d2) = s1.instance_step(header_id, instances[n - 1].0, instances[n - 1].1);
        lemma_quiet_add(s.members, a1, a2);
    }
}

/// A header is voted for at most once: the step that votes for a header
/// casts one vote, for a header that was not voted for before and is from
/// then on; where the header was voted for before, no vote is cast.
pub proof fn law_vote_once(s: State, h: HeaderView)
    ensures
        grows(s, s.voting_step(h).0),
        s.last_voted.contains(Ballot { height: h.height, author: h.author }) ==> s.voting_step(h).1
            == Seq::<ActionView>::empty() && s.voting_step(h).0 == s,
        !s.last_voted.contains(Ballot { height: h.height, author: h.author }) ==> {
            let (t, a) = s.voting_step(h);
            &&& t.last_voted == s.last_voted.insert(Ballot { height: h.height, author: h.author })
            &&& a.len() >= 1
            &&& a.last() matches ActionView::CastVote { header, height, origin, .. } && header
                == h.id && height == h.height && origin == h.author
            &&& quiet(s.members, a.drop_last())
        },
{
    let ballot = Ballot { height: h.height, author: h.author };
    if !s.last_voted.contains(ballot) {
        let s0 = State { last_voted: s.last_voted.insert(ballot), ..s };
        let n = h.consensus_instances.len() as int;
        lemma_instances(s0, h.id, h.consensus_instances, n);
        let (s1, a1, signed) = s0.instances_step(h.id, h.consensus_instances, n);
        let a = s.voting_step(h).1;
        assert(a.drop_last() =~= a1);
    }
}

/// What is stored was checked: a step stores a header only under the
/// content address of what it holds, and only where the header stands one
/// above its parent certificate and the parent certificate is that of
/// genesis or carries valid votes of the validity threshold; and it votes
/// only for what it stores.
pub proof fn law_parent_chain(
    s: State,
    h: HeaderView,
    digest: Digest,
    payload_missing: bool,
    parent_missing: bool,
)
    ensures
        ({
            let (t, a, e) = s.header_step(h, digest, payload_missing, parent_missing);
            &&& grows(s, t)
            &&& forall|i: int|
                0 <= i < a.len() ==> gated(s.members, #[trigger] a[i]) && (a[i] is StoreHeader
                    || a[i] is CastVote ==> {
                    &&& h.height >= s.gc_round
                    &&& h.parent_cert.height + 1 == h.height
                    &&& h.parent_cert.height == 0 || votes_verdict(
                        s.members,
                        h.parent_cert.votes,
                        h.parent_cert.header_id,
                        validity_of(s.members),
                    ) is Ok
                })
            &&& forall|i: int|
                0 <= i < a.len() ==> ((#[trigger] a[i]) matches ActionView::StoreHeader { id } ==> id
                    == h.id && id == digest)
            &&& forall|i: int, j: int|
                0 <= i < a.len() && 0 <= j < a.len() && (#[trigger] a[i]) is CastVote && (
                #[trigger] a[j]) is CastVote ==> i == j
            &&& forall|i: int|
                0 <= i < a.len() ==> ((#[trigger] a[i]) matches ActionView::CastVote {
                    header,
                    height,
                    origin,
                    ..
                } ==> header == h.id && height == h.height && origin == h.author
                    && !s.last_voted.contains(Ballot { height, author: origin })
                    && t.last_voted.contains(Ballot { height, author: origin }))
        }),
{
    if s.header_verdict(h, digest) is Ok && !payload_missing && !parent_missing {
        let s1 = s.tip_step(h);
        lemma_certificate(s1, h.parent_cert);
        let (s2, a2) = s1.certificate_step(h.parent_cert);
        law_vote_once(s2, h);
        let (s3, a3) = s2.voting_step(h);
        let first = seq![ActionView::StoreHeader { id: h.id }];
        let a = s.header_step(h, digest, payload_missing, parent_missing).1;
        assert(a == first + a2 + a3);
        let ballot = Ballot { height: h.height, author: h.author };
        assert forall|i: int| 0 <= i < a.len() implies gated(s.members, #[trigger] a[i]) && (
        a[i] is StoreHeader ==> i == 0) && (a[i] is CastVote ==> i == a.len() - 1
            && !s.last_voted.contains(ballot)) by {
            if i == 0 {
            } else if i < 1 + a2.len() {
                assert(a[i] == a2[i - 1]);
            } else {
                let k = i - 1 - a2.len();
                assert(a[i] == a3[k]);
                if k < a3.len() - 1 {
                    assert(a3.drop_last()[k] == a3[k]);
                }
            }
        }
    }
}

proof fn lemma_header(
    s: State,
    h: HeaderView,
    digest: Digest,
    payload_missing: bool,
    parent_missing: bool,
)
    ensures
        grows(s, s.header_step(h, digest, payload_missing, parent_missing).0),
        s.header_step(h, digest, payload_missing, parent_missing).0.current_header == s.current_header,
{
    law_parent_chain(s, h, digest, payload_missing, parent_missing);
    if s.header_verdict(h, digest) is Ok && !payload_missing && !parent_missing {
        let s1 = s.tip_step(h);
        lemma_certificate(s1, h.parent_cert);
        let (s2, a2) = s1.certificate_step(h.parent_cert);
        let ballot = Ballot { height: h.height, author: h.author };
        if !s2.last_voted.contains(ballot) {
            let s0 = State { last_voted: s2.last_voted.insert(ballot), ..s2 };
            lemma_instances(
                s0,
                h.id,
                h.consensus_instances,
                h.consensus_instances.len() as int,
            );
        }
    }
}

proof fn lemma_successor(s: State, digest: Digest, qc: QCView)
    ensures
        s.successor(digest, qc) matches Some(a) ==> quiet(s.members, a),
{
}

proof fn lemma_share(s: State, voter: PublicKey, digest: Digest, signature: Signature)
    ensures
        settled(s, s.share_step(voter, digest, signature).0),
        quiet(s.members, s.share_step(voter, digest, signature).1),
{
    let maker = if s.qc_makers.contains_key(digest) {
        s.qc_makers[digest]
    } else {
        crate::aggregators::QCMakerView::fresh(digest, s.header_height())
    };
    let (maker2, out) = maker.append(s.members, voter, signature);
    match out {
        Ok(Some(qc)) => {
            lemma_successor(s, digest, qc);
        },
        _ => {},
    }
}

proof fn lemma_shares(s: State, voter: PublicKey, sigs: Seq<(Digest, Signature)>, n: int)
    ensures
        settled(s, s.shares_step(voter, sigs, n).0),
        quiet(s.members, s.shares_step(voter, sigs, n).1),
    decreases n,
{
    if n > 0 {
        lemma_shares(s, voter, sigs, n - 1);
        let (s1, a1, e1) = s.shares_step(voter, sigs, n - 1);
        if e1 is None {
            lemma_share(s1, voter, sigs[n - 1].0, sigs[n - 1].1);
            let (s2, a2, e2) = s1.share_step(voter, sigs[n - 1].0, sigs[n - 1].1);
            lemma_quiet_add(s.members, a1, a2);
        }
    }
}

proof fn lemma_vote(s: State, v: VoteView)
    ensures
        settled(s, s.vote_step(v).0),
        quiet(s.members, s.vote_step(v).1),
{
    if s.current_header is Some {
        let h = s.current_header->0;
        let n = v.consensus_sigs.len() as int;
        lemma_shares(s, v.author, v.consensus_sigs, n);
        let (s1, a1, e1) = s.shares_step(v.author, v.consensus_sigs, n);
        if e1 is None {
            let (aggregator, out) = s1.votes_aggregator.append(s1.members, v, h);
            let s2 = State { votes_aggregator: aggregator, ..s1 };
            if out is Ok {
                let newly = out->Ok_0;
                let formed = if newly is Some {
                    newly
                } else {
                    s2.formed
                };
                if formed is Some && (h.consensus_instances.len() == 0 || s2.qcs_formed
                    == h.consensus_instances.len()) {
                    lemma_certificate(State { formed: None, qcs_formed: 0, ..s2 }, formed->0);
                }
            }
            let (s3, a3, e3) = s1.tally_step(v, h);
            lemma_quiet_add(s.members, a1, a3);
        }
    }
}

proof fn lemma_leader(s: State, tc: TCView)
    requires
        tc.view < u64::MAX,
    ensures
        settled(s, s.leader_step(tc).0),
        quiet(s.members, s.leader_step(tc).1),
{
}

/// A timeout certificate that has formed moves its slot to the view after
/// the certificate's, and only forward.
proof fn lemma_advance(s: State, tc: TCView)
    requires
        tc.view >= s.current_view(tc.slot),
    ensures
        settled(s, s.advance_step(tc).0),
        quiet(s.members, s.advance_step(tc).1),
        tc.view < u64::MAX ==> s.advance_step(tc).0.current_view(tc.slot) == tc.view + 1,
{
    if tc.view < u64::MAX {
        let s1 = State { views: s.views.insert(tc.slot, (tc.view + 1) as u64), ..s };
        assert forall|slot: Slot| s1.current_view(slot) >= s.current_view(slot) by {}
        lemma_leader(s1, tc);
        let a1 = seq![
            ActionView::ArmTimer {
                slot: tc.slot,
                view: (tc.view + 1) as u64,
                delay: s.timeout_delay,
            },
            ActionView::BroadcastTC(tc),
        ];
        lemma_quiet_add(s.members, a1, s1.leader_step(tc).1);
    }
}

proof fn lemma_timeout(s: State, t: TimeoutView, digest: Digest)
    ensures
        settled(s, s.timeout_step(t, digest).0),
        quiet(s.members, s.timeout_step(t, digest).1),
{
    if t.view >= s.current_view(t.slot) && t.verdict(digest, s.members) is Ok {
        let round = Round { slot: t.slot, view: t.view };
        let maker = if s.tc_makers.contains_key(round) {
            s.tc_makers[round]
        } else {
            crate::aggregators::TCMakerView::fresh(round)
        };
        let (maker2, out) = maker.append(s.members, t);
        let s1 = State { tc_makers: s.tc_makers.insert(round, maker2), ..s };
        match out {
            Ok(Some(tc)) => {
                lemma_advance(s1, tc);
            },
            _ => {},
        }
    }
}

/// Whatever the event, the replica stays who it is, what it has voted for
/// stays voted for, no slot falls back to an earlier view, every Prepare for
/// a next slot that goes to the proposer keeps the coverage rule, and
/// outside the taking in of a header no vote is cast and no header stored.
pub proof fn law_event(s: State, e: EventView)
    ensures
        grows(s, s.event_step(e).0),
        forall|slot: Slot| s.event_step(e).0.current_view(slot) >= s.current_view(slot),
        forall|i: int|
            0 <= i < s.event_step(e).1.len() ==> gated(s.members, #[trigger] s.event_step(e).1[i]),
        !(e is Header) && !(e is OwnHeader) ==> quiet(s.members, s.event_step(e).1),
{
    match e {
        EventView::Header { header, digest, payload_missing, parent_missing } => {
            law_parent_chain(s, header, digest, payload_missing, parent_missing);
        },
        EventView::OwnHeader { header, digest, payload_missing, parent_missing } => {
            let s0 = State {
                current_header: Some(header),
                votes_aggregator: crate::aggregators::VotesAggregatorView::fresh(),
                formed: None,
                qcs_formed: 0,
                ..s
            };
            law_parent_chain(s0, header, digest, payload_missing, parent_missing);
            let (s1, a1, e1) = s0.header_step(header, digest, payload_missing, parent_missing);
            let a = s.event_step(e).1;
            assert forall|i: int| 0 <= i < a.len() implies gated(s.members, #[trigger] a[i]) by {
                if i > 0 {
                    assert(a[i] == a1[i - 1]);
                }
            }
        },
        EventView::Vote(v) => {
            lemma_vote(s, v);
        },
        EventView::OwnVote(v) => {
            lemma_vote(s, v);
        },
        EventView::Certificate(c) => {
            lemma_certificate(s, c);
        },
        EventView::Timeout { timeout, digest } => {
            lemma_timeout(s, timeout, digest);
        },
        EventView::OwnTimeout { timeout, digest } => {
            lemma_timeout(s, timeout, digest);
            lemma_quiet_add(
                s.members,
                seq![ActionView::BroadcastTimeout(timeout)],
                s.timeout_step(timeout, digest).1,
            );
        },
        EventView::TimeoutCertificate(tc) => {
            if tc.view < u64::MAX {
                lemma_leader(s, tc);
            }
        },
        EventView::Timer { .. } => {},
        EventView::Loopback { .. } => {},
        EventView::CommitResolved { .. } => {},
    }
}

/// What is turned down leaves no trace: where a header, a vote, a
/// certificate or a timeout gives an error, the state stays as it was and
/// nothing is asked for. (A header or a timeout of the replica's own is sent
/// to the others before it is looked at.)
pub proof fn law_no_trace(s: State, e: EventView)
    requires
        e is Header || e is Vote || e is OwnVote || e is Certificate || e is Timeout,
        s.event_step(e).2 is Some,
    ensures
        s.event_step(e).0 == s,
        s.event_step(e).1 == Seq::<ActionView>::empty(),
{
}

/// A Prepare is signed at most once for each view of each slot: the step
/// that acts on a consensus message signs a Prepare only for a view in which
/// none was signed before, and marks the view as signed for.
pub proof fn law_prepare_once(s: State, header_id: Digest, digest: Digest, m: MessageView)
    ensures
        m is Prepare ==> {
            let round = Round { slot: m.slot(), view: m.view_number() };
            let (t, a, signed) = s.instance_step(header_id, digest, m);
            &&& s.last_voted_consensus.contains(round) ==> signed.len() == 0 && t == s
            &&& signed.len() > 0 ==> signed == seq![digest] && !s.last_voted_consensus.contains(
                round,
            ) && t.last_voted_consensus.contains(round) && m.view_number() == s.current_view(
                m.slot(),
            )
        },
        s.last_voted_consensus.subset_of(s.instance_step(header_id, digest, m).0.last_voted_consensus),
{
    lemma_instance(s, header_id, digest, m);
}

/// Garbage collection keeps what lies within its depth of the round of
/// consensus and nothing below: after it every vote kept is for a height of
/// at least `round - gc_depth`, the votes kept over consensus messages were
/// started at such a height, and the timeouts, the timer marks and the marks
/// of slots proposed for that are kept are for slots of at least that number. A ballot that is forgotten lies below the
/// new garbage-collection round, and headers below that round are turned
/// down. Where the round of consensus does not fall back, the
/// garbage-collection round does not either.
pub proof fn law_gc(
    s: State,
    round: Height,
    h: HeaderView,
    digest: Digest,
    payload_missing: bool,
    parent_missing: bool,
)
    ensures
        ({
            let (t, a) = s.gc_step(round);
            &&& t.name == s.name && t.members == s.members
            &&& t.last_voted.subset_of(s.last_voted)
            &&& t.last_voted_consensus == s.last_voted_consensus
            &&& t.views == s.views
            &&& quiet(s.members, a)
            &&& round > s.gc_depth ==> forall|b: Ballot|
                t.last_voted.contains(b) ==> b.height >= round - s.gc_depth
            &&& round > s.gc_depth ==> forall|d: Digest| #[trigger]
                t.qc_makers.contains_key(d) ==> t.qc_makers[d].round >= round - s.gc_depth
            &&& round > s.gc_depth ==> forall|r: Round| #[trigger]
                t.tc_makers.contains_key(r) ==> r.slot >= round - s.gc_depth
            &&& round > s.gc_depth ==> forall|r: Round|
                t.timers.contains(r) ==> r.slot >= round - s.gc_depth
            &&& round > s.gc_depth ==> forall|slot: Slot|
                t.already_proposed.contains(slot) ==> slot >= round - s.gc_depth
            &&& t.qc_makers.submap_of(s.qc_makers) && t.tc_makers.submap_of(s.tc_makers)
            &&& t.timers.subset_of(s.timers) && t.already_proposed.subset_of(s.already_proposed)
            &&& round > s.gc_depth ==> t.gc_round == round - s.gc_depth
            &&& forall|b: Ballot|
                s.last_voted.contains(b) && !t.last_voted.contains(b) ==> b.height < t.gc_round
            &&& round > s.gc_depth && round - s.gc_depth >= s.gc_round ==> t.gc_round >= s.gc_round
            &&& round <= s.gc_depth ==> t == s
            &&& h.height < t.gc_round ==> t.header_step(h, digest, payload_missing, parent_missing) == (
                t,
                Seq::<ActionView>::empty(),
                Some(crate::error::DagError::HeaderTooOld(h.id, h.height)),
            )
        }),
{
}

} // verus!
