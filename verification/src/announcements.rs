use vstd::prelude::*;
use crate::actions::ActionView;
use crate::aggregators::{QCMakerView, TCMakerView};
use crate::events::EventView;
use crate::history::Input;
use crate::keys::{Ballot, Digest, PublicKey, Round, Signature};
use crate::messages::{CertificateView, HeaderView, MessageView, TCView, TimeoutView, VoteView};
use crate::protocol::{sync_actions, State};
use crate::standing::{law_standing, plain};

verus! {

/// Whether `a` hands the proposer a message that carries a quorum
/// certificate over `d`.
pub open spec fn announces(a: ActionView, d: Digest) -> bool {
    match a {
        ActionView::Propose(MessageView::Confirm { qc, .. }) => qc.digest == d,
        ActionView::Propose(MessageView::Commit { qc, .. }) => qc.digest == d,
        _ => false,
    }
}

/// How many of `a` announce a quorum certificate over `d`.
pub open spec fn announced(a: Seq<ActionView>, d: Digest) -> nat
    decreases a.len(),
{
    if a.len() == 0 {
        0
    } else {
        announced(a.drop_last(), d) + if announces(a.last(), d) {
            1nat
        } else {
            0nat
        }
    }
}

/// Actions among which no quorum certificate is announced.
pub open spec fn silent(a: Seq<ActionView>) -> bool {
    forall|i: int|
        0 <= i < a.len() ==> !((#[trigger] a[i]) matches ActionView::Propose(
            MessageView::Confirm { .. },
        )) && !(a[i] matches ActionView::Propose(MessageView::Commit { .. }))
}

/// Whether the votes over `d` are closed: the certificate has been handed
/// out.
pub open spec fn closed(s: State, d: Digest) -> bool {
    s.qc_makers.contains_key(d) && s.qc_makers[d].closed
}

proof fn lemma_silent_add(a: Seq<ActionView>, b: Seq<ActionView>)
    requires
        silent(a),
        silent(b),
    ensures
        silent(a + b),
{
    assert forall|i: int| 0 <= i < (a + b).len() implies !((#[trigger] (a + b)[i])
        matches ActionView::Propose(MessageView::Confirm { .. })) && !((a + b)[i]
        matches ActionView::Propose(MessageView::Commit { .. })) by {
        if i < a.len() {
            assert((a + b)[i] == a[i]);
        } else {
            assert((a + b)[i] == b[i - a.len()]);
        }
    }
}

proof fn lemma_silent_none(a: Seq<ActionView>, d: Digest)
    requires
        silent(a),
    ensures
        announced(a, d) == 0,
    decreases a.len(),
{
    if a.len() > 0 {
        assert forall|i: int| 0 <= i < a.drop_last().len() implies !((
        #[trigger] a.drop_last()[i]) matches ActionView::Propose(MessageView::Confirm { .. })) && !(
        a.drop_last()[i] matches ActionView::Propose(MessageView::Commit { .. })) by {
            assert(a.drop_last()[i] == a[i]);
        }
        lemma_silent_none(a.drop_last(), d);
        assert(a.last() == a[a.len() - 1]);
    }
}

proof fn lemma_announced_add(a: Seq<ActionView>, c: Seq<ActionView>, d: Digest)
    ensures
        announced(a + c, d) == announced(a, d) + announced(c, d),
    decreases c.len(),
{
    if c.len() == 0 {
        assert(a + c =~= a);
    } else {
        assert((a + c).drop_last() =~= a + c.drop_last());
        assert((a + c).last() == c.last());
        lemma_announced_add(a, c.drop_last(), d);
    }
}

proof fn lemma_plain_silent(a: Seq<ActionView>)
    requires
        plain(a),
    ensures
        silent(a),
{
}

proof fn lemma_ticket(s: State)
    ensures
        s.ticket_step().0.qc_makers == s.qc_makers,
        silent(s.ticket_step().1),
{
}

proof fn lemma_certificate(s: State, c: CertificateView)
    ensures
        s.certificate_step(c).0.qc_makers == s.qc_makers,
        silent(s.certificate_step(c).1),
{
    let first = if c.origin == s.name {
        seq![ActionView::StoreCertificate(c), ActionView::DeliverCertificate(c)]
    } else {
        seq![ActionView::StoreCertificate(c)]
    };
    assert(silent(first));
    if c.height > s.cert_height(c.origin) {
        let s1 = State { current_certs: s.current_certs.insert(c.origin, c), ..s };
        lemma_ticket(s1);
        lemma_silent_add(first, s1.ticket_step().1);
    }
}

proof fn lemma_instance(s: State, header_id: Digest, digest: Digest, m: MessageView)
    ensures
        s.instance_step(header_id, digest, m).0.qc_makers == s.qc_makers,
        silent(s.instance_step(header_id, digest, m).1),
{
    if s.is_valid(m) {
        assert(silent(sync_actions(m.proposals(), digest)));
        match m {
            MessageView::Prepare { slot, view, ticket, proposals } => {
                assert(silent(s.prepare_step(header_id, slot, proposals).1));
                lemma_silent_add(
                    sync_actions(proposals, digest),
                    s.prepare_step(header_id, slot, proposals).1,
                );
            },
            MessageView::Confirm { .. } => {},
            MessageView::Commit { slot, view, qc, proposals } => {
                lemma_silent_add(sync_actions(proposals, digest), seq![ActionView::ResolveCommit(m)]);
                assert(sync_actions(proposals, digest).push(ActionView::ResolveCommit(m))
                    =~= sync_actions(proposals, digest) + seq![ActionView::ResolveCommit(m)]);
            },
        }
    }
}

proof fn lemma_instances(s: State, header_id: Digest, instances: Seq<(Digest, MessageView)>, n: int)
    ensures
        s.instances_step(header_id, instances, n).0.qc_makers == s.qc_makers,
        silent(s.instances_step(header_id, instances, n).1),
    decreases n,
{
    if n > 0 {
        lemma_instances(s, header_id, instances, n - 1);
        let (s1, a1, d1) = s.instances_step(header_id, instances, n - 1);
        lemma_instance(s1, header_id, instances[n - 1].0, instances[n - 1].1);
        let (s2, a2, d2) = s1.instance_step(header_id, instances[n - 1].0, instances[n - 1].1);
        lemma_silent_add(a1, a2);
    }
}

proof fn lemma_voting(s: State, h: HeaderView)
    ensures
        s.voting_step(h).0.qc_makers == s.qc_makers,
        silent(s.voting_step(h).1),
{
    let ballot = Ballot { height: h.height, author: h.author };
    if !s.last_voted.contains(ballot) {
        let s0 = State { last_voted: s.last_voted.insert(ballot), ..s };
        let n = h.consensus_instances.len() as int;
        lemma_instances(s0, h.id, h.consensus_instances, n);
        let (s1, a1, signed) = s0.instances_step(h.id, h.consensus_instances, n);
        let vote = seq![
            ActionView::CastVote {
                header: h.id,
                height: h.height,
                origin: h.author,
                instances: signed,
                own: h.author == s.name,
            },
        ];
        lemma_silent_add(a1, vote);
        assert(s.voting_step(h).1 =~= a1 + vote);
    }
}

proof fn lemma_header(
    s: State,
    h: HeaderView,
    digest: Digest,
    payload_missing: bool,
    parent_missing: bool,
)
    ensures
        s.header_step(h, digest, payload_missing, parent_missing).0.qc_makers == s.qc_makers,
        silent(s.header_step(h, digest, payload_missing, parent_missing).1),
{
    if s.header_verdict(h, digest) is Ok && !payload_missing && !parent_missing {
        let s1 = s.tip_step(h);
        lemma_certificate(s1, h.parent_cert);
        let (s2, a2) = s1.certificate_step(h.parent_cert);
        lemma_voting(s2, h);
        let (s3, a3) = s2.voting_step(h);
        let first = seq![ActionView::StoreHeader { id: h.id }];
        lemma_silent_add(first, a2);
        lemma_silent_add(first + a2, a3);
    }
}

proof fn lemma_leader(s: State, tc: TCView)
    requires
        tc.view < u64::MAX,
    ensures
        s.leader_step(tc).0.qc_makers == s.qc_makers,
        silent(s.leader_step(tc).1),
{
}

proof fn lemma_advance(s: State, tc: TCView)
    ensures
        s.advance_step(tc).0.qc_makers == s.qc_makers,
        silent(s.advance_step(tc).1),
{
    if tc.view < u64::MAX {
        let s1 = State { views: s.views.insert(tc.slot, (tc.view + 1) as u64), ..s };
        let a1 = seq![
            ActionView::ArmTimer {
                slot: tc.slot,
                view: (tc.view + 1) as u64,
                delay: s.timeout_delay,
            },
            ActionView::BroadcastTC(tc),
        ];
        assert(silent(a1));
        if s1.leads(tc.slot, (tc.view + 1) as u64) {
            lemma_leader(s1, tc);
            lemma_silent_add(a1, s1.leader_step(tc).1);
        }
    }
}

proof fn lemma_timeout(s: State, t: TimeoutView, digest: Digest)
    ensures
        s.timeout_step(t, digest).0.qc_makers == s.qc_makers,
        silent(s.timeout_step(t, digest).1),
{
    if t.view >= s.current_view(t.slot) && t.verdict(digest, s.members) is Ok {
        let round = Round { slot: t.slot, view: t.view };
        let maker = if s.tc_makers.contains_key(round) {
            s.tc_makers[round]
        } else {
            TCMakerView::fresh(round)
        };
        let (maker2, out) = maker.append(s.members, t);
        let s1 = State { tc_makers: s.tc_makers.insert(round, maker2), ..s };
        match out {
            Ok(Some(tc)) => {
                lemma_advance(s1, tc);
            },
            _ => {},
        }
    }
}

/// What a quorum certificate over `digest` sets off is at most one message,
/// and that message carries the certificate.
proof fn lemma_successor(s: State, digest: Digest, qc: crate::messages::QCView, d: Digest)
    requires
        qc.digest == digest,
    ensures
        s.successor(digest, qc) matches Some(a) ==> announced(a, d) <= 1 && (d != digest
            ==> announced(a, d) == 0),
{
    match s.successor(digest, qc) {
        Some(a) => {
            if a.len() > 0 {
                assert(a.len() == 1);
                assert(a.drop_last() =~= Seq::<ActionView>::empty());
                assert(announced(a.drop_last(), d) == 0);
            }
        },
        None => {},
    }
}

proof fn lemma_share(s: State, voter: PublicKey, digest: Digest, signature: Signature, d: Digest)
    requires
        s.in_good_standing(),
    ensures
        announced(s.share_step(voter, digest, signature).1, d) <= 1,
        closed(s, d) ==> announced(s.share_step(voter, digest, signature).1, d) == 0 && closed(
            s.share_step(voter, digest, signature).0,
            d,
        ),
        announced(s.share_step(voter, digest, signature).1, d) == 1 ==> closed(
            s.share_step(voter, digest, signature).0,
            d,
        ),
{
    let maker = if s.qc_makers.contains_key(digest) {
        s.qc_makers[digest]
    } else {
        QCMakerView::fresh(digest, s.header_height())
    };
    let (maker2, out) = maker.append(s.members, voter, signature);
    let (t, a, e) = s.share_step(voter, digest, signature);
    match out {
        Ok(Some(qc)) => {
            lemma_successor(s, digest, qc, d);
            if s.successor(digest, qc) is None {
                assert(announced(a, d) == 0);
            }
        },
        _ => {
            assert(announced(a, d) == 0);
        },
    }
}

proof fn lemma_shares(s: State, voter: PublicKey, sigs: Seq<(Digest, Signature)>, n: int, d: Digest)
    requires
        s.in_good_standing(),
    ensures
        announced(s.shares_step(voter, sigs, n).1, d) <= 1,
        closed(s, d) ==> announced(s.shares_step(voter, sigs, n).1, d) == 0 && closed(
            s.shares_step(voter, sigs, n).0,
            d,
        ),
        announced(s.shares_step(voter, sigs, n).1, d) == 1 ==> closed(
            s.shares_step(voter, sigs, n).0,
            d,
        ),
        s.shares_step(voter, sigs, n).0.in_good_standing(),
    decreases n,
{
    if n > 0 {
        lemma_shares(s, voter, sigs, n - 1, d);
        let (s1, a1, e1) = s.shares_step(voter, sigs, n - 1);
        if e1 is None {
            lemma_share(s1, voter, sigs[n - 1].0, sigs[n - 1].1, d);
            crate::standing::law_share_standing(s1, voter, sigs[n - 1].0, sigs[n - 1].1);
            let (s2, a2, e2) = s1.share_step(voter, sigs[n - 1].0, sigs[n - 1].1);
            lemma_announced_add(a1, a2, d);
        }
    } else {
        assert(announced(Seq::<ActionView>::empty(), d) == 0);
    }
}

proof fn lemma_tally(s: State, v: VoteView, h: HeaderView)
    ensures
        s.tally_step(v, h).0.qc_makers == s.qc_makers,
        silent(s.tally_step(v, h).1),
{
    let (aggregator, out) = s.votes_aggregator.append(s.members, v, h);
    let s1 = State { votes_aggregator: aggregator, ..s };
    if out is Ok {
        let newly = out->Ok_0;
        let formed = if newly is Some {
            newly
        } else {
            s1.formed
        };
        if formed is Some && (h.consensus_instances.len() == 0 || s1.qcs_formed
            == h.consensus_instances.len()) {
            lemma_certificate(State { formed: None, qcs_formed: 0, ..s1 }, formed->0);
        }
    }
}

proof fn lemma_vote(s: State, v: VoteView, d: Digest)
    requires
        s.in_good_standing(),
    ensures
        announced(s.vote_step(v).1, d) <= 1,
        closed(s, d) ==> announced(s.vote_step(v).1, d) == 0 && closed(s.vote_step(v).0, d),
        announced(s.vote_step(v).1, d) == 1 ==> closed(s.vote_step(v).0, d),
{
    assert(announced(Seq::<ActionView>::empty(), d) == 0);
    if s.current_header is Some {
        let h = s.current_header->0;
        let n = v.consensus_sigs.len() as int;
        lemma_shares(s, v.author, v.consensus_sigs, n, d);
        let (s1, a1, e1) = s.shares_step(v.author, v.consensus_sigs, n);
        if e1 is None {
            lemma_tally(s1, v, h);
            let (s2, a2, e2) = s1.tally_step(v, h);
            lemma_silent_none(a2, d);
            lemma_announced_add(a1, a2, d);
        }
    }
}

/// What one event does about the quorum certificate over one digest: at
/// most one message announces it; none where the certificate over that
/// digest was handed out before; and where one does, the votes over the
/// digest are closed from then on.
pub proof fn law_event_announces(s: State, e: EventView, d: Digest)
    requires
        s.in_good_standing(),
    ensures
        announced(s.event_step(e).1, d) <= 1,
        closed(s, d) ==> announced(s.event_step(e).1, d) == 0 && closed(s.event_step(e).0, d),
        announced(s.event_step(e).1, d) == 1 ==> closed(s.event_step(e).0, d),
{
    let a = s.event_step(e).1;
    match e {
        EventView::Header { header, digest, payload_missing, parent_missing } => {
            lemma_header(s, header, digest, payload_missing, parent_missing);
            lemma_silent_none(a, d);
        },
        EventView::OwnHeader { header, digest, payload_missing, parent_missing } => {
            let s0 = State {
                current_header: Some(header),
                votes_aggregator: crate::aggregators::VotesAggregatorView::fresh(),
                formed: None,
                qcs_formed: 0,
                ..s
            };
            lemma_header(s0, header, digest, payload_missing, parent_missing);
            let first = seq![ActionView::BroadcastHeader { id: header.id, height: header.height }];
            lemma_silent_add(
                first,
                s0.header_step(header, digest, payload_missing, parent_missing).1,
            );
            lemma_silent_none(a, d);
        },
        EventView::Vote(v) => {
            lemma_vote(s, v, d);
            assert(announced(Seq::<ActionView>::empty(), d) == 0);
        },
        EventView::OwnVote(v) => {
            lemma_vote(s, v, d);
        },
        EventView::Certificate(c) => {
            lemma_certificate(s, c);
            lemma_silent_none(a, d);
        },
        EventView::Timeout { timeout, digest } => {
            lemma_timeout(s, timeout, digest);
            lemma_silent_none(a, d);
        },
        EventView::OwnTimeout { timeout, digest } => {
            lemma_timeout(s, timeout, digest);
            lemma_silent_add(
                seq![ActionView::BroadcastTimeout(timeout)],
                s.timeout_step(timeout, digest).1,
            );
            lemma_silent_none(a, d);
        },
        EventView::TimeoutCertificate(tc) => {
            if tc.view < u64::MAX {
                lemma_leader(s, tc);
            }
            lemma_silent_none(a, d);
        },
        EventView::Timer { .. } => {
            lemma_silent_none(a, d);
        },
        EventView::Loopback { .. } => {
            lemma_silent_none(a, d);
        },
        EventView::CommitResolved { .. } => {
            lemma_silent_none(a, d);
        },
    }
}

/// Once the certificate over a digest has been handed out, a further
/// signature over that digest does nothing: no message goes out, and the
/// count of certificates formed does not grow.
pub proof fn law_closed_share_is_idle(s: State, voter: PublicKey, digest: Digest, signature: Signature)
    requires
        closed(s, digest),
    ensures
        s.share_step(voter, digest, signature) == (s, Seq::<ActionView>::empty(), None::<
            crate::error::DagError,
        >),
{
    assert(s.qc_makers.insert(digest, s.qc_makers[digest]) =~= s.qc_makers);
}

/// Whether the first `n` of `inputs` are events: no round is read.
pub open spec fn eventful(inputs: Seq<Input>, n: int) -> bool {
    forall|k: int| 0 <= k < n ==> (#[trigger] inputs[k]) is Event
}

/// Between two collections of garbage at most one quorum certificate over
/// one digest is ever announced, whatever votes, headers and timeouts
/// arrive, and whichever header collects votes; and once it has been, the
/// votes over the digest stay closed.
pub proof fn law_one_certificate_per_digest(s: State, inputs: Seq<Input>, n: int, d: Digest)
    requires
        s.in_good_standing(),
        0 <= n <= inputs.len(),
        eventful(inputs, n),
    ensures
        s.history(inputs, n).0.in_good_standing(),
        announced(s.history(inputs, n).1, d) <= 1,
        closed(s, d) ==> announced(s.history(inputs, n).1, d) == 0,
        announced(s.history(inputs, n).1, d) == 1 || closed(s, d) ==> closed(
            s.history(inputs, n).0,
            d,
        ),
    decreases n,
{
    if n > 0 {
        law_one_certificate_per_digest(s, inputs, n - 1, d);
        let (s1, a1) = s.history(inputs, n - 1);
        let e = inputs[n - 1]->Event_0;
        law_standing(s1, e, 0);
        law_event_announces(s1, e, d);
        lemma_announced_add(a1, s1.event_step(e).1, d);
    } else {
        assert(announced(Seq::<ActionView>::empty(), d) == 0);
    }
}

} // verus!
