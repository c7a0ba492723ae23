use vstd::prelude::*;
use crate::actions::ActionView;
use crate::aggregators::{authors, QCMakerView, TCMakerView};
use crate::events::EventView;
use crate::keys::{Digest, Height, PublicKey, Round, Signature, Stake};
use crate::messages::{CertificateView, HeaderView, MessageView, TCView, TimeoutView, VoteView};
use crate::protocol::{sync_actions, State};
use crate::quorum_laws::{
    law_certificate_sound, law_qc_sound, law_tc_sound, sound_timeouts, sound_votes,
};
use crate::validity::{quorum_of, validity_of, votes_verdict, weight};

verus! {

/// Whether the votes of a certificate hold: they are valid votes of distinct
/// members over the header's id, and reach the validity threshold.
pub open spec fn certificate_holds(members: Seq<(PublicKey, Stake)>, c: CertificateView) -> bool {
    votes_verdict(members, c.votes, c.header_id, validity_of(members)) is Ok
}

/// Whether what an action carries can be vouched for: a quorum certificate
/// that goes to the proposer with a Confirm or a Commit passes verification;
/// a timeout certificate that is sent out carries timeouts of distinct
/// members for its view, each signed, whose stake reaches the quorum; and a
/// certificate that is stored or handed to the proposer is that of genesis
/// height or holds.
pub open spec fn vouched(members: Seq<(PublicKey, Stake)>, a: ActionView) -> bool {
    match a {
        ActionView::Propose(MessageView::Confirm { qc, .. }) => qc.verdict(members) is Ok,
        ActionView::Propose(MessageView::Commit { qc, .. }) => qc.verdict(members) is Ok,
        ActionView::BroadcastTC(tc) => sound_timeouts(members, tc.timeouts, tc.slot, tc.view)
            && weight(members, authors(tc.timeouts)) >= quorum_of(members),
        ActionView::StoreCertificate(c) => c.height == 0 || certificate_holds(members, c),
        ActionView::DeliverCertificate(c) => c.height == 0 || certificate_holds(members, c),
        _ => true,
    }
}

/// Whether all of `a` can be vouched for.
pub open spec fn all_vouched(members: Seq<(PublicKey, Stake)>, a: Seq<ActionView>) -> bool {
    forall|i: int| 0 <= i < a.len() ==> vouched(members, #[trigger] a[i])
}

/// Actions that carry no certificate of any kind but what a Prepare holds.
pub open spec fn plain(a: Seq<ActionView>) -> bool {
    forall|i: int|
        0 <= i < a.len() ==> match #[trigger] a[i] {
            ActionView::Propose(MessageView::Prepare { .. }) => true,
            ActionView::Propose(_) => false,
            ActionView::BroadcastTC(_) => false,
            ActionView::StoreCertificate(_) => false,
            ActionView::DeliverCertificate(_) => false,
            _ => true,
        }
}

/// Whether a step left the votes that a primary gathers as they were.
pub open spec fn untouched(s: State, t: State) -> bool {
    &&& t.name == s.name
    &&& t.members == s.members
    &&& t.qc_makers == s.qc_makers
    &&& t.tc_makers == s.tc_makers
    &&& t.votes_aggregator == s.votes_aggregator
    &&& t.formed == s.formed
    &&& t.current_header == s.current_header
}

impl State {
    /// The standing of what a primary gathers: the votes kept over a
    /// consensus message are kept under its digest and are valid votes of
    /// distinct members over it; the timeouts kept for a view of a slot are
    /// valid timeouts of distinct members for it; the votes for the header
    /// that collects votes are valid votes of distinct members for it; and a
    /// certificate that has formed and waits is that header's and holds.
    pub open spec fn in_good_standing(self) -> bool {
        &&& forall|d: Digest| #[trigger]
            self.qc_makers.contains_key(d) ==> self.qc_makers[d].digest == d && sound_votes(
                self.members,
                self.qc_makers[d].votes,
                d,
            )
        &&& forall|r: Round| #[trigger]
            self.tc_makers.contains_key(r) ==> self.tc_makers[r].round == r && sound_timeouts(
                self.members,
                self.tc_makers[r].timeouts,
                r.slot,
                r.view,
            )
        &&& match self.current_header {
            Some(h) => sound_votes(self.members, self.votes_aggregator.votes, h.id) && (
            self.formed matches Some(c) ==> c.header_id == h.id && c.origin == h.author && c.height
                == h.height && certificate_holds(self.members, c)),
            None => self.formed is None,
        }
    }
}

proof fn lemma_vouched_add(members: Seq<(PublicKey, Stake)>, a: Seq<ActionView>, b: Seq<ActionView>)
    requires
        all_vouched(members, a),
        all_vouched(members, b),
    ensures
        all_vouched(members, a + b),
{
    assert forall|i: int| 0 <= i < (a + b).len() implies vouched(members, #[trigger] (a + b)[i]) by {
        if i < a.len() {
            assert((a + b)[i] == a[i]);
        } else {
            assert((a + b)[i] == b[i - a.len()]);
        }
    }
}

proof fn lemma_plain_add(a: Seq<ActionView>, b: Seq<ActionView>)
    requires
        plain(a),
        plain(b),
    ensures
        plain(a + b),
{
    assert forall|i: int| 0 <= i < (a + b).len() implies match #[trigger] (a + b)[i] {
        ActionView::Propose(MessageView::Prepare { .. }) => true,
        ActionView::Propose(_) => false,
        ActionView::BroadcastTC(_) => false,
        ActionView::StoreCertificate(_) => false,
        ActionView::DeliverCertificate(_) => false,
        _ => true,
    } by {
        if i < a.len() {
            assert((a + b)[i] == a[i]);
        } else {
            assert((a + b)[i] == b[i - a.len()]);
        }
    }
}

proof fn lemma_plain_vouched(members: Seq<(PublicKey, Stake)>, a: Seq<ActionView>)
    requires
        plain(a),
    ensures
        all_vouched(members, a),
{
}

proof fn lemma_ticket(s: State)
    ensures
        untouched(s, s.ticket_step().0),
        plain(s.ticket_step().1),
{
}

proof fn lemma_certificate(s: State, c: CertificateView)
    requires
        c.height == 0 || certificate_holds(s.members, c),
    ensures
        untouched(s, s.certificate_step(c).0),
        all_vouched(s.members, s.certificate_step(c).1),
{
    let first = if c.origin == s.name {
        seq![ActionView::StoreCertificate(c), ActionView::DeliverCertificate(c)]
    } else {
        seq![ActionView::StoreCertificate(c)]
    };
    assert(all_vouched(s.members, first));
    if c.height > s.cert_height(c.origin) {
        let s1 = State { current_certs: s.current_certs.insert(c.origin, c), ..s };
        lemma_ticket(s1);
        lemma_plain_vouched(s.members, s1.ticket_step().1);
        lemma_vouched_add(s.members, first, s1.ticket_step().1);
    }
}

proof fn lemma_instance(s: State, header_id: Digest, digest: Digest, m: MessageView)
    ensures
        untouched(s, s.instance_step(header_id, digest, m).0),
        plain(s.instance_step(header_id, digest, m).1),
{
    if s.is_valid(m) {
        assert(plain(sync_actions(m.proposals(), digest)));
        match m {
            MessageView::Prepare { slot, view, ticket, proposals } => {
                assert(plain(s.prepare_step(header_id, slot, proposals).1));
                lemma_plain_add(
                    sync_actions(proposals, digest),
                    s.prepare_step(header_id, slot, proposals).1,
                );
            },
            MessageView::Confirm { .. } => {},
            MessageView::Commit { slot, view, qc, proposals } => {
                lemma_plain_add(sync_actions(proposals, digest), seq![ActionView::ResolveCommit(m)]);
                assert(sync_actions(proposals, digest).push(ActionView::ResolveCommit(m))
                    =~= sync_actions(proposals, digest) + seq![ActionView::ResolveCommit(m)]);
            },
        }
    }
}

proof fn lemma_instances(s: State, header_id: Digest, instances: Seq<(Digest, MessageView)>, n: int)
    ensures
        untouched(s, s.instances_step(header_id, instances, n).0),
        plain(s.instances_step(header_id, instances, n).1),
    decreases n,
{
    if n > 0 {
        lemma_instances(s, header_id, instances, n - 1);
        let (s1, a1, d1) = s.instances_step(header_id, instances, n - 1);
        lemma_instance(s1, header_id, instances[n - 1].0, instances[n - 1].1);
        let (s2, a2, d2) = s1.instance_step(header_id, instances[n - 1].0, instances[n - 1].1);
        lemma_plain_add(a1, a2);
    }
}

proof fn lemma_header(
    s: State,
    h: HeaderView,
    digest: Digest,
    payload_missing: bool,
    parent_missing: bool,
)
    ensures
        untouched(s, s.header_step(h, digest, payload_missing, parent_missing).0),
        all_vouched(s.members, s.header_step(h, digest, payload_missing, parent_missing).1),
{
    if s.header_verdict(h, digest) is Ok && !payload_missing && !parent_missing {
        let s1 = s.tip_step(h);
        lemma_certificate(s1, h.parent_cert);
        let (s2, a2) = s1.certificate_step(h.parent_cert);
        let ballot = crate::keys::Ballot { height: h.height, author: h.author };
        let first = seq![ActionView::StoreHeader { id: h.id }];
        assert(all_vouched(s.members, first));
        lemma_vouched_add(s.members, first, a2);
        let (s3, a3) = s2.voting_step(h);
        if !s2.last_voted.contains(ballot) {
            let s0 = State { last_voted: s2.last_voted.insert(ballot), ..s2 };
            let n = h.consensus_instances.len() as int;
            lemma_instances(s0, h.id, h.consensus_instances, n);
            let (s4, a4, signed) = s0.instances_step(h.id, h.consensus_instances, n);
            let vote = seq![
                ActionView::CastVote {
                    header: h.id,
                    height: h.height,
                    origin: h.author,
                    instances: signed,
                    own: h.author == s2.name,
                },
            ];
            lemma_plain_add(a4, vote);
            assert(a3 =~= a4 + vote);
            lemma_plain_vouched(s.members, a3);
        }
        lemma_vouched_add(s.members, first + a2, a3);
    }
}

/// A signature over a consensus message keeps the standing, what it sets
/// off can be vouched for, and it changes nothing but the votes over
/// consensus messages.
pub proof fn law_share_standing(s: State, voter: PublicKey, digest: Digest, signature: Signature)
    requires
        s.in_good_standing(),
    ensures
        s.share_step(voter, digest, signature).0.in_good_standing(),
        all_vouched(s.members, s.share_step(voter, digest, signature).1),
        s.share_step(voter, digest, signature).0 == (State {
            qc_makers: s.share_step(voter, digest, signature).0.qc_makers,
            qcs_formed: s.share_step(voter, digest, signature).0.qcs_formed,
            ..s
        }),
{
    let maker = if s.qc_makers.contains_key(digest) {
        s.qc_makers[digest]
    } else {
        QCMakerView::fresh(digest, s.header_height())
    };
    law_qc_sound(maker, s.members, voter, signature);
    let (maker2, out) = maker.append(s.members, voter, signature);
    let t = s.share_step(voter, digest, signature).0;
    assert forall|d: Digest| #[trigger] t.qc_makers.contains_key(d) implies t.qc_makers[d].digest
        == d && sound_votes(t.members, t.qc_makers[d].votes, d) by {
        if d != digest {
            assert(s.qc_makers.contains_key(d));
        }
    }
}

proof fn lemma_shares(s: State, voter: PublicKey, sigs: Seq<(Digest, Signature)>, n: int)
    requires
        s.in_good_standing(),
    ensures
        s.shares_step(voter, sigs, n).0.in_good_standing(),
        all_vouched(s.members, s.shares_step(voter, sigs, n).1),
        s.shares_step(voter, sigs, n).0 == (State {
            qc_makers: s.shares_step(voter, sigs, n).0.qc_makers,
            qcs_formed: s.shares_step(voter, sigs, n).0.qcs_formed,
            ..s
        }),
    decreases n,
{
    if n > 0 {
        lemma_shares(s, voter, sigs, n - 1);
        let (s1, a1, e1) = s.shares_step(voter, sigs, n - 1);
        if e1 is None {
            law_share_standing(s1, voter, sigs[n - 1].0, sigs[n - 1].1);
            let (s2, a2, e2) = s1.share_step(voter, sigs[n - 1].0, sigs[n - 1].1);
            lemma_vouched_add(s.members, a1, a2);
        }
    }
}

/// Whether every certificate that `a` has stored is that of `h` and holds.
pub open spec fn certifies(members: Seq<(PublicKey, Stake)>, a: Seq<ActionView>, h: HeaderView) -> bool {
    forall|i: int|
        0 <= i < a.len() ==> ((#[trigger] a[i]) matches ActionView::StoreCertificate(c)
            ==> of_header(members, c, h))
}

/// Whether `c` is the certificate of `h` and holds.
pub open spec fn of_header(members: Seq<(PublicKey, Stake)>, c: CertificateView, h: HeaderView) -> bool {
    c.header_id == h.id && c.origin == h.author && c.height == h.height && certificate_holds(
        members,
        c,
    )
}

proof fn lemma_untouched(s: State, t: State)
    requires
        s.in_good_standing(),
        untouched(s, t),
    ensures
        t.in_good_standing(),
{
}

proof fn lemma_certifies_add(
    members: Seq<(PublicKey, Stake)>,
    a: Seq<ActionView>,
    b: Seq<ActionView>,
    h: HeaderView,
)
    requires
        certifies(members, a, h),
        certifies(members, b, h),
    ensures
        certifies(members, a + b, h),
{
    assert forall|i: int| 0 <= i < (a + b).len() implies ((#[trigger] (a + b)[i])
        matches ActionView::StoreCertificate(c) ==> of_header(members, c, h)) by {
        if i < a.len() {
            assert((a + b)[i] == a[i]);
        } else {
            assert((a + b)[i] == b[i - a.len()]);
        }
    }
}

proof fn lemma_certificate_of(s: State, c: CertificateView, h: HeaderView)
    requires
        of_header(s.members, c, h),
    ensures
        certifies(s.members, s.certificate_step(c).1, h),
{
    let first = if c.origin == s.name {
        seq![ActionView::StoreCertificate(c), ActionView::DeliverCertificate(c)]
    } else {
        seq![ActionView::StoreCertificate(c)]
    };
    assert(certifies(s.members, first, h));
    if c.height > s.cert_height(c.origin) {
        let s1 = State { current_certs: s.current_certs.insert(c.origin, c), ..s };
        lemma_ticket(s1);
        assert(certifies(s.members, s1.ticket_step().1, h));
        lemma_certifies_add(s.members, first, s1.ticket_step().1, h);
    }
}

proof fn lemma_release(s: State, newly: Option<CertificateView>, h: HeaderView)
    requires
        s.in_good_standing(),
        s.current_header == Some(h),
        newly matches Some(c) ==> of_header(s.members, c, h),
    ensures
        s.release_step(newly, h).0.in_good_standing(),
        all_vouched(s.members, s.release_step(newly, h).1),
        certifies(s.members, s.release_step(newly, h).1, h),
{
    let formed = if newly is Some {
        newly
    } else {
        s.formed
    };
    if formed is Some && (h.consensus_instances.len() == 0 || s.qcs_formed
        == h.consensus_instances.len()) {
        let s1 = State { formed: None, qcs_formed: 0, ..s };
        assert(s1.in_good_standing());
        lemma_certificate(s1, formed->0);
        lemma_certificate_of(s1, formed->0, h);
        lemma_untouched(s1, s1.certificate_step(formed->0).0);
    } else {
        assert(State { formed, ..s }.in_good_standing());
    }
}

proof fn lemma_tally(s: State, v: VoteView, h: HeaderView)
    requires
        s.in_good_standing(),
        s.current_header == Some(h),
    ensures
        s.tally_step(v, h).0.in_good_standing(),
        all_vouched(s.members, s.tally_step(v, h).1),
        certifies(s.members, s.tally_step(v, h).1, h),
{
    law_certificate_sound(s.votes_aggregator, s.members, v, h);
    let (aggregator, out) = s.votes_aggregator.append(s.members, v, h);
    let s1 = State { votes_aggregator: aggregator, ..s };
    assert(s1.in_good_standing());
    if out is Ok {
        lemma_release(s1, out->Ok_0, h);
    }
}

/// A vote keeps the standing, and what it sets off can be vouched for: a
/// certificate that it has stored is that of the header that collects votes,
/// and its votes are valid votes of distinct members over that header's id
/// that reach the validity threshold.
pub proof fn law_vote_vouched(s: State, v: VoteView)
    requires
        s.in_good_standing(),
    ensures
        s.vote_step(v).0.in_good_standing(),
        all_vouched(s.members, s.vote_step(v).1),
        s.current_header matches Some(h) ==> certifies(s.members, s.vote_step(v).1, h),
{
    if s.current_header is Some {
        let h = s.current_header->0;
        let n = v.consensus_sigs.len() as int;
        lemma_shares(s, v.author, v.consensus_sigs, n);
        lemma_shares_plain(s, v.author, v.consensus_sigs, n);
        let (s1, a1, e1) = s.shares_step(v.author, v.consensus_sigs, n);
        if e1 is None {
            lemma_tally(s1, v, h);
            let (s2, a2, e2) = s1.tally_step(v, h);
            lemma_vouched_add(s.members, a1, a2);
            assert(certifies(s.members, a1, h));
            lemma_certifies_add(s.members, a1, a2, h);
        }
    }
}

/// What the signatures of a vote set off holds no certificate of a header.
proof fn lemma_shares_plain(s: State, voter: PublicKey, sigs: Seq<(Digest, Signature)>, n: int)
    ensures
        forall|i: int|
            0 <= i < s.shares_step(voter, sigs, n).1.len() ==> !((#[trigger] s.shares_step(
                voter,
                sigs,
                n,
            ).1[i]) is StoreCertificate),
    decreases n,
{
    if n > 0 {
        lemma_shares_plain(s, voter, sigs, n - 1);
        let (s1, a1, e1) = s.shares_step(voter, sigs, n - 1);
        if e1 is None {
            let (s2, a2, e2) = s1.share_step(voter, sigs[n - 1].0, sigs[n - 1].1);
            let a = a1 + a2;
            assert forall|i: int| 0 <= i < a.len() implies !((#[trigger] a[i]) is StoreCertificate) by {
                if i < a1.len() {
                    assert(a[i] == a1[i]);
                } else {
                    assert(a[i] == a2[i - a1.len()]);
                }
            }
        }
    }
}

proof fn lemma_leader(s: State, tc: TCView)
    requires
        tc.view < u64::MAX,
    ensures
        untouched(s, s.leader_step(tc).0),
        plain(s.leader_step(tc).1),
{
}

/// Whether every timeout certificate that `a` sends out is for `round`.
pub open spec fn for_round(a: Seq<ActionView>, round: Round) -> bool {
    forall|i: int|
        0 <= i < a.len() ==> ((#[trigger] a[i]) matches ActionView::BroadcastTC(tc) ==> tc.slot
            == round.slot && tc.view == round.view)
}

proof fn lemma_for_round_add(a: Seq<ActionView>, b: Seq<ActionView>, round: Round)
    requires
        for_round(a, round),
        plain(b),
    ensures
        for_round(a + b, round),
{
    assert forall|i: int| 0 <= i < (a + b).len() implies ((#[trigger] (a + b)[i])
        matches ActionView::BroadcastTC(x) ==> x.slot == round.slot && x.view == round.view) by {
        if i < a.len() {
            assert((a + b)[i] == a[i]);
        } else {
            assert((a + b)[i] == b[i - a.len()]);
        }
    }
}

/// The two actions with which a slot enters its next view.
spec fn entering(tc: TCView, delay: u64) -> Seq<ActionView> {
    seq![
        ActionView::ArmTimer { slot: tc.slot, view: (tc.view + 1) as u64, delay },
        ActionView::BroadcastTC(tc),
    ]
}

proof fn lemma_entering(members: Seq<(PublicKey, Stake)>, tc: TCView, delay: u64)
    requires
        vouched(members, ActionView::BroadcastTC(tc)),
    ensures
        all_vouched(members, entering(tc, delay)),
        for_round(entering(tc, delay), Round { slot: tc.slot, view: tc.view }),
{
    let a = entering(tc, delay);
    assert(a.len() == 2);
    assert(a[0] == ActionView::ArmTimer { slot: tc.slot, view: (tc.view + 1) as u64, delay });
    assert(a[1] == ActionView::BroadcastTC(tc));
    assert(vouched(members, a[0]));
    assert(vouched(members, a[1]));
    assert forall|i: int| 0 <= i < a.len() implies vouched(members, #[trigger] a[i]) by {
        if i == 0 {
        } else {
            assert(i == 1);
        }
    }
    assert forall|i: int| 0 <= i < a.len() implies ((#[trigger] a[i]) matches ActionView::BroadcastTC(
        x,
    ) ==> x.slot == tc.slot && x.view == tc.view) by {
        if i == 0 {
        } else {
            assert(i == 1);
        }
    }
}

proof fn lemma_advance(s: State, tc: TCView)
    requires
        vouched(s.members, ActionView::BroadcastTC(tc)),
    ensures
        untouched(s, s.advance_step(tc).0),
        all_vouched(s.members, s.advance_step(tc).1),
        for_round(s.advance_step(tc).1, Round { slot: tc.slot, view: tc.view }),
{
    if tc.view < u64::MAX {
        let s1 = State { views: s.views.insert(tc.slot, (tc.view + 1) as u64), ..s };
        let a1 = entering(tc, s.timeout_delay);
        lemma_entering(s.members, tc, s.timeout_delay);
        if s1.leads(tc.slot, (tc.view + 1) as u64) {
            lemma_leader(s1, tc);
            let a2 = s1.leader_step(tc).1;
            lemma_plain_vouched(s.members, a2);
            lemma_vouched_add(s.members, a1, a2);
            lemma_for_round_add(a1, a2, Round { slot: tc.slot, view: tc.view });
            assert(s.advance_step(tc).1 == a1 + a2);
        } else {
            assert(s.advance_step(tc).1 == a1);
        }
    }
}

proof fn lemma_timeouts_kept(s: State, round: Round, maker: TCMakerView)
    requires
        s.in_good_standing(),
        maker.round == round,
        sound_timeouts(s.members, maker.timeouts, round.slot, round.view),
    ensures
        (State { tc_makers: s.tc_makers.insert(round, maker), ..s }).in_good_standing(),
{
    let t = State { tc_makers: s.tc_makers.insert(round, maker), ..s };
    assert forall|r: Round| #[trigger] t.tc_makers.contains_key(r) implies t.tc_makers[r].round == r
        && sound_timeouts(t.members, t.tc_makers[r].timeouts, r.slot, r.view) by {
        if r != round {
            assert(s.tc_makers.contains_key(r));
        }
    }
}

/// A timeout keeps the standing, and the timeout certificate that it makes
/// form is for the timeout's view of its slot and can be vouched for.
pub proof fn law_timeout_vouched(s: State, t: TimeoutView, digest: Digest)
    requires
        s.in_good_standing(),
    ensures
        s.timeout_step(t, digest).0.in_good_standing(),
        all_vouched(s.members, s.timeout_step(t, digest).1),
        for_round(s.timeout_step(t, digest).1, Round { slot: t.slot, view: t.view }),
{
    if t.view >= s.current_view(t.slot) && t.verdict(digest, s.members) is Ok {
        let round = Round { slot: t.slot, view: t.view };
        let maker = if s.tc_makers.contains_key(round) {
            s.tc_makers[round]
        } else {
            TCMakerView::fresh(round)
        };
        law_tc_sound(maker, s.members, t);
        let (maker2, out) = maker.append(s.members, t);
        if out is Ok {
            lemma_timeouts_kept(s, round, maker2);
            let s1 = State { tc_makers: s.tc_makers.insert(round, maker2), ..s };
            if out->Ok_0 is Some {
                let tc = out->Ok_0->0;
                lemma_advance(s1, tc);
                lemma_untouched(s1, s1.advance_step(tc).0);
            }
        }
    }
}

/// A primary starts in good standing.
pub proof fn law_start_in_good_standing(
    name: PublicKey,
    members: Seq<(PublicKey, Stake)>,
    gc_depth: Height,
    timeout_delay: u64,
)
    ensures
        State::initial(name, members, gc_depth, timeout_delay).in_good_standing(),
{
}

/// Every event and every collection of garbage keeps the standing, and
/// whatever an event sets off can be vouched for.
pub proof fn law_standing(s: State, e: EventView, round: Height)
    requires
        s.in_good_standing(),
    ensures
        s.event_step(e).0.in_good_standing(),
        s.gc_step(round).0.in_good_standing(),
        all_vouched(s.members, s.event_step(e).1),
{
    match e {
        EventView::Header { header, digest, payload_missing, parent_missing } => {
            lemma_header(s, header, digest, payload_missing, parent_missing);
        },
        EventView::OwnHeader { header, digest, payload_missing, parent_missing } => {
            let s0 = State {
                current_header: Some(header),
                votes_aggregator: crate::aggregators::VotesAggregatorView::fresh(),
                formed: None,
                qcs_formed: 0,
                ..s
            };
            lemma_header(s0, header, digest, payload_missing, parent_missing);
            let first = seq![ActionView::BroadcastHeader { id: header.id, height: header.height }];
            assert(all_vouched(s.members, first));
            lemma_vouched_add(
                s.members,
                first,
                s0.header_step(header, digest, payload_missing, parent_missing).1,
            );
        },
        EventView::Vote(v) => {
            law_vote_vouched(s, v);
        },
        EventView::OwnVote(v) => {
            law_vote_vouched(s, v);
        },
        EventView::Certificate(c) => {
            if s.certificate_admissible(c) is Ok {
                lemma_certificate(s, c);
            }
        },
        EventView::Timeout { timeout, digest } => {
            law_timeout_vouched(s, timeout, digest);
        },
        EventView::OwnTimeout { timeout, digest } => {
            law_timeout_vouched(s, timeout, digest);
            let first = seq![ActionView::BroadcastTimeout(timeout)];
            assert(all_vouched(s.members, first));
            lemma_vouched_add(s.members, first, s.timeout_step(timeout, digest).1);
        },
        EventView::TimeoutCertificate(tc) => {
            if tc.view < u64::MAX {
                lemma_leader(s, tc);
                lemma_plain_vouched(s.members, s.leader_step(tc).1);
            }
        },
        EventView::Timer { .. } => {
            assert(plain(s.event_step(e).1));
        },
        EventView::Loopback { .. } => {
            assert(plain(s.event_step(e).1));
        },
        EventView::CommitResolved { .. } => {
            assert(plain(s.event_step(e).1));
        },
    }
}

/// Whether every certificate that `a` has stored is `c`.
pub open spec fn stores_only(a: Seq<ActionView>, c: CertificateView) -> bool {
    forall|i: int|
        0 <= i < a.len() ==> ((#[trigger] a[i]) matches ActionView::StoreCertificate(x) ==> x == c)
}

proof fn lemma_stores_add(a: Seq<ActionView>, b: Seq<ActionView>, c: CertificateView)
    requires
        stores_only(a, c),
        stores_only(b, c),
    ensures
        stores_only(a + b, c),
{
    assert forall|i: int| 0 <= i < (a + b).len() implies ((#[trigger] (a + b)[i])
        matches ActionView::StoreCertificate(x) ==> x == c) by {
        if i < a.len() {
            assert((a + b)[i] == a[i]);
        } else {
            assert((a + b)[i] == b[i - a.len()]);
        }
    }
}

proof fn lemma_certificate_stores(s: State, c: CertificateView)
    ensures
        stores_only(s.certificate_step(c).1, c),
{
    let first = if c.origin == s.name {
        seq![ActionView::StoreCertificate(c), ActionView::DeliverCertificate(c)]
    } else {
        seq![ActionView::StoreCertificate(c)]
    };
    assert(stores_only(first, c));
    if c.height > s.cert_height(c.origin) {
        let s1 = State { current_certs: s.current_certs.insert(c.origin, c), ..s };
        lemma_ticket(s1);
        assert(stores_only(s1.ticket_step().1, c));
        lemma_stores_add(first, s1.ticket_step().1, c);
    }
}

/// What a header has written to the store: itself, under the content
/// address of what it holds, and its parent certificate; nothing else.
pub proof fn law_header_stores(
    s: State,
    h: HeaderView,
    digest: Digest,
    payload_missing: bool,
    parent_missing: bool,
)
    ensures
        stores_only(s.header_step(h, digest, payload_missing, parent_missing).1, h.parent_cert),
        forall|i: int|
            0 <= i < s.header_step(h, digest, payload_missing, parent_missing).1.len() ==> ((
            #[trigger] s.header_step(h, digest, payload_missing, parent_missing).1[i])
                matches ActionView::StoreHeader { id } ==> id == digest && id == h.id),
{
    crate::protocol_laws::law_parent_chain(s, h, digest, payload_missing, parent_missing);
    if s.header_verdict(h, digest) is Ok && !payload_missing && !parent_missing {
        let s1 = s.tip_step(h);
        lemma_certificate_stores(s1, h.parent_cert);
        let (s2, a2) = s1.certificate_step(h.parent_cert);
        let ballot = crate::keys::Ballot { height: h.height, author: h.author };
        let first = seq![ActionView::StoreHeader { id: h.id }];
        assert(stores_only(first, h.parent_cert));
        lemma_stores_add(first, a2, h.parent_cert);
        let (s3, a3) = s2.voting_step(h);
        if !s2.last_voted.contains(ballot) {
            let s0 = State { last_voted: s2.last_voted.insert(ballot), ..s2 };
            let n = h.consensus_instances.len() as int;
            lemma_instances(s0, h.id, h.consensus_instances, n);
            let (s4, a4, signed) = s0.instances_step(h.id, h.consensus_instances, n);
            let vote = seq![
                ActionView::CastVote {
                    header: h.id,
                    height: h.height,
                    origin: h.author,
                    instances: signed,
                    own: h.author == s2.name,
                },
            ];
            lemma_plain_add(a4, vote);
            assert(a3 =~= a4 + vote);
            assert(stores_only(a3, h.parent_cert));
        }
        lemma_stores_add(first + a2, a3, h.parent_cert);
    }
}

} // verus!
