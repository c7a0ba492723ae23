use vstd::prelude::*;
use crate::aggregators::{
    admission, authors, certifying_stake, has_author, votes_for, QCMakerView, TCMakerView,
    VotesAggregatorView,
};
use crate::collections::{firsts, has_key};
use crate::keys::{Digest, PublicKey, Signature, Stake};
use crate::messages::{HeaderView, TimeoutView, VoteView};
use crate::validity::{all_sign, quorum_of, validity_of, voter_flaw, votes_verdict, weight};

verus! {

/// How many certificates a maker hands out over a run of shares.
pub open spec fn qc_emissions(
    maker: QCMakerView,
    members: Seq<(PublicKey, Stake)>,
    shares: Seq<(PublicKey, Signature)>,
) -> nat
    decreases shares.len(),
{
    if shares.len() == 0 {
        0
    } else {
        let (next, out) = maker.append(members, shares[0].0, shares[0].1);
        let here: nat = if out matches Ok(Some(_)) {
            1
        } else {
            0
        };
        here + qc_emissions(next, members, shares.drop_first())
    }
}

proof fn lemma_qc_closed_silent(
    maker: QCMakerView,
    members: Seq<(PublicKey, Stake)>,
    shares: Seq<(PublicKey, Signature)>,
)
    requires
        maker.closed,
    ensures
        qc_emissions(maker, members, shares) == 0,
    decreases shares.len(),
{
    if shares.len() > 0 {
        lemma_qc_closed_silent(maker, members, shares.drop_first());
    }
}

/// Whatever shares arrive, and in whatever order, a maker hands out at most
/// one quorum certificate.
pub proof fn law_qc_at_most_once(
    maker: QCMakerView,
    members: Seq<(PublicKey, Stake)>,
    shares: Seq<(PublicKey, Signature)>,
)
    ensures
        qc_emissions(maker, members, shares) <= 1,
    decreases shares.len(),
{
    if shares.len() > 0 {
        let (next, out) = maker.append(members, shares[0].0, shares[0].1);
        if out matches Ok(Some(_)) {
            lemma_qc_closed_silent(next, members, shares.drop_first());
        } else {
            law_qc_at_most_once(next, members, shares.drop_first());
        }
    }
}

/// How many certificates an aggregator hands out over a run of votes for
/// `header`.
pub open spec fn certificate_emissions(
    aggregator: VotesAggregatorView,
    members: Seq<(PublicKey, Stake)>,
    header: HeaderView,
    votes: Seq<VoteView>,
) -> nat
    decreases votes.len(),
{
    if votes.len() == 0 {
        0
    } else {
        let (next, out) = aggregator.append(members, votes[0], header);
        let here: nat = if out matches Ok(Some(_)) {
            1
        } else {
            0
        };
        here + certificate_emissions(next, members, header, votes.drop_first())
    }
}

proof fn lemma_certificate_closed_silent(
    aggregator: VotesAggregatorView,
    members: Seq<(PublicKey, Stake)>,
    header: HeaderView,
    votes: Seq<VoteView>,
)
    requires
        aggregator.closed,
    ensures
        certificate_emissions(aggregator, members, header, votes) == 0,
    decreases votes.len(),
{
    if votes.len() > 0 {
        lemma_certificate_closed_silent(aggregator, members, header, votes.drop_first());
    }
}

/// Whatever votes arrive, an aggregator hands out at most one dissemination
/// certificate.
pub proof fn law_certificate_at_most_once(
    aggregator: VotesAggregatorView,
    members: Seq<(PublicKey, Stake)>,
    header: HeaderView,
    votes: Seq<VoteView>,
)
    ensures
        certificate_emissions(aggregator, members, header, votes) <= 1,
    decreases votes.len(),
{
    if votes.len() > 0 {
        let (next, out) = aggregator.append(members, votes[0], header);
        if out matches Ok(Some(_)) {
            lemma_certificate_closed_silent(next, members, header, votes.drop_first());
        } else {
            law_certificate_at_most_once(next, members, header, votes.drop_first());
        }
    }
}

/// How many certificates a maker hands out over a run of timeouts.
pub open spec fn tc_emissions(
    maker: TCMakerView,
    members: Seq<(PublicKey, Stake)>,
    timeouts: Seq<TimeoutView>,
) -> nat
    decreases timeouts.len(),
{
    if timeouts.len() == 0 {
        0
    } else {
        let (next, out) = maker.append(members, timeouts[0]);
        let here: nat = if out matches Ok(Some(_)) {
            1
        } else {
            0
        };
        here + tc_emissions(next, members, timeouts.drop_first())
    }
}

proof fn lemma_tc_closed_silent(
    maker: TCMakerView,
    members: Seq<(PublicKey, Stake)>,
    timeouts: Seq<TimeoutView>,
)
    requires
        maker.closed,
    ensures
        tc_emissions(maker, members, timeouts) == 0,
    decreases timeouts.len(),
{
    if timeouts.len() > 0 {
        lemma_tc_closed_silent(maker, members, timeouts.drop_first());
    }
}

/// Whatever timeouts arrive, a maker hands out at most one timeout
/// certificate.
pub proof fn law_tc_at_most_once(
    maker: TCMakerView,
    members: Seq<(PublicKey, Stake)>,
    timeouts: Seq<TimeoutView>,
)
    ensures
        tc_emissions(maker, members, timeouts) <= 1,
    decreases timeouts.len(),
{
    if timeouts.len() > 0 {
        let (next, out) = maker.append(members, timeouts[0]);
        if out matches Ok(Some(_)) {
            lemma_tc_closed_silent(next, members, timeouts.drop_first());
        } else {
            law_tc_at_most_once(next, members, timeouts.drop_first());
        }
    }
}

/// Votes in good standing: the voters are members, none is listed twice,
/// and each has signed `digest`.
pub open spec fn sound_votes(
    members: Seq<(PublicKey, Stake)>,
    votes: Seq<(PublicKey, Signature)>,
    digest: Digest,
) -> bool {
    voter_flaw(members, votes, votes.len() as int) is None && all_sign(votes, digest)
}

/// The flaw among the first `n` votes does not depend on later votes.
pub proof fn lemma_flaw_push(
    members: Seq<(PublicKey, Stake)>,
    votes: Seq<(PublicKey, Signature)>,
    vote: (PublicKey, Signature),
    n: int,
)
    requires
        n <= votes.len(),
    ensures
        voter_flaw(members, votes.push(vote), n) == voter_flaw(members, votes, n),
    decreases n,
{
    if n > 0 {
        lemma_flaw_push(members, votes, vote, n - 1);
        assert(votes.push(vote).take(n - 1) =~= votes.take(n - 1));
    }
}

/// A vote of a member who has not voted, signed over `digest`, keeps the
/// votes in good standing.
pub proof fn lemma_sound_push(
    members: Seq<(PublicKey, Stake)>,
    votes: Seq<(PublicKey, Signature)>,
    digest: Digest,
    voter: PublicKey,
    signature: Signature,
)
    requires
        sound_votes(members, votes, digest),
        admission(members, votes, digest, voter, signature) is Added,
    ensures
        sound_votes(members, votes.push((voter, signature)), digest),
{
    let next = votes.push((voter, signature));
    lemma_flaw_push(members, votes, (voter, signature), votes.len() as int);
    assert(next.take(votes.len() as int) =~= votes);
}

/// A fresh maker is in good standing, a share leaves it so, and the quorum
/// certificate that a maker in good standing hands out passes verification:
/// its voters are distinct members whose stake reaches the quorum, and each
/// signature is the voter's over the certified digest.
pub proof fn law_qc_sound(
    maker: QCMakerView,
    members: Seq<(PublicKey, Stake)>,
    voter: PublicKey,
    signature: Signature,
)
    requires
        sound_votes(members, maker.votes, maker.digest),
    ensures
        sound_votes(members, QCMakerView::fresh(maker.digest, maker.round).votes, maker.digest),
        sound_votes(
            members,
            maker.append(members, voter, signature).0.votes,
            maker.append(members, voter, signature).0.digest,
        ),
        maker.append(members, voter, signature).1 matches Ok(Some(qc)) ==> qc.verdict(members)
            is Ok && weight(members, firsts(qc.votes)) >= quorum_of(members),
{
    if !maker.closed && admission(members, maker.votes, maker.digest, voter, signature) is Added {
        lemma_sound_push(members, maker.votes, maker.digest, voter, signature);
    }
}

/// A vote leaves an aggregator in good standing so, and the certificate that
/// it hands out for `header` carries distinct members' signatures over the
/// header's id whose stake reaches the certifying stake, and with it the
/// validity threshold.
pub proof fn law_certificate_sound(
    aggregator: VotesAggregatorView,
    members: Seq<(PublicKey, Stake)>,
    vote: VoteView,
    header: HeaderView,
)
    requires
        sound_votes(members, aggregator.votes, header.id),
    ensures
        sound_votes(members, VotesAggregatorView::fresh().votes, header.id),
        sound_votes(members, aggregator.append(members, vote, header).0.votes, header.id),
        aggregator.append(members, vote, header).1 matches Ok(Some(c)) ==> {
            &&& c.header_id == header.id
            &&& c.origin == header.author
            &&& c.height == header.height
            &&& weight(members, firsts(c.votes)) >= certifying_stake(members, header)
            &&& votes_verdict(members, c.votes, c.header_id, validity_of(members)) is Ok
        },
{
    if !aggregator.closed && votes_for(vote, header) && admission(
        members,
        aggregator.votes,
        header.id,
        vote.author,
        vote.signature,
    ) is Added {
        lemma_sound_push(members, aggregator.votes, header.id, vote.author, vote.signature);
    }
}

/// Timeouts in good standing for a view of a slot: each is for that view, by
/// a member, signed by its author over its own id, and no author occurs
/// twice.
pub open spec fn sound_timeouts(
    members: Seq<(PublicKey, Stake)>,
    timeouts: Seq<TimeoutView>,
    slot: u64,
    view: u64,
) -> bool {
    &&& authors(timeouts).no_duplicates()
    &&& forall|i: int|
        0 <= i < timeouts.len() ==> {
            &&& has_key(members, (#[trigger] timeouts[i]).author)
            &&& timeouts[i].signature.signs(timeouts[i].id, timeouts[i].author)
            &&& timeouts[i].slot == slot
            &&& timeouts[i].view == view
        }
}

/// A timeout leaves a maker in good standing so, and the timeout
/// certificate that it hands out carries timeouts of distinct members for
/// the maker's view, each signed by its author, whose stake reaches the
/// quorum.
pub proof fn law_tc_sound(maker: TCMakerView, members: Seq<(PublicKey, Stake)>, timeout: TimeoutView)
    requires
        sound_timeouts(members, maker.timeouts, maker.round.slot, maker.round.view),
    ensures
        sound_timeouts(
            members,
            TCMakerView::fresh(maker.round).timeouts,
            maker.round.slot,
            maker.round.view,
        ),
        sound_timeouts(
            members,
            maker.append(members, timeout).0.timeouts,
            maker.round.slot,
            maker.round.view,
        ),
        maker.append(members, timeout).1 matches Ok(Some(tc)) ==> {
            &&& tc.slot == maker.round.slot
            &&& tc.view == maker.round.view
            &&& sound_timeouts(members, tc.timeouts, tc.slot, tc.view)
            &&& weight(members, authors(tc.timeouts)) >= quorum_of(members)
        },
{
    let next = maker.timeouts.push(timeout);
    if !has_author(maker.timeouts, timeout.author) {
        assert forall|a: int, b: int|
            0 <= a < next.len() && 0 <= b < next.len() && a != b implies authors(next)[a]
            != authors(next)[b] by {
            if a < maker.timeouts.len() && b < maker.timeouts.len() {
                assert(authors(maker.timeouts)[a] != authors(maker.timeouts)[b]);
            } else if a < maker.timeouts.len() {
                assert(maker.timeouts[a].author != timeout.author);
            } else {
                assert(maker.timeouts[b].author != timeout.author);
            }
        }
    }
}

} // verus!
