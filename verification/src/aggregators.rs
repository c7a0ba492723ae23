use vstd::prelude::*;
use crate::collections::{as_map, find_key, firsts, has_key};
use crate::committee::Committee;
use crate::error::DagError;
use crate::keys::{Digest, Height, PublicKey, Round, Signature, Stake};
use crate::messages::{
    copy_list, copy_timeouts, timeouts_view, Certificate, CertificateView, Header, HeaderView,
    QCView, TCView, Timeout, TimeoutView, Vote, VoteView, Votes, QC, TC,
};
use crate::validity::{quorum_of, validity_of, weigh, weight};

verus! {

/// What a share does to a list of votes over `digest`: a stranger's, an
/// unsigned or a conflicting share is an error, a repeated one changes
/// nothing, a new one is added.
pub enum Admission {
    Refused(DagError),
    Repeated,
    Added,
}

/// How a share of `voter` stands to the votes gathered so far.
pub open spec fn admission(
    members: Seq<(PublicKey, Stake)>,
    votes: Seq<(PublicKey, Signature)>,
    digest: Digest,
    voter: PublicKey,
    signature: Signature,
) -> Admission {
    if !has_key(members, voter) {
        Admission::Refused(DagError::UnknownVoter(voter))
    } else if !signature.signs(digest, voter) {
        Admission::Refused(DagError::BadSignature)
    } else if has_key(votes, voter) {
        if as_map(votes)[voter] == signature {
            Admission::Repeated
        } else {
            Admission::Refused(DagError::AuthorityReuse(voter))
        }
    } else {
        Admission::Added
    }
}

/// Decides how a share of `voter` stands to the votes gathered so far.
pub fn examine(
    committee: &Committee,
    votes: &Votes,
    digest: &Digest,
    voter: &PublicKey,
    signature: &Signature,
) -> (a: Admission)
    ensures
        a == admission(committee.members(), votes@, *digest, *voter, *signature),
{
    if !committee.is_member(voter) {
        Admission::Refused(DagError::UnknownVoter(*voter))
    } else if !signature.verify(digest, voter) {
        Admission::Refused(DagError::BadSignature)
    } else {
        match find_key(votes, voter) {
            Some(i) => {
                if votes[i].1 == *signature {
                    Admission::Repeated
                } else {
                    Admission::Refused(DagError::AuthorityReuse(*voter))
                }
            },
            None => Admission::Added,
        }
    }
}

/// Gathers votes over the digest of one consensus message into a quorum
/// certificate.
pub struct QCMaker {
    digest: Digest,
    round: Height,
    votes: Votes,
    closed: bool,
}

/// The model of `QCMaker` that contracts speak of.
pub struct QCMakerView {
    pub digest: Digest,
    /// The height of the header whose votes started the maker; it is by
    /// this that a maker is given up.
    pub round: Height,
    pub votes: Seq<(PublicKey, Signature)>,
    pub closed: bool,
}

impl View for QCMaker {
    type V = QCMakerView;

    closed spec fn view(&self) -> QCMakerView {
        QCMakerView {
            digest: self.digest,
            round: self.round,
            votes: self.votes@,
            closed: self.closed,
        }
    }
}

/// The model of what an append to a `QCMaker` returns.
pub open spec fn qc_outcome(r: Result<Option<QC>, DagError>) -> Result<Option<QCView>, DagError> {
    match r {
        Ok(Some(qc)) => Ok(Some(qc@)),
        Ok(None) => Ok(None),
        Err(e) => Err(e),
    }
}

impl QCMakerView {
    /// A maker that has gathered nothing.
    pub open spec fn fresh(digest: Digest, round: Height) -> QCMakerView {
        QCMakerView { digest, round, votes: Seq::empty(), closed: false }
    }

    /// The maker after a share of `voter`, and what the share brings: the
    /// certificate, when the votes first reach a quorum.
    pub open spec fn append(
        self,
        members: Seq<(PublicKey, Stake)>,
        voter: PublicKey,
        signature: Signature,
    ) -> (QCMakerView, Result<Option<QCView>, DagError>) {
        if self.closed {
            (self, Ok(None))
        } else {
            match admission(members, self.votes, self.digest, voter, signature) {
                Admission::Refused(e) => (self, Err(e)),
                Admission::Repeated => (self, Ok(None)),
                Admission::Added => {
                    let votes = self.votes.push((voter, signature));
                    if weight(members, firsts(votes)) >= quorum_of(members) {
                        (
                            QCMakerView { votes, closed: true, ..self },
                            Ok(Some(QCView { digest: self.digest, votes })),
                        )
                    } else {
                        (QCMakerView { votes, ..self }, Ok(None))
                    }
                },
            }
        }
    }
}

impl QCMaker {
    pub fn new(digest: Digest, round: Height) -> (m: Self)
        ensures
            m@ == QCMakerView::fresh(digest, round),
    {
        QCMaker { digest, round, votes: Vec::new(), closed: false }
    }

    /// The height of the header whose votes started the maker.
    pub fn round(&self) -> (r: Height)
        ensures
            r == self@.round,
    {
        self.round
    }

    /// A copy of the maker.
    pub fn copy(&self) -> (m: Self)
        ensures
            m@ == self@,
    {
        QCMaker {
            digest: self.digest,
            round: self.round,
            votes: copy_list(&self.votes),
            closed: self.closed,
        }
    }

    /// Whether the certificate has been handed out.
    pub fn is_closed(&self) -> (r: bool)
        ensures
            r == self@.closed,
    {
        self.closed
    }

    /// Takes a share of `voter` over the maker's digest.
    pub fn append(&mut self, voter: PublicKey, signature: Signature, committee: &Committee) -> (r:
        Result<Option<QC>, DagError>)
        ensures
            (final(self)@, qc_outcome(r)) == old(self)@.append(
                committee.members(),
                voter,
                signature,
            ),
    {
        if self.closed {
            return Ok(None);
        }
        match examine(committee, &self.votes, &self.digest, &voter, &signature) {
            Admission::Refused(e) => Err(e),
            Admission::Repeated => Ok(None),
            Admission::Added => {
                self.votes.push((voter, signature));
                if weigh(committee, &self.votes) >= committee.quorum_threshold() as u128 {
                    self.closed = true;
                    Ok(Some(QC { digest: self.digest, votes: copy_list(&self.votes) }))
                } else {
                    Ok(None)
                }
            },
        }
    }
}

/// Gathers votes for the header that a replica has proposed into a
/// dissemination certificate.
pub struct VotesAggregator {
    votes: Votes,
    closed: bool,
}

/// The model of `VotesAggregator` that contracts speak of.
pub struct VotesAggregatorView {
    pub votes: Seq<(PublicKey, Signature)>,
    pub closed: bool,
}

impl View for VotesAggregator {
    type V = VotesAggregatorView;

    closed spec fn view(&self) -> VotesAggregatorView {
        VotesAggregatorView { votes: self.votes@, closed: self.closed }
    }
}

/// The model of what an append to a `VotesAggregator` returns.
pub open spec fn certificate_outcome(r: Result<Option<Certificate>, DagError>) -> Result<
    Option<CertificateView>,
    DagError,
> {
    match r {
        Ok(Some(c)) => Ok(Some(c@)),
        Ok(None) => Ok(None),
        Err(e) => Err(e),
    }
}

/// The stake that certifies `header`: a quorum where it carries consensus
/// messages, the validity threshold where it carries none.
pub open spec fn certifying_stake(members: Seq<(PublicKey, Stake)>, header: HeaderView) -> nat {
    if header.consensus_instances.len() == 0 {
        validity_of(members)
    } else {
        quorum_of(members)
    }
}

/// Whether `vote` is a vote for `header`.
pub open spec fn votes_for(vote: VoteView, header: HeaderView) -> bool {
    vote.id == header.id && vote.origin == header.author && vote.height == header.height
}

impl VotesAggregatorView {
    /// An aggregator that has gathered nothing.
    pub open spec fn fresh() -> VotesAggregatorView {
        VotesAggregatorView { votes: Seq::empty(), closed: false }
    }

    /// The aggregator after `vote`, and what the vote brings: the
    /// certificate, when the votes first reach the certifying stake.
    pub open spec fn append(
        self,
        members: Seq<(PublicKey, Stake)>,
        vote: VoteView,
        header: HeaderView,
    ) -> (VotesAggregatorView, Result<Option<CertificateView>, DagError>) {
        if self.closed {
            (self, Ok(None))
        } else if !votes_for(vote, header) {
            (self, Err(DagError::UnexpectedVote(vote.id)))
        } else {
            match admission(members, self.votes, header.id, vote.author, vote.signature) {
                Admission::Refused(e) => (self, Err(e)),
                Admission::Repeated => (self, Ok(None)),
                Admission::Added => {
                    let votes = self.votes.push((vote.author, vote.signature));
                    if weight(members, firsts(votes)) >= certifying_stake(members, header) {
                        (
                            VotesAggregatorView { votes, closed: true },
                            Ok(
                                Some(
                                    CertificateView {
                                        header_id: header.id,
                                        origin: header.author,
                                        height: header.height,
                                        votes,
                                    },
                                ),
                            ),
                        )
                    } else {
                        (VotesAggregatorView { votes, ..self }, Ok(None))
                    }
                },
            }
        }
    }
}

impl VotesAggregator {
    pub fn new() -> (m: Self)
        ensures
            m@ == VotesAggregatorView::fresh(),
    {
        VotesAggregator { votes: Vec::new(), closed: false }
    }

    /// Whether the certificate has been handed out.
    pub fn is_closed(&self) -> (r: bool)
        ensures
            r == self@.closed,
    {
        self.closed
    }

    /// Takes a vote for `header`.
    pub fn append(&mut self, vote: &Vote, committee: &Committee, header: &Header) -> (r: Result<
        Option<Certificate>,
        DagError,
    >)
        ensures
            (final(self)@, certificate_outcome(r)) == old(self)@.append(
                committee.members(),
                vote@,
                header@,
            ),
    {
        if self.closed {
            return Ok(None);
        }
        if !(vote.id == header.id && vote.origin == header.author && vote.height == header.height) {
            return Err(DagError::UnexpectedVote(vote.id));
        }
        match examine(committee, &self.votes, &header.id, &vote.author, &vote.signature) {
            Admission::Refused(e) => Err(e),
            Admission::Repeated => Ok(None),
            Admission::Added => {
                self.votes.push((vote.author, vote.signature));
                let threshold = if header.consensus_instances.len() == 0 {
                    committee.validity_threshold()
                } else {
                    committee.quorum_threshold()
                };
                if weigh(committee, &self.votes) >= threshold as u128 {
                    self.closed = true;
                    Ok(
                        Some(
                            Certificate {
                                header_id: header.id,
                                origin: header.author,
                                height: header.height,
                                votes: copy_list(&self.votes),
                            },
                        ),
                    )
                } else {
                    Ok(None)
                }
            },
        }
    }
}

/// The authors of a list of timeouts.
pub open spec fn authors(timeouts: Seq<TimeoutView>) -> Seq<PublicKey> {
    Seq::new(timeouts.len(), |i: int| timeouts[i].author)
}

/// Whether one of `timeouts` is by `author`.
pub open spec fn has_author(timeouts: Seq<TimeoutView>, author: PublicKey) -> bool {
    exists|i: int| 0 <= i < timeouts.len() && #[trigger] timeouts[i].author == author
}

/// The first of `timeouts` that is by `author`.
pub open spec fn first_by(timeouts: Seq<TimeoutView>, author: PublicKey) -> int {
    choose|i: int|
        0 <= i < timeouts.len() && #[trigger] timeouts[i].author == author && forall|j: int|
            0 <= j < i ==> #[trigger] timeouts[j].author != author
}

/// Gathers the timeouts of one view of one slot into a timeout certificate.
pub struct TCMaker {
    round: Round,
    timeouts: Vec<Timeout>,
    closed: bool,
}

/// The model of `TCMaker` that contracts speak of.
pub struct TCMakerView {
    pub round: Round,
    pub timeouts: Seq<TimeoutView>,
    pub closed: bool,
}

impl View for TCMaker {
    type V = TCMakerView;

    closed spec fn view(&self) -> TCMakerView {
        TCMakerView {
            round: self.round,
            timeouts: timeouts_view(self.timeouts@),
            closed: self.closed,
        }
    }
}

/// The model of what an append to a `TCMaker` returns.
pub open spec fn tc_outcome(r: Result<Option<TC>, DagError>) -> Result<Option<TCView>, DagError> {
    match r {
        Ok(Some(tc)) => Ok(Some(tc@)),
        Ok(None) => Ok(None),
        Err(e) => Err(e),
    }
}

impl TCMakerView {
    /// A maker that has gathered nothing.
    pub open spec fn fresh(round: Round) -> TCMakerView {
        TCMakerView { round, timeouts: Seq::empty(), closed: false }
    }

    /// The maker after `timeout`, and what the timeout brings: the
    /// certificate, when the timeouts first reach a quorum.
    pub open spec fn append(self, members: Seq<(PublicKey, Stake)>, timeout: TimeoutView) -> (
        TCMakerView,
        Result<Option<TCView>, DagError>,
    ) {
        if self.closed {
            (self, Ok(None))
        } else if timeout.slot != self.round.slot || timeout.view != self.round.view {
            (self, Err(DagError::UnexpectedVote(timeout.id)))
        } else if !has_key(members, timeout.author) {
            (self, Err(DagError::UnknownVoter(timeout.author)))
        } else if !timeout.signature.signs(timeout.id, timeout.author) {
            (self, Err(DagError::BadSignature))
        } else if has_author(self.timeouts, timeout.author) {
            let earlier = self.timeouts[first_by(self.timeouts, timeout.author)];
            if earlier.id == timeout.id && earlier.signature == timeout.signature {
                (self, Ok(None))
            } else {
                (self, Err(DagError::AuthorityReuse(timeout.author)))
            }
        } else {
            let timeouts = self.timeouts.push(timeout);
            if weight(members, authors(timeouts)) >= quorum_of(members) {
                (
                    TCMakerView { timeouts, closed: true, ..self },
                    Ok(Some(TCView { slot: self.round.slot, view: self.round.view, timeouts })),
                )
            } else {
                (TCMakerView { timeouts, ..self }, Ok(None))
            }
        }
    }
}

impl TCMaker {
    pub fn new(round: Round) -> (m: Self)
        ensures
            m@ == TCMakerView::fresh(round),
    {
        let m = TCMaker { round, timeouts: Vec::new(), closed: false };
        assert(timeouts_view(m.timeouts@) =~= Seq::empty());
        m
    }

    /// Whether the certificate has been handed out.
    pub fn is_closed(&self) -> (r: bool)
        ensures
            r == self@.closed,
    {
        self.closed
    }

    /// The position of the first timeout by `author`.
    fn find_author(&self, author: &PublicKey) -> (r: Option<usize>)
        ensures
            r is Some == has_author(self@.timeouts, *author),
            r matches Some(i) ==> i == first_by(self@.timeouts, *author) && i < self.timeouts.len(),
    {
        let mut i: usize = 0;
        while i < self.timeouts.len()
            invariant
                i <= self.timeouts.len(),
                forall|j: int| 0 <= j < i ==> #[trigger] self@.timeouts[j].author != *author,
            decreases self.timeouts.len() - i,
        {
            if self.timeouts[i].author == *author {
                proof {
                    let s = self@.timeouts;
                    assert(s[i as int].author == *author);
                    let f = first_by(s, *author);
                    if f < i {
                        assert(s[f].author != *author);
                    } else if i < f {
                        assert(s[i as int].author == *author);
                    }
                }
                return Some(i);
            }
            i += 1;
        }
        None
    }

    /// The stake of the authors of the timeouts gathered.
    fn weigh(&self, committee: &Committee) -> (w: u128)
        ensures
            w == weight(committee.members(), authors(self@.timeouts)),
    {
        let mut w: u128 = 0;
        let mut i: usize = 0;
        while i < self.timeouts.len()
            invariant
                i <= self.timeouts.len(),
                w == weight(committee.members(), authors(self@.timeouts.take(i as int))),
                w <= i * 0x1_0000_0000,
            decreases self.timeouts.len() - i,
        {
            proof {
                let next = authors(self@.timeouts.take(i + 1));
                assert(next.drop_last() =~= authors(self@.timeouts.take(i as int)));
                assert(next.last() == self@.timeouts[i as int].author);
            }
            w = w + committee.stake(&self.timeouts[i].author) as u128;
            i += 1;
        }
        assert(self@.timeouts.take(self@.timeouts.len() as int) =~= self@.timeouts);
        w
    }

    /// Takes a timeout for the maker's view of its slot.
    pub fn append(&mut self, timeout: Timeout, committee: &Committee) -> (r: Result<
        Option<TC>,
        DagError,
    >)
        ensures
            (final(self)@, tc_outcome(r)) == old(self)@.append(committee.members(), timeout@),
    {
        if self.closed {
            return Ok(None);
        }
        if timeout.slot != self.round.slot || timeout.view != self.round.view {
            return Err(DagError::UnexpectedVote(timeout.id));
        }
        if !committee.is_member(&timeout.author) {
            return Err(DagError::UnknownVoter(timeout.author));
        }
        if !timeout.signature.verify(&timeout.id, &timeout.author) {
            return Err(DagError::BadSignature);
        }
        match self.find_author(&timeout.author) {
            Some(i) => {
                if self.timeouts[i].id == timeout.id && self.timeouts[i].signature
                    == timeout.signature {
                    Ok(None)
                } else {
                    Err(DagError::AuthorityReuse(timeout.author))
                }
            },
            None => {
                let ghost before = self@.timeouts;
                self.timeouts.push(timeout);
                assert(self@.timeouts =~= before.push(timeout@));
                if self.weigh(committee) >= committee.quorum_threshold() as u128 {
                    self.closed = true;
                    Ok(
                        Some(
                            TC {
                                slot: self.round.slot,
                                view: self.round.view,
                                timeouts: copy_timeouts(&self.timeouts),
                            },
                        ),
                    )
                } else {
                    Ok(None)
                }
            },
        }
    }
}

} // verus!
