use vstd::prelude::*;
use crate::collections::{firsts, has_key};
use crate::committee::{faults, stake_in, total_stake, Committee};
use crate::error::DagError;
use crate::keys::{Digest, PublicKey, Signature, Stake};
use crate::messages::{
    Certificate, CertificateView, Header, HeaderView, QCView, Timeout, TimeoutView, Vote,
    VoteView, Votes, QC,
};

verus! {

/// The stake that `voters` carry together, each counted as often as listed.
pub open spec fn weight(members: Seq<(PublicKey, Stake)>, voters: Seq<PublicKey>) -> nat
    decreases voters.len(),
{
    if voters.len() == 0 {
        0
    } else {
        weight(members, voters.drop_last()) + stake_in(members, voters.last())
    }
}

/// The validity threshold of a listing.
pub open spec fn validity_of(members: Seq<(PublicKey, Stake)>) -> nat {
    faults(total_stake(members)) + 1
}

/// The quorum threshold of a listing.
pub open spec fn quorum_of(members: Seq<(PublicKey, Stake)>) -> nat {
    2 * faults(total_stake(members)) + 1
}

/// The first thing wrong with who voted, among the first `n` votes: a
/// stranger, or a voter listed before.
pub open spec fn voter_flaw(
    members: Seq<(PublicKey, Stake)>,
    votes: Seq<(PublicKey, Signature)>,
    n: int,
) -> Option<DagError>
    decreases n,
{
    if n <= 0 {
        None
    } else {
        match voter_flaw(members, votes, n - 1) {
            Some(e) => Some(e),
            None => {
                let pk = votes[n - 1].0;
                if !has_key(members, pk) {
                    Some(DagError::UnknownAuthority(pk))
                } else if has_key(votes.take(n - 1), pk) {
                    Some(DagError::AuthorityReuse(pk))
                } else {
                    None
                }
            },
        }
    }
}

/// Whether every vote is a signature of its voter over `digest`.
pub open spec fn all_sign(votes: Seq<(PublicKey, Signature)>, digest: Digest) -> bool {
    forall|i: int| 0 <= i < votes.len() ==> (#[trigger] votes[i]).1.signs(digest, votes[i].0)
}

/// What a list of votes over `digest` is worth against `threshold`: the
/// voters are checked first, then their weight, then their signatures.
pub open spec fn votes_verdict(
    members: Seq<(PublicKey, Stake)>,
    votes: Seq<(PublicKey, Signature)>,
    digest: Digest,
    threshold: nat,
) -> Result<(), DagError> {
    match voter_flaw(members, votes, votes.len() as int) {
        Some(e) => Err(e),
        None => if weight(members, firsts(votes)) < threshold {
            Err(DagError::HeaderRequiresQuorum(digest))
        } else if !all_sign(votes, digest) {
            Err(DagError::BadSignature)
        } else {
            Ok(())
        },
    }
}

/// The stake of the voters listed in `votes`.
pub fn weigh(committee: &Committee, votes: &Votes) -> (w: u128)
    ensures
        w == weight(committee.members(), firsts(votes@)),
{
    let mut w: u128 = 0;
    let mut i: usize = 0;
    while i < votes.len()
        invariant
            i <= votes.len(),
            w == weight(committee.members(), firsts(votes@.take(i as int))),
            w <= i * 0x1_0000_0000,
        decreases votes.len() - i,
    {
        proof {
            let next = firsts(votes@.take(i + 1));
            assert(next.drop_last() =~= firsts(votes@.take(i as int)));
            assert(next.last() == votes@[i as int].0);
        }
        w = w + committee.stake(&votes[i].0) as u128;
        i += 1;
    }
    assert(votes@.take(votes@.len() as int) =~= votes@);
    w
}

/// Checks a list of votes over `digest` against `threshold`.
#[verifier::loop_isolation(false)]
pub fn check_votes(committee: &Committee, votes: &Votes, digest: &Digest, threshold: Stake) -> (r:
    Result<(), DagError>)
    ensures
        r == votes_verdict(committee.members(), votes@, *digest, threshold as nat),
{
    let mut i: usize = 0;
    while i < votes.len()
        invariant
            i <= votes.len(),
            voter_flaw(committee.members(), votes@, i as int) is None,
        decreases votes.len() - i,
    {
        let pk = votes[i].0;
        if !committee.is_member(&pk) {
            proof {
                lemma_flaw_stays(committee.members(), votes@, i + 1, votes@.len() as int);
            }
            return Err(DagError::UnknownAuthority(pk));
        }
        let mut j: usize = 0;
        while j < i
            invariant
                j <= i,
                i < votes.len(),
                pk == votes@[i as int].0,
                committee.has(pk),
                voter_flaw(committee.members(), votes@, i as int) is None,
                forall|k: int| 0 <= k < j ==> votes@[k].0 != pk,
            decreases i - j,
        {
            if votes[j].0 == pk {
                proof {
                    assert(votes@.take(i as int)[j as int].0 == pk);
                    lemma_flaw_stays(committee.members(), votes@, i + 1, votes@.len() as int);
                }
                return Err(DagError::AuthorityReuse(pk));
            }
            j += 1;
        }
        proof {
            if has_key(votes@.take(i as int), pk) {
                let k = choose|k: int|
                    0 <= k < votes@.take(i as int).len() && #[trigger] votes@.take(i as int)[k].0
                        == pk;
                assert(votes@[k].0 == pk);
            }
        }
        i += 1;
    }
    if weigh(committee, votes) < threshold as u128 {
        return Err(DagError::HeaderRequiresQuorum(*digest));
    }
    let mut i: usize = 0;
    while i < votes.len()
        invariant
            i <= votes.len(),
            forall|k: int| 0 <= k < i ==> (#[trigger] votes@[k]).1.signs(*digest, votes@[k].0),
        decreases votes.len() - i,
    {
        if !votes[i].1.verify(digest, &votes[i].0) {
            assert(!votes@[i as int].1.signs(*digest, votes@[i as int].0));
            return Err(DagError::BadSignature);
        }
        i += 1;
    }
    Ok(())
}

impl QCView {
    /// What the certificate is worth: its votes must be a quorum over its
    /// digest.
    pub open spec fn verdict(self, members: Seq<(PublicKey, Stake)>) -> Result<(), DagError> {
        votes_verdict(members, self.votes, self.digest, quorum_of(members))
    }
}

impl QC {
    /// Checks that the votes are a quorum over the digest.
    pub fn verify(&self, committee: &Committee) -> (r: Result<(), DagError>)
        ensures
            r == self@.verdict(committee.members()),
    {
        check_votes(committee, &self.votes, &self.digest, committee.quorum_threshold())
    }
}

impl CertificateView {
    /// What the certificate is worth: its origin must be a member; above
    /// height zero its votes must reach the validity threshold over the
    /// header's id.
    pub open spec fn verdict(self, members: Seq<(PublicKey, Stake)>) -> Result<(), DagError> {
        if !has_key(members, self.origin) {
            Err(DagError::UnknownAuthority(self.origin))
        } else if self.height == 0 {
            Ok(())
        } else {
            votes_verdict(members, self.votes, self.header_id, validity_of(members))
        }
    }
}

impl Certificate {
    /// Checks the origin and, above height zero, the votes.
    pub fn verify(&self, committee: &Committee) -> (r: Result<(), DagError>)
        ensures
            r == self@.verdict(committee.members()),
    {
        if !committee.is_member(&self.origin) {
            Err(DagError::UnknownAuthority(self.origin))
        } else if self.height == 0 {
            Ok(())
        } else {
            check_votes(committee, &self.votes, &self.header_id, committee.validity_threshold())
        }
    }
}

impl HeaderView {
    /// What the header is worth by itself, where `digest` is the content
    /// address of what it holds: its id must be that digest, and its author
    /// must be a member and must have signed the id.
    pub open spec fn verdict(self, digest: Digest, members: Seq<(PublicKey, Stake)>) -> Result<
        (),
        DagError,
    > {
        if self.id != digest {
            Err(DagError::MalformedHeader(self.id))
        } else if !has_key(members, self.author) {
            Err(DagError::UnknownAuthority(self.author))
        } else if !self.signature.signs(self.id, self.author) {
            Err(DagError::BadSignature)
        } else {
            Ok(())
        }
    }
}

impl Header {
    /// Checks the id against `digest`, the content address of what the
    /// header holds, then the author and the signature.
    pub fn verify(&self, digest: &Digest, committee: &Committee) -> (r: Result<(), DagError>)
        ensures
            r == self@.verdict(*digest, committee.members()),
    {
        if self.id != *digest {
            Err(DagError::MalformedHeader(self.id))
        } else if !committee.is_member(&self.author) {
            Err(DagError::UnknownAuthority(self.author))
        } else if !self.signature.verify(&self.id, &self.author) {
            Err(DagError::BadSignature)
        } else {
            Ok(())
        }
    }
}

impl VoteView {
    /// What the vote is worth by itself: the voter must be a member and must
    /// have signed the header's id.
    pub open spec fn verdict(self, members: Seq<(PublicKey, Stake)>) -> Result<(), DagError> {
        if !has_key(members, self.author) {
            Err(DagError::UnknownAuthority(self.author))
        } else if !self.signature.signs(self.id, self.author) {
            Err(DagError::BadSignature)
        } else {
            Ok(())
        }
    }
}

impl Vote {
    /// Checks the voter and the signature.
    pub fn verify(&self, committee: &Committee) -> (r: Result<(), DagError>)
        ensures
            r == self@.verdict(committee.members()),
    {
        if !committee.is_member(&self.author) {
            Err(DagError::UnknownAuthority(self.author))
        } else if !self.signature.verify(&self.id, &self.author) {
            Err(DagError::BadSignature)
        } else {
            Ok(())
        }
    }
}

impl TimeoutView {
    /// What the timeout is worth, where `digest` is the content address of
    /// its slot, its view and the certificate it carries: its author must be
    /// a member and must have signed that digest, which must be its id, and
    /// the certificate it carries, if any, must hold.
    pub open spec fn verdict(self, digest: Digest, members: Seq<(PublicKey, Stake)>) -> Result<
        (),
        DagError,
    > {
        if !has_key(members, self.author) {
            Err(DagError::UnknownAuthority(self.author))
        } else if self.id != digest || !self.signature.signs(self.id, self.author) {
            Err(DagError::BadSignature)
        } else {
            match self.high_qc {
                Some(h) => h.qc.verdict(members),
                None => Ok(()),
            }
        }
    }
}

impl Timeout {
    /// Checks the author, the id against `digest`, the signature and the
    /// certificate carried.
    pub fn verify(&self, digest: &Digest, committee: &Committee) -> (r: Result<(), DagError>)
        ensures
            r == self@.verdict(*digest, committee.members()),
    {
        if !committee.is_member(&self.author) {
            Err(DagError::UnknownAuthority(self.author))
        } else if self.id != *digest || !self.signature.verify(&self.id, &self.author) {
            Err(DagError::BadSignature)
        } else {
            match &self.high_qc {
                Some(h) => h.qc.verify(committee),
                None => Ok(()),
            }
        }
    }
}

/// A flaw found among the first `n` votes is the flaw of every longer prefix.
pub proof fn lemma_flaw_stays(
    members: Seq<(PublicKey, Stake)>,
    votes: Seq<(PublicKey, Signature)>,
    n: int,
    m: int,
)
    requires
        n <= m,
        voter_flaw(members, votes, n) is Some,
    ensures
        voter_flaw(members, votes, m) == voter_flaw(members, votes, n),
    decreases m - n,
{
    if n < m {
        lemma_flaw_stays(members, votes, n, m - 1);
    }
}

/// Without a flaw the voters are members and no two are the same.
pub proof fn lemma_no_flaw(
    members: Seq<(PublicKey, Stake)>,
    votes: Seq<(PublicKey, Signature)>,
    n: int,
)
    requires
        0 <= n <= votes.len(),
        voter_flaw(members, votes, n) is None,
    ensures
        firsts(votes.take(n)).no_duplicates(),
        forall|i: int| 0 <= i < n ==> has_key(members, (#[trigger] votes[i]).0),
    decreases n,
{
    if n > 0 {
        lemma_no_flaw(members, votes, n - 1);
        let s = votes.take(n);
        let t = votes.take(n - 1);
        assert forall|a: int, b: int| 0 <= a < n && 0 <= b < n && a != b implies firsts(s)[a]
            != firsts(s)[b] by {
            if a < n - 1 && b < n - 1 {
                assert(firsts(t)[a] != firsts(t)[b]);
            } else if a < n - 1 {
                assert(t[a].0 == votes[a].0);
            } else {
                assert(t[b].0 == votes[b].0);
            }
        }
    }
}

} // verus!
