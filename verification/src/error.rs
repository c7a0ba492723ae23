use vstd::prelude::*;
use crate::keys::{Digest, Height, PublicKey};

verus! {

/// Why the primary turned a message down.
#[derive(Clone, Copy, Debug, PartialEq, Eq)]
pub enum DagError {
    /// The header's height is not one above its parent certificate's.
    MalformedHeader(Digest),
    /// The header lies below the garbage-collection round.
    HeaderTooOld(Digest, Height),
    /// The votes listed for the entity with this digest weigh less than the
    /// threshold asked of them.
    HeaderRequiresQuorum(Digest),
    /// The author is no member of the committee.
    UnknownAuthority(PublicKey),
    /// A signature does not verify.
    BadSignature,
    /// The vote is for a height below the header that is collecting votes.
    VoteTooOld(Digest, Height),
    /// The vote is for another header than the one that is collecting votes.
    UnexpectedVote(Digest),
    /// The certificate lies below the garbage-collection round.
    CertificateTooOld(Digest, Height),
    /// The proof that came with a refusing vote does not hold.
    InvalidVoteInvalidation,
    /// A voter is listed twice, or voted twice with different shares.
    AuthorityReuse(PublicKey),
    /// A share came from a replica outside the committee.
    UnknownVoter(PublicKey),
    /// The store failed.
    StoreError,
    /// Bytes from the store or the network did not decode.
    SerializationError,
}

/// Why the mempool turned a payload or a request down.
#[derive(Clone, Copy, Debug, PartialEq, Eq)]
pub enum MempoolError {
    /// The queue holds as many digests as it may.
    MempoolFull,
    /// The payload's author is no member of the committee.
    UnknownAuthority(PublicKey),
    /// The payload is larger than a peer's payload may be.
    PayloadTooBig,
    /// The payload's signature does not verify.
    BadSignature,
    /// The store failed.
    StoreError,
    /// Bytes from the store did not decode.
    SerializationError,
}

/// How loudly an error is reported, and whether the node survives it.
#[derive(Clone, Copy, Debug, PartialEq, Eq, Structural)]
pub enum Severity {
    /// An ordinary outcome of a race; the message is dropped.
    Debug,
    /// The message is dropped.
    Warn,
    /// The error is reported; the loop goes on.
    Error,
    /// The node must stop: going on risks divergence.
    Fatal,
}

impl DagError {
    /// The severity of an error of the primary: storage and serialisation
    /// failures are fatal, messages that came too late are noted, the rest
    /// is warned of.
    pub open spec fn spec_severity(self) -> Severity {
        match self {
            DagError::StoreError | DagError::SerializationError => Severity::Fatal,
            DagError::HeaderTooOld(_, _) | DagError::VoteTooOld(_, _) | DagError::CertificateTooOld(
                _,
                _,
            ) | DagError::UnexpectedVote(_) => Severity::Debug,
            _ => Severity::Warn,
        }
    }

    #[verifier::when_used_as_spec(spec_severity)]
    pub fn severity(self) -> (s: Severity)
        ensures
            s == self.spec_severity(),
    {
        match self {
            DagError::StoreError | DagError::SerializationError => Severity::Fatal,
            DagError::HeaderTooOld(_, _) | DagError::VoteTooOld(_, _) | DagError::CertificateTooOld(
                _,
                _,
            ) | DagError::UnexpectedVote(_) => Severity::Debug,
            _ => Severity::Warn,
        }
    }
}

impl MempoolError {
    /// The severity of an error of the mempool: storage and serialisation
    /// failures are reported as errors, the rest is warned of; the loop goes
    /// on in every case.
    pub open spec fn spec_severity(self) -> Severity {
        match self {
            MempoolError::StoreError | MempoolError::SerializationError => Severity::Error,
            _ => Severity::Warn,
        }
    }

    #[verifier::when_used_as_spec(spec_severity)]
    pub fn severity(self) -> (s: Severity)
        ensures
            s == self.spec_severity(),
    {
        match self {
            MempoolError::StoreError | MempoolError::SerializationError => Severity::Error,
            _ => Severity::Warn,
        }
    }
}

} // verus!
