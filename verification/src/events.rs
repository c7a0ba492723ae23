use vstd::prelude::*;
use crate::keys::{Digest, Slot, ViewNumber};
use crate::messages::{
    Certificate, CertificateView, ConsensusMessage, Header, HeaderView, MessageView, TCView,
    Timeout, TimeoutView, Vote, VoteView, TC,
};

verus! {

/// What the primary's loop can be woken by.
#[derive(Debug, PartialEq, Eq)]
pub enum Event {
    /// A header from a peer, or one handed back once what it depends on has
    /// arrived. `digest` is the content address of what the header holds,
    /// worked out from what was received; the flags say what the synchroniser
    /// found missing.
    Header { header: Header, digest: Digest, payload_missing: bool, parent_missing: bool },
    /// A header that this replica's proposer has made.
    OwnHeader { header: Header, digest: Digest, payload_missing: bool, parent_missing: bool },
    /// A vote from a peer.
    Vote(Vote),
    /// The vote that this replica cast for its own header.
    OwnVote(Vote),
    /// A certificate from a peer.
    Certificate(Certificate),
    /// A timeout from a peer, with the content address of its slot, its view
    /// and the certificate it carries, worked out from what was received.
    Timeout { timeout: Timeout, digest: Digest },
    /// The timeout that this replica had signed.
    OwnTimeout { timeout: Timeout, digest: Digest },
    /// A timeout certificate from a peer.
    TimeoutCertificate(TC),
    /// A timer has run out.
    Timer { slot: Slot, view: ViewNumber },
    /// The synchroniser has fetched something; `readiness` says, for each
    /// proposal of the commit that waits in front, whether it is at hand.
    Loopback { readiness: Vec<bool> },
    /// The answer to a request to resolve a commit.
    CommitResolved { message: ConsensusMessage, readiness: Vec<bool> },
}

/// The model of `Event` that contracts speak of.
pub enum EventView {
    Header { header: HeaderView, digest: Digest, payload_missing: bool, parent_missing: bool },
    OwnHeader { header: HeaderView, digest: Digest, payload_missing: bool, parent_missing: bool },
    Vote(VoteView),
    OwnVote(VoteView),
    Certificate(CertificateView),
    Timeout { timeout: TimeoutView, digest: Digest },
    OwnTimeout { timeout: TimeoutView, digest: Digest },
    TimeoutCertificate(TCView),
    Timer { slot: Slot, view: ViewNumber },
    Loopback { readiness: Seq<bool> },
    CommitResolved { message: MessageView, readiness: Seq<bool> },
}

impl View for Event {
    type V = EventView;

    open spec fn view(&self) -> EventView {
        match self {
            Event::Header { header, digest, payload_missing, parent_missing } => EventView::Header {
                header: header@,
                digest: *digest,
                payload_missing: *payload_missing,
                parent_missing: *parent_missing,
            },
            Event::OwnHeader {
                header,
                digest,
                payload_missing,
                parent_missing,
            } => EventView::OwnHeader {
                header: header@,
                digest: *digest,
                payload_missing: *payload_missing,
                parent_missing: *parent_missing,
            },
            Event::Vote(v) => EventView::Vote(v@),
            Event::OwnVote(v) => EventView::OwnVote(v@),
            Event::Certificate(c) => EventView::Certificate(c@),
            Event::Timeout { timeout, digest } => EventView::Timeout {
                timeout: timeout@,
                digest: *digest,
            },
            Event::OwnTimeout { timeout, digest } => EventView::OwnTimeout {
                timeout: timeout@,
                digest: *digest,
            },
            Event::TimeoutCertificate(tc) => EventView::TimeoutCertificate(tc@),
            Event::Timer { slot, view } => EventView::Timer { slot: *slot, view: *view },
            Event::Loopback { readiness } => EventView::Loopback { readiness: readiness@ },
            Event::CommitResolved { message, readiness } => EventView::CommitResolved {
                message: message@,
                readiness: readiness@,
            },
        }
    }
}

} // verus!
