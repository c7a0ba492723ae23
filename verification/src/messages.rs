use vstd::prelude::*;
use crate::keys::{Digest, Height, PublicKey, Signature, Slot, ViewNumber};

verus! {

/// A pointer into the DAG: a header by its digest, with its height.
#[derive(Clone, Copy, PartialEq, Eq, Debug)]
pub struct Proposal {
    pub header_digest: Digest,
    pub height: Height,
}

/// For each author at most one proposal; of several entries for one author
/// the first counts.
pub type Proposals = Vec<(PublicKey, Proposal)>;

/// Voters with their signatures.
pub type Votes = Vec<(PublicKey, Signature)>;

/// A copy of a list of plain values.
pub fn copy_list<T: Copy>(v: &Vec<T>) -> (r: Vec<T>)
    ensures
        r@ == v@,
{
    let mut r: Vec<T> = Vec::new();
    let mut i: usize = 0;
    while i < v.len()
        invariant
            i <= v.len(),
            r@ == v@.take(i as int),
        decreases v.len() - i,
    {
        r.push(v[i]);
        assert(v@.take(i + 1) =~= v@.take(i as int).push(v@[i as int]));
        i += 1;
    }
    assert(v@.take(v@.len() as int) =~= v@);
    r
}

/// A quorum certificate: signatures of a quorum over the digest of one
/// consensus message.
#[derive(Debug, PartialEq, Eq)]
pub struct QC {
    pub digest: Digest,
    pub votes: Votes,
}

/// The model of `QC` that contracts speak of.
pub struct QCView {
    pub digest: Digest,
    pub votes: Seq<(PublicKey, Signature)>,
}

impl View for QC {
    type V = QCView;

    open spec fn view(&self) -> QCView {
        QCView { digest: self.digest, votes: self.votes@ }
    }
}

impl Clone for QC {
    fn clone(&self) -> (r: Self)
        ensures
            r@ == self@,
    {
        QC { digest: self.digest, votes: copy_list(&self.votes) }
    }
}

/// The content of a Confirm message as a timeout carries it: the highest
/// quorum certificate that its sender has seen for the slot.
#[derive(Debug, PartialEq, Eq)]
pub struct HighQC {
    pub slot: Slot,
    pub view: ViewNumber,
    pub qc: QC,
    pub proposals: Proposals,
}

/// The model of `HighQC` that contracts speak of.
pub struct HighQCView {
    pub slot: Slot,
    pub view: ViewNumber,
    pub qc: QCView,
    pub proposals: Seq<(PublicKey, Proposal)>,
}

impl View for HighQC {
    type V = HighQCView;

    open spec fn view(&self) -> HighQCView {
        HighQCView { slot: self.slot, view: self.view, qc: self.qc@, proposals: self.proposals@ }
    }
}

impl Clone for HighQC {
    fn clone(&self) -> (r: Self)
        ensures
            r@ == self@,
    {
        HighQC {
            slot: self.slot,
            view: self.view,
            qc: self.qc.clone(),
            proposals: copy_list(&self.proposals),
        }
    }
}

/// A replica's statement that a view of a slot ran out of time.
#[derive(Debug, PartialEq, Eq)]
pub struct Timeout {
    /// The content address of the statement, which the signature covers.
    pub id: Digest,
    pub slot: Slot,
    pub view: ViewNumber,
    pub high_qc: Option<HighQC>,
    pub author: PublicKey,
    pub signature: Signature,
}

/// The model of `Timeout` that contracts speak of.
pub struct TimeoutView {
    pub id: Digest,
    pub slot: Slot,
    pub view: ViewNumber,
    pub high_qc: Option<HighQCView>,
    pub author: PublicKey,
    pub signature: Signature,
}

/// The model of an optional high certificate.
pub open spec fn high_qc_view(q: Option<HighQC>) -> Option<HighQCView> {
    match q {
        Some(h) => Some(h@),
        None => None,
    }
}

impl View for Timeout {
    type V = TimeoutView;

    open spec fn view(&self) -> TimeoutView {
        TimeoutView {
            id: self.id,
            slot: self.slot,
            view: self.view,
            high_qc: high_qc_view(self.high_qc),
            author: self.author,
            signature: self.signature,
        }
    }
}

impl Clone for Timeout {
    fn clone(&self) -> (r: Self)
        ensures
            r@ == self@,
    {
        let high_qc = match &self.high_qc {
            Some(h) => Some(h.clone()),
            None => None,
        };
        Timeout {
            id: self.id,
            slot: self.slot,
            view: self.view,
            high_qc,
            author: self.author,
            signature: self.signature,
        }
    }
}

/// The models of a list of timeouts.
pub open spec fn timeouts_view(s: Seq<Timeout>) -> Seq<TimeoutView> {
    Seq::new(s.len(), |i: int| s[i]@)
}

/// A timeout certificate: timeouts of a quorum for one view of one slot.
#[derive(Debug, PartialEq, Eq)]
pub struct TC {
    pub slot: Slot,
    pub view: ViewNumber,
    pub timeouts: Vec<Timeout>,
}

/// The model of `TC` that contracts speak of.
pub struct TCView {
    pub slot: Slot,
    pub view: ViewNumber,
    pub timeouts: Seq<TimeoutView>,
}

impl View for TC {
    type V = TCView;

    open spec fn view(&self) -> TCView {
        TCView { slot: self.slot, view: self.view, timeouts: timeouts_view(self.timeouts@) }
    }
}

/// A copy of a list of timeouts.
pub fn copy_timeouts(v: &Vec<Timeout>) -> (r: Vec<Timeout>)
    ensures
        timeouts_view(r@) == timeouts_view(v@),
{
    let mut r: Vec<Timeout> = Vec::new();
    let mut i: usize = 0;
    while i < v.len()
        invariant
            i <= v.len(),
            r@.len() == i,
            forall|j: int| 0 <= j < i ==> r@[j]@ == v@[j]@,
        decreases v.len() - i,
    {
        r.push(v[i].clone());
        i += 1;
    }
    assert(timeouts_view(r@) =~= timeouts_view(v@));
    r
}

impl Clone for TC {
    fn clone(&self) -> (r: Self)
        ensures
            r@ == self@,
    {
        TC { slot: self.slot, view: self.view, timeouts: copy_timeouts(&self.timeouts) }
    }
}

/// What shows that a slot is concluded: the header, named by its id, with
/// which the slot's leader proposed, or a timeout certificate.
#[derive(Debug, PartialEq, Eq)]
pub enum Evidence {
    Header(Digest),
    Timeouts(TC),
}

/// The model of `Evidence` that contracts speak of.
pub enum EvidenceView {
    Header(Digest),
    Timeouts(TCView),
}

impl View for Evidence {
    type V = EvidenceView;

    open spec fn view(&self) -> EvidenceView {
        match self {
            Evidence::Header(id) => EvidenceView::Header(*id),
            Evidence::Timeouts(tc) => EvidenceView::Timeouts(tc@),
        }
    }
}

impl Clone for Evidence {
    fn clone(&self) -> (r: Self)
        ensures
            r@ == self@,
    {
        match self {
            Evidence::Header(id) => Evidence::Header(*id),
            Evidence::Timeouts(tc) => Evidence::Timeouts(tc.clone()),
        }
    }
}

/// The right to propose for the slot after `slot`.
#[derive(Debug, PartialEq, Eq)]
pub struct Ticket {
    pub evidence: Evidence,
    pub slot: Slot,
    pub proposals: Proposals,
}

/// The model of `Ticket` that contracts speak of.
pub struct TicketView {
    pub evidence: EvidenceView,
    pub slot: Slot,
    pub proposals: Seq<(PublicKey, Proposal)>,
}

impl View for Ticket {
    type V = TicketView;

    open spec fn view(&self) -> TicketView {
        TicketView { evidence: self.evidence@, slot: self.slot, proposals: self.proposals@ }
    }
}

impl Clone for Ticket {
    fn clone(&self) -> (r: Self)
        ensures
            r@ == self@,
    {
        Ticket {
            evidence: self.evidence.clone(),
            slot: self.slot,
            proposals: copy_list(&self.proposals),
        }
    }
}

/// A message of the agreement protocol.
#[derive(Debug, PartialEq, Eq)]
pub enum ConsensusMessage {
    Prepare { slot: Slot, view: ViewNumber, ticket: Ticket, proposals: Proposals },
    Confirm { slot: Slot, view: ViewNumber, qc: QC, proposals: Proposals },
    Commit { slot: Slot, view: ViewNumber, qc: QC, proposals: Proposals },
}

/// The model of `Message` that contracts speak of.
pub enum MessageView {
    Prepare { slot: Slot, view: ViewNumber, ticket: TicketView, proposals: Seq<(PublicKey, Proposal)> },
    Confirm { slot: Slot, view: ViewNumber, qc: QCView, proposals: Seq<(PublicKey, Proposal)> },
    Commit { slot: Slot, view: ViewNumber, qc: QCView, proposals: Seq<(PublicKey, Proposal)> },
}

impl MessageView {
    pub open spec fn slot(self) -> Slot {
        match self {
            MessageView::Prepare { slot, .. } => slot,
            MessageView::Confirm { slot, .. } => slot,
            MessageView::Commit { slot, .. } => slot,
        }
    }

    pub open spec fn view_number(self) -> ViewNumber {
        match self {
            MessageView::Prepare { view, .. } => view,
            MessageView::Confirm { view, .. } => view,
            MessageView::Commit { view, .. } => view,
        }
    }

    pub open spec fn proposals(self) -> Seq<(PublicKey, Proposal)> {
        match self {
            MessageView::Prepare { proposals, .. } => proposals,
            MessageView::Confirm { proposals, .. } => proposals,
            MessageView::Commit { proposals, .. } => proposals,
        }
    }
}

impl View for ConsensusMessage {
    type V = MessageView;

    open spec fn view(&self) -> MessageView {
        match self {
            ConsensusMessage::Prepare { slot, view, ticket, proposals } => MessageView::Prepare {
                slot: *slot,
                view: *view,
                ticket: ticket@,
                proposals: proposals@,
            },
            ConsensusMessage::Confirm { slot, view, qc, proposals } => MessageView::Confirm {
                slot: *slot,
                view: *view,
                qc: qc@,
                proposals: proposals@,
            },
            ConsensusMessage::Commit { slot, view, qc, proposals } => MessageView::Commit {
                slot: *slot,
                view: *view,
                qc: qc@,
                proposals: proposals@,
            },
        }
    }
}

impl Clone for ConsensusMessage {
    fn clone(&self) -> (r: Self)
        ensures
            r@ == self@,
    {
        match self {
            ConsensusMessage::Prepare { slot, view, ticket, proposals } => ConsensusMessage::Prepare {
                slot: *slot,
                view: *view,
                ticket: ticket.clone(),
                proposals: copy_list(proposals),
            },
            ConsensusMessage::Confirm { slot, view, qc, proposals } => ConsensusMessage::Confirm {
                slot: *slot,
                view: *view,
                qc: qc.clone(),
                proposals: copy_list(proposals),
            },
            ConsensusMessage::Commit { slot, view, qc, proposals } => ConsensusMessage::Commit {
                slot: *slot,
                view: *view,
                qc: qc.clone(),
                proposals: copy_list(proposals),
            },
        }
    }
}

/// A dissemination certificate: signatures over a header's id that show
/// that the header is available.
#[derive(Debug, PartialEq, Eq)]
pub struct Certificate {
    pub header_id: Digest,
    pub origin: PublicKey,
    pub height: Height,
    pub votes: Votes,
}

/// The model of `Certificate` that contracts speak of.
pub struct CertificateView {
    pub header_id: Digest,
    pub origin: PublicKey,
    pub height: Height,
    pub votes: Seq<(PublicKey, Signature)>,
}

impl View for Certificate {
    type V = CertificateView;

    open spec fn view(&self) -> CertificateView {
        CertificateView {
            header_id: self.header_id,
            origin: self.origin,
            height: self.height,
            votes: self.votes@,
        }
    }
}

impl Clone for Certificate {
    fn clone(&self) -> (r: Self)
        ensures
            r@ == self@,
    {
        Certificate {
            header_id: self.header_id,
            origin: self.origin,
            height: self.height,
            votes: copy_list(&self.votes),
        }
    }
}

impl CertificateView {
    /// The certificate that stands before an author's first header.
    pub open spec fn genesis(author: PublicKey) -> CertificateView {
        CertificateView { header_id: Digest::zero(), origin: author, height: 0, votes: Seq::empty() }
    }
}

impl Certificate {
    /// The certificate that stands before an author's first header.
    pub fn genesis(author: PublicKey) -> (c: Certificate)
        ensures
            c@ == CertificateView::genesis(author),
    {
        Certificate { header_id: Digest::default(), origin: author, height: 0, votes: Vec::new() }
    }
}

/// The models of the consensus messages that a header carries, each under
/// its digest.
pub open spec fn instances_view(s: Seq<(Digest, ConsensusMessage)>) -> Seq<(Digest, MessageView)> {
    Seq::new(s.len(), |i: int| (s[i].0, s[i].1@))
}

/// A copy of the consensus messages that a header carries.
pub fn copy_instances(v: &Vec<(Digest, ConsensusMessage)>) -> (r: Vec<(Digest, ConsensusMessage)>)
    ensures
        instances_view(r@) == instances_view(v@),
{
    let mut r: Vec<(Digest, ConsensusMessage)> = Vec::new();
    let mut i: usize = 0;
    while i < v.len()
        invariant
            i <= v.len(),
            r@.len() == i,
            forall|j: int| 0 <= j < i ==> r@[j].0 == v@[j].0 && r@[j].1@ == v@[j].1@,
        decreases v.len() - i,
    {
        r.push((v[i].0, v[i].1.clone()));
        i += 1;
    }
    assert(instances_view(r@) =~= instances_view(v@));
    r
}

/// A block of an author's chain.
#[derive(Debug, PartialEq, Eq)]
pub struct Header {
    /// The content address of the header, which the signature covers.
    pub id: Digest,
    pub author: PublicKey,
    pub height: Height,
    pub parent_cert: Certificate,
    pub payload_digests: Vec<Digest>,
    pub consensus_instances: Vec<(Digest, ConsensusMessage)>,
    pub signature: Signature,
}

/// The model of `Header` that contracts speak of.
pub struct HeaderView {
    pub id: Digest,
    pub author: PublicKey,
    pub height: Height,
    pub parent_cert: CertificateView,
    pub payload_digests: Seq<Digest>,
    pub consensus_instances: Seq<(Digest, MessageView)>,
    pub signature: Signature,
}

impl View for Header {
    type V = HeaderView;

    open spec fn view(&self) -> HeaderView {
        HeaderView {
            id: self.id,
            author: self.author,
            height: self.height,
            parent_cert: self.parent_cert@,
            payload_digests: self.payload_digests@,
            consensus_instances: instances_view(self.consensus_instances@),
            signature: self.signature,
        }
    }
}

impl Clone for Header {
    fn clone(&self) -> (r: Self)
        ensures
            r@ == self@,
    {
        Header {
            id: self.id,
            author: self.author,
            height: self.height,
            parent_cert: self.parent_cert.clone(),
            payload_digests: copy_list(&self.payload_digests),
            consensus_instances: copy_instances(&self.consensus_instances),
            signature: self.signature,
        }
    }
}

impl HeaderView {
    /// The header that stands at the bottom of an author's chain.
    pub open spec fn genesis(author: PublicKey) -> HeaderView {
        HeaderView {
            id: Digest::zero(),
            author,
            height: 0,
            parent_cert: CertificateView::genesis(author),
            payload_digests: Seq::empty(),
            consensus_instances: Seq::empty(),
            signature: Signature::zero(),
        }
    }
}

impl Header {
    /// The header that stands at the bottom of an author's chain.
    pub fn genesis(author: PublicKey) -> (h: Header)
        ensures
            h@ == HeaderView::genesis(author),
    {
        let h = Header {
            id: Digest::default(),
            author,
            height: 0,
            parent_cert: Certificate::genesis(author),
            payload_digests: Vec::new(),
            consensus_instances: Vec::new(),
            signature: Signature::default(),
        };
        assert(instances_view(h.consensus_instances@) =~= Seq::empty());
        h
    }
}

/// A replica's vote for a header and for consensus messages that it carries.
#[derive(Debug, PartialEq, Eq)]
pub struct Vote {
    /// The id of the header voted for.
    pub id: Digest,
    pub height: Height,
    /// The author of the header.
    pub origin: PublicKey,
    /// The voter.
    pub author: PublicKey,
    /// The voter's signature over `id`.
    pub signature: Signature,
    /// The voter's signatures over the digests of consensus messages.
    pub consensus_sigs: Vec<(Digest, Signature)>,
}

/// The model of `Vote` that contracts speak of.
pub struct VoteView {
    pub id: Digest,
    pub height: Height,
    pub origin: PublicKey,
    pub author: PublicKey,
    pub signature: Signature,
    pub consensus_sigs: Seq<(Digest, Signature)>,
}

impl View for Vote {
    type V = VoteView;

    open spec fn view(&self) -> VoteView {
        VoteView {
            id: self.id,
            height: self.height,
            origin: self.origin,
            author: self.author,
            signature: self.signature,
            consensus_sigs: self.consensus_sigs@,
        }
    }
}

impl Clone for Vote {
    fn clone(&self) -> (r: Self)
        ensures
            r@ == self@,
    {
        Vote {
            id: self.id,
            height: self.height,
            origin: self.origin,
            author: self.author,
            signature: self.signature,
            consensus_sigs: copy_list(&self.consensus_sigs),
        }
    }
}

} // verus!
