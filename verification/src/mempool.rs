use vstd::prelude::*;
use crate::collections::{has_key, lemma_has_key_take, KeySet};
use crate::committee::Committee;
use crate::error::MempoolError;
use crate::keys::{lex_less, Digest, Height, PublicKey, Signature, Stake, DIGEST_LEN};

verus! {

/// Seconds after the start at which the simulated partition sets in.
pub const PARTITION_START_SECS: u64 = 10;

/// Seconds after the start at which the simulated partition first heals.
pub const PARTITION_END_SECS: u64 = 30;

/// Seconds between two beginnings, and between two ends, of the partition.
pub const PARTITION_PERIOD_SECS: u64 = 100;

/// The number of replicas, counted from the lowest key, on the left side of
/// the simulated partition.
pub const PARTITION_SPLIT: usize = 2;

/// What the mempool is run with.
#[derive(Clone, Copy, Debug, PartialEq, Eq)]
pub struct Parameters {
    /// How many digests may wait in the queue.
    pub queue_capacity: usize,
    /// How many bytes a peer's payload may hold.
    pub max_payload_size: usize,
}

/// A batch of transactions, signed by the replica that put it together.
#[derive(Debug, PartialEq, Eq)]
pub struct Payload {
    pub transactions: Vec<Vec<u8>>,
    pub author: PublicKey,
    pub signature: Signature,
}

/// The model of `Payload` that contracts speak of.
pub struct PayloadView {
    pub transactions: Seq<Seq<u8>>,
    pub author: PublicKey,
    pub signature: Signature,
}

/// The byte strings of a list of transactions.
pub open spec fn transactions_view(s: Seq<Vec<u8>>) -> Seq<Seq<u8>> {
    Seq::new(s.len(), |i: int| s[i]@)
}

/// The number of bytes in the first `n` transactions.
pub open spec fn bytes_in(transactions: Seq<Seq<u8>>, n: int) -> nat
    decreases n,
{
    if n <= 0 {
        0
    } else {
        bytes_in(transactions, n - 1) + transactions[n - 1].len()
    }
}

impl PayloadView {
    /// The number of bytes of all transactions together.
    pub open spec fn size(self) -> nat {
        bytes_in(self.transactions, self.transactions.len() as int)
    }
}

impl View for Payload {
    type V = PayloadView;

    open spec fn view(&self) -> PayloadView {
        PayloadView {
            transactions: transactions_view(self.transactions@),
            author: self.author,
            signature: self.signature,
        }
    }
}

impl Clone for Payload {
    fn clone(&self) -> (r: Self)
        ensures
            r@ == self@,
    {
        let mut transactions: Vec<Vec<u8>> = Vec::new();
        let mut i: usize = 0;
        while i < self.transactions.len()
            invariant
                i <= self.transactions.len(),
                transactions@.len() == i,
                forall|j: int| 0 <= j < i ==> transactions@[j]@ == self.transactions@[j]@,
            decreases self.transactions.len() - i,
        {
            transactions.push(crate::messages::copy_list(&self.transactions[i]));
            i += 1;
        }
        assert(transactions_view(transactions@) =~= transactions_view(self.transactions@));
        Payload { transactions, author: self.author, signature: self.signature }
    }
}

impl Payload {
    /// The number of bytes of all transactions together.
    pub fn size(&self) -> (n: u128)
        ensures
            n == self@.size(),
    {
        let mut n: u128 = 0;
        let mut i: usize = 0;
        while i < self.transactions.len()
            invariant
                i <= self.transactions.len(),
                n == bytes_in(self@.transactions, i as int),
                n <= i * 0x1_0000_0000_0000_0000,
            decreases self.transactions.len() - i,
        {
            n = n + self.transactions[i].len() as u128;
            i += 1;
        }
        n
    }
}

/// What replicas' mempools send each other, and what a replica's own
/// front end hands to its mempool.
#[derive(Debug, PartialEq, Eq)]
pub enum MempoolMessage {
    /// A payload of this replica's own; never taken from the network.
    OwnPayload(Payload),
    /// A payload of a peer.
    Payload(Payload),
    /// A request for the payloads with these digests, to be sent to the
    /// replica named.
    PayloadRequest(Vec<Digest>, PublicKey),
}

/// What consensus is told of the payloads of a block.
#[derive(Clone, Copy, Debug, PartialEq, Eq, Structural)]
pub enum PayloadStatus {
    /// All are at hand.
    Accept,
    /// Some are missing and are being fetched.
    Wait,
    /// They could not be looked up.
    Reject,
}

/// The status that goes with what the synchroniser found.
pub fn payload_status(found: Result<bool, MempoolError>) -> (status: PayloadStatus)
    ensures
        status == match found {
            Ok(true) => PayloadStatus::Accept,
            Ok(false) => PayloadStatus::Wait,
            Err(_) => PayloadStatus::Reject,
        },
{
    match found {
        Ok(true) => PayloadStatus::Accept,
        Ok(false) => PayloadStatus::Wait,
        Err(_) => PayloadStatus::Reject,
    }
}

/// What the mempool asks of the world around it.
#[derive(Debug, PartialEq, Eq)]
pub enum MempoolAction {
    /// Write the payload to the store under its digest.
    Store { digest: Digest, payload: Payload },
    /// Send the payload to the replicas listed.
    Transmit { payload: Payload, recipients: Vec<PublicKey> },
    /// Tell the synchroniser to drop what it tracks up to `round`.
    Cleanup { round: Height },
}

/// The model of `MempoolAction` that contracts speak of.
pub enum MempoolActionView {
    Store { digest: Digest, payload: PayloadView },
    Transmit { payload: PayloadView, recipients: Seq<PublicKey> },
    Cleanup { round: Height },
}

impl View for MempoolAction {
    type V = MempoolActionView;

    open spec fn view(&self) -> MempoolActionView {
        match self {
            MempoolAction::Store { digest, payload } => MempoolActionView::Store {
                digest: *digest,
                payload: payload@,
            },
            MempoolAction::Transmit { payload, recipients } => MempoolActionView::Transmit {
                payload: payload@,
                recipients: recipients@,
            },
            MempoolAction::Cleanup { round } => MempoolActionView::Cleanup { round: *round },
        }
    }
}

/// The models of a list of actions.
pub open spec fn mempool_actions_view(s: Seq<MempoolAction>) -> Seq<MempoolActionView> {
    Seq::new(s.len(), |i: int| s[i]@)
}

/// How many of the first `n` members have a key that sorts before `key`.
pub open spec fn rank(members: Seq<(PublicKey, Stake)>, n: int, key: PublicKey) -> nat
    decreases n,
{
    if n <= 0 {
        0
    } else {
        rank(members, n - 1, key) + if lex_less(members[n - 1].0.0@, key.0@) {
            1nat
        } else {
            0nat
        }
    }
}

/// Whether `key` falls on the right side of the simulated partition: the
/// two members with the lowest keys are on the left, all others on the right.
pub open spec fn on_right(members: Seq<(PublicKey, Stake)>, key: PublicKey) -> bool {
    rank(members, members.len() as int, key) >= PARTITION_SPLIT
}

/// The members on `name`'s side of the simulated partition.
pub open spec fn partition_of(members: Seq<(PublicKey, Stake)>, name: PublicKey) -> Set<PublicKey> {
    Set::new(|k: PublicKey| has_key(members, k) && on_right(members, k) == on_right(members, name))
}

/// Of the first `n` members, in the order listed, those other than `name`
/// and, where `within` is given, in it.
pub open spec fn others(
    members: Seq<(PublicKey, Stake)>,
    n: int,
    name: PublicKey,
    within: Option<Set<PublicKey>>,
) -> Seq<PublicKey>
    decreases n,
{
    if n <= 0 {
        Seq::empty()
    } else {
        let rest = others(members, n - 1, name, within);
        let k = members[n - 1].0;
        if k != name && (within matches Some(set) ==> set.contains(k)) {
            rest.push(k)
        } else {
            rest
        }
    }
}

/// What the mempool knows: the model on which its steps are defined.
pub struct MempoolState {
    /// This replica.
    pub name: PublicKey,
    /// The committee, as listed.
    pub members: Seq<(PublicKey, Stake)>,
    pub parameters: Parameters,
    /// The digests that wait for a header, oldest first, none twice.
    pub queue: Seq<Digest>,
    /// Whether the simulated partition is on.
    pub during_simulated_asynchrony: bool,
    /// The members on this replica's side of the simulated partition.
    pub partition_public_keys: Set<PublicKey>,
}

impl MempoolState {
    /// The state that a mempool starts in.
    pub open spec fn initial(
        name: PublicKey,
        members: Seq<(PublicKey, Stake)>,
        parameters: Parameters,
    ) -> MempoolState {
        MempoolState {
            name,
            members,
            parameters,
            queue: Seq::empty(),
            during_simulated_asynchrony: false,
            partition_public_keys: Set::empty(),
        }
    }

    /// To whom a message goes: to the replica it is meant for, or, meant
    /// for nobody in particular, to every other member; while the simulated
    /// partition is on, to the other members on this replica's side of it,
    /// whoever it was meant for.
    pub open spec fn recipients(self, to: Option<PublicKey>) -> Seq<PublicKey> {
        if self.during_simulated_asynchrony {
            others(
                self.members,
                self.members.len() as int,
                self.name,
                Some(self.partition_public_keys),
            )
        } else {
            match to {
                Some(pk) => seq![pk],
                None => others(self.members, self.members.len() as int, self.name, None),
            }
        }
    }

    /// The queue with `digest` in it.
    pub open spec fn enqueue(self, digest: Digest) -> MempoolState {
        if self.queue.contains(digest) {
            self
        } else {
            MempoolState { queue: self.queue.push(digest), ..self }
        }
    }

    /// What a payload of this replica's own does before it is queued: with a
    /// full queue it is turned down; else it is stored and sent to the
    /// others.
    pub open spec fn own_payload_step(self, digest: Digest, payload: PayloadView) -> Result<
        Seq<MempoolActionView>,
        MempoolError,
    > {
        if self.queue.len() >= self.parameters.queue_capacity {
            Err(MempoolError::MempoolFull)
        } else {
            Ok(
                seq![
                    MempoolActionView::Store { digest, payload },
                    MempoolActionView::Transmit { payload, recipients: self.recipients(None) },
                ],
            )
        }
    }

    /// What a payload does that this replica's front end hands in: it is
    /// processed as the replica's own and then queued.
    pub open spec fn handle_own_step(self, digest: Digest, payload: PayloadView) -> (
        MempoolState,
        Result<Seq<MempoolActionView>, MempoolError>,
    ) {
        match self.own_payload_step(digest, payload) {
            Err(e) => (self, Err(e)),
            Ok(a) => (self.enqueue(digest), Ok(a)),
        }
    }

    /// What a peer's payload does: its author must be a member, it must not
    /// be too big, and the author must have signed its digest; then it is
    /// stored and queued.
    pub open spec fn handle_others_step(self, digest: Digest, payload: PayloadView) -> (
        MempoolState,
        Result<Seq<MempoolActionView>, MempoolError>,
    ) {
        if !has_key(self.members, payload.author) {
            (self, Err(MempoolError::UnknownAuthority(payload.author)))
        } else if payload.size() > self.parameters.max_payload_size {
            (self, Err(MempoolError::PayloadTooBig))
        } else if !payload.signature.signs(digest, payload.author) {
            (self, Err(MempoolError::BadSignature))
        } else {
            (self.enqueue(digest), Ok(seq![MempoolActionView::Store { digest, payload }]))
        }
    }

    /// The answers to a request: each payload found goes out as a message
    /// for the requestor.
    pub open spec fn request_step(self, found: Seq<PayloadView>, requestor: PublicKey) -> Seq<
        MempoolActionView,
    > {
        Seq::new(
            found.len(),
            |i: int|
                MempoolActionView::Transmit {
                    payload: found[i],
                    recipients: self.recipients(Some(requestor)),
                },
        )
    }

    /// How many digests a request for `max` bytes takes from the queue.
    pub open spec fn take_count(self, max: usize) -> int {
        let fit = max as int / DIGEST_LEN as int;
        if fit < self.queue.len() {
            fit
        } else {
            self.queue.len() as int
        }
    }

    /// What a request for digests does where the queue is not empty: the
    /// oldest digests that fit into `max` bytes leave the queue.
    pub open spec fn get_step(self, max: usize) -> (MempoolState, Seq<Digest>) {
        (
            MempoolState {
                queue: self.queue.subrange(self.take_count(max), self.queue.len() as int),
                ..self
            },
            self.queue.subrange(0, self.take_count(max)),
        )
    }

    /// The queue without the digests listed.
    pub open spec fn cleanup_step(self, digests: Seq<Digest>) -> MempoolState {
        MempoolState { queue: self.queue.filter(|d: Digest| !digests.contains(d)), ..self }
    }
}

/// A payload of the replica's own never takes the queue beyond its capacity,
/// and never puts a digest in twice.
pub proof fn law_own_payload_within_capacity(s: MempoolState, digest: Digest, payload: PayloadView)
    requires
        s.queue.no_duplicates(),
        s.queue.len() <= s.parameters.queue_capacity,
    ensures
        s.handle_own_step(digest, payload).0.queue.no_duplicates(),
        s.handle_own_step(digest, payload).0.queue.len() <= s.parameters.queue_capacity,
        s.handle_own_step(digest, payload).1 is Err ==> s.handle_own_step(digest, payload).0 == s,
{
}

/// A digest goes to the proposer at most once: what a request takes from
/// the queue is no longer in it, and what it takes and what it leaves are
/// together what was there, in the order it was there.
pub proof fn law_digests_handed_out_once(s: MempoolState, max: usize)
    requires
        s.queue.no_duplicates(),
    ensures
        s.get_step(max).1 + s.get_step(max).0.queue == s.queue,
        s.get_step(max).1.len() <= max / DIGEST_LEN,
        s.get_step(max).0.queue.no_duplicates(),
        forall|d: Digest| s.get_step(max).1.contains(d) ==> !s.get_step(max).0.queue.contains(d),
{
    let (t, out) = s.get_step(max);
    let k = s.take_count(max);
    assert(out + t.queue =~= s.queue);
    assert forall|d: Digest| out.contains(d) implies !t.queue.contains(d) by {
        if t.queue.contains(d) {
            let i = choose|i: int| 0 <= i < out.len() && out[i] == d;
            let j = choose|j: int| 0 <= j < t.queue.len() && t.queue[j] == d;
            assert(s.queue[i] == d);
            assert(s.queue[k + j] == d);
        }
    }
    assert forall|i: int, j: int|
        0 <= i < t.queue.len() && 0 <= j < t.queue.len() && i != j implies t.queue[i]
        != t.queue[j] by {
        assert(s.queue[k + i] != s.queue[k + j]);
    }
}

/// What the mempool's loop can be woken by. Digests are worked out, and
/// the store is read, before an event is handed in.
#[derive(Debug, PartialEq, Eq)]
pub enum MempoolEvent {
    /// A payload from this replica's front end, with its digest.
    OwnPayload { digest: Digest, payload: Payload },
    /// A payload from a peer, with its digest.
    Payload { digest: Digest, payload: Payload },
    /// A peer asks for payloads; `found` holds those that the store had.
    PayloadRequest { found: Vec<Payload>, requestor: PublicKey },
    /// Consensus asks for digests that fit into `max` bytes.
    Get { max: usize },
    /// What the payload maker came up with when the queue was empty.
    Made { made: Option<(Digest, Payload)> },
    /// What the synchroniser found of the payloads of a block.
    Verified { answer: Result<bool, MempoolError> },
    /// Consensus has no more use for these digests, nor for anything up to
    /// `round`.
    Cleanup { digests: Vec<Digest>, round: Height },
    /// A timer of the simulated partition has fired: the one that begins it,
    /// or the one that ends it.
    PartitionTimer { begins: bool },
}

/// The model of `MempoolEvent` that contracts speak of.
pub enum MempoolEventView {
    OwnPayload { digest: Digest, payload: PayloadView },
    Payload { digest: Digest, payload: PayloadView },
    PayloadRequest { found: Seq<PayloadView>, requestor: PublicKey },
    Get { max: usize },
    Made { made: Option<(Digest, PayloadView)> },
    Verified { answer: Result<bool, MempoolError> },
    Cleanup { digests: Seq<Digest>, round: Height },
    PartitionTimer { begins: bool },
}

impl View for MempoolEvent {
    type V = MempoolEventView;

    open spec fn view(&self) -> MempoolEventView {
        match self {
            MempoolEvent::OwnPayload { digest, payload } => MempoolEventView::OwnPayload {
                digest: *digest,
                payload: payload@,
            },
            MempoolEvent::Payload { digest, payload } => MempoolEventView::Payload {
                digest: *digest,
                payload: payload@,
            },
            MempoolEvent::PayloadRequest { found, requestor } => MempoolEventView::PayloadRequest {
                found: Seq::new(found@.len(), |i: int| found@[i]@),
                requestor: *requestor,
            },
            MempoolEvent::Get { max } => MempoolEventView::Get { max: *max },
            MempoolEvent::Made { made } => MempoolEventView::Made {
                made: match made {
                    Some(m) => Some((m.0, m.1@)),
                    None => None,
                },
            },
            MempoolEvent::Verified { answer } => MempoolEventView::Verified { answer: *answer },
            MempoolEvent::Cleanup { digests, round } => MempoolEventView::Cleanup {
                digests: digests@,
                round: *round,
            },
            MempoolEvent::PartitionTimer { begins } => MempoolEventView::PartitionTimer {
                begins: *begins,
            },
        }
    }
}

/// What goes back to whoever asked.
#[derive(Debug, PartialEq, Eq)]
pub enum Reply {
    /// Nobody asked.
    Nothing,
    /// The digests for a header.
    Digests(Vec<Digest>),
    /// The queue is empty: have a payload made and hand it in.
    MakePayload,
    /// What consensus is told of the payloads of a block.
    Status(PayloadStatus),
    /// The timer is to fire again after this many seconds.
    FireAgain(u64),
}

/// The model of `Reply` that contracts speak of.
pub enum ReplyView {
    Nothing,
    Digests(Seq<Digest>),
    MakePayload,
    Status(PayloadStatus),
    FireAgain(u64),
}

impl View for Reply {
    type V = ReplyView;

    open spec fn view(&self) -> ReplyView {
        match self {
            Reply::Nothing => ReplyView::Nothing,
            Reply::Digests(d) => ReplyView::Digests(d@),
            Reply::MakePayload => ReplyView::MakePayload,
            Reply::Status(s) => ReplyView::Status(*s),
            Reply::FireAgain(n) => ReplyView::FireAgain(*n),
        }
    }
}

/// What came of an event: the actions to carry out, the reply, and the
/// error, if there was one.
#[derive(Debug, PartialEq, Eq)]
pub struct MempoolOutcome {
    pub actions: Vec<MempoolAction>,
    pub reply: Reply,
    pub error: Option<MempoolError>,
}

/// The model of `MempoolOutcome` that contracts speak of.
pub struct MempoolOutcomeView {
    pub actions: Seq<MempoolActionView>,
    pub reply: ReplyView,
    pub error: Option<MempoolError>,
}

impl View for MempoolOutcome {
    type V = MempoolOutcomeView;

    open spec fn view(&self) -> MempoolOutcomeView {
        MempoolOutcomeView {
            actions: mempool_actions_view(self.actions@),
            reply: self.reply@,
            error: self.error,
        }
    }
}

/// The outcome of what either hands back actions or fails.
pub open spec fn outcome_of(r: Result<Seq<MempoolActionView>, MempoolError>) -> MempoolOutcomeView {
    match r {
        Ok(actions) => MempoolOutcomeView { actions, reply: ReplyView::Nothing, error: None },
        Err(e) => MempoolOutcomeView {
            actions: Seq::empty(),
            reply: ReplyView::Nothing,
            error: Some(e),
        },
    }
}

impl MempoolState {
    /// What an event does.
    pub open spec fn event_step(self, e: MempoolEventView) -> (MempoolState, MempoolOutcomeView) {
        match e {
            MempoolEventView::OwnPayload { digest, payload } => (
                self.handle_own_step(digest, payload).0,
                outcome_of(self.handle_own_step(digest, payload).1),
            ),
            MempoolEventView::Payload { digest, payload } => (
                self.handle_others_step(digest, payload).0,
                outcome_of(self.handle_others_step(digest, payload).1),
            ),
            MempoolEventView::PayloadRequest { found, requestor } => (
                self,
                MempoolOutcomeView {
                    actions: self.request_step(found, requestor),
                    reply: ReplyView::Nothing,
                    error: None,
                },
            ),
            MempoolEventView::Get { max } => if self.queue.len() == 0 {
                (
                    self,
                    MempoolOutcomeView {
                        actions: Seq::empty(),
                        reply: ReplyView::MakePayload,
                        error: None,
                    },
                )
            } else {
                (
                    self.get_step(max).0,
                    MempoolOutcomeView {
                        actions: Seq::empty(),
                        reply: ReplyView::Digests(self.get_step(max).1),
                        error: None,
                    },
                )
            },
            MempoolEventView::Made { made } => match made {
                None => (
                    self,
                    MempoolOutcomeView {
                        actions: Seq::empty(),
                        reply: ReplyView::Digests(Seq::empty()),
                        error: None,
                    },
                ),
                Some(m) => match self.own_payload_step(m.0, m.1) {
                    Ok(actions) => (
                        self,
                        MempoolOutcomeView {
                            actions,
                            reply: ReplyView::Digests(seq![m.0]),
                            error: None,
                        },
                    ),
                    Err(e) => (
                        self,
                        MempoolOutcomeView {
                            actions: Seq::empty(),
                            reply: ReplyView::Digests(Seq::empty()),
                            error: Some(e),
                        },
                    ),
                },
            },
            MempoolEventView::Verified { answer } => (
                self,
                MempoolOutcomeView {
                    actions: Seq::empty(),
                    reply: ReplyView::Status(
                        match answer {
                            Ok(true) => PayloadStatus::Accept,
                            Ok(false) => PayloadStatus::Wait,
                            Err(_) => PayloadStatus::Reject,
                        },
                    ),
                    error: match answer {
                        Ok(_) => None,
                        Err(e) => Some(e),
                    },
                },
            ),
            MempoolEventView::Cleanup { digests, round } => (
                self.cleanup_step(digests),
                MempoolOutcomeView {
                    actions: seq![MempoolActionView::Cleanup { round }],
                    reply: ReplyView::Nothing,
                    error: None,
                },
            ),
            MempoolEventView::PartitionTimer { begins } => (
                MempoolState { during_simulated_asynchrony: begins, ..self },
                MempoolOutcomeView {
                    actions: Seq::empty(),
                    reply: ReplyView::FireAgain(PARTITION_PERIOD_SECS),
                    error: None,
                },
            ),
        }
    }
}

/// The mempool of a replica: it takes events in and says what is to be done
/// about them.
pub struct Core {
    name: PublicKey,
    committee: Committee,
    parameters: Parameters,
    queue: KeySet<Digest>,
    during_simulated_asynchrony: bool,
    partition_public_keys: KeySet<PublicKey>,
}

/// Adds an action to the end of a list.
fn emit(actions: &mut Vec<MempoolAction>, action: MempoolAction)
    ensures
        mempool_actions_view(final(actions)@) == mempool_actions_view(old(actions)@).push(action@),
{
    actions.push(action);
    assert(mempool_actions_view(actions@) =~= mempool_actions_view(old(actions)@).push(action@));
}

impl Core {
    /// The model of the state.
    pub closed spec fn view(&self) -> MempoolState {
        MempoolState {
            name: self.name,
            members: self.committee.members(),
            parameters: self.parameters,
            queue: self.queue.items(),
            during_simulated_asynchrony: self.during_simulated_asynchrony,
            partition_public_keys: self.partition_public_keys@,
        }
    }

    /// A mempool named `name` at the start.
    pub fn new(name: PublicKey, committee: Committee, parameters: Parameters) -> (core: Core)
        ensures
            core@ == MempoolState::initial(name, committee.members(), parameters),
    {
        Core {
            name,
            committee,
            parameters,
            queue: KeySet::new(),
            during_simulated_asynchrony: false,
            partition_public_keys: KeySet::new(),
        }
    }

    /// How many digests wait in the queue.
    pub fn queue_len(&self) -> (n: usize)
        ensures
            n == self@.queue.len(),
            self@.queue.no_duplicates(),
    {
        self.queue.len()
    }

    /// Whether `digest` waits in the queue.
    pub fn is_queued(&self, digest: &Digest) -> (r: bool)
        ensures
            r == self@.queue.contains(*digest),
    {
        self.queue.contains(digest)
    }

    /// Whether the simulated partition is on.
    pub fn is_partitioned(&self) -> (r: bool)
        ensures
            r == self@.during_simulated_asynchrony,
    {
        self.during_simulated_asynchrony
    }

    /// Whether `key` is on this replica's side of the simulated partition,
    /// once the sides have been worked out.
    pub fn in_partition(&self, key: &PublicKey) -> (r: bool)
        ensures
            r == self@.partition_public_keys.contains(*key),
    {
        self.partition_public_keys.contains(key)
    }

    /// Whether `key` falls on the right side of the simulated partition.
    pub fn is_on_right(&self, key: &PublicKey) -> (r: bool)
        ensures
            r == on_right(self@.members, *key),
    {
        let n = self.committee.size();
        let mut count: usize = 0;
        let mut i: usize = 0;
        while i < n
            invariant
                i <= n,
                n == self.committee.members().len(),
                count <= i,
                count == rank(self.committee.members(), i as int, *key),
            decreases n - i,
        {
            if self.committee.member_at(i).precedes(key) {
                count += 1;
            }
            i += 1;
        }
        count >= PARTITION_SPLIT
    }

    /// Works out which members are on this replica's side of the simulated
    /// partition.
    pub fn set_partition(&mut self)
        ensures
            final(self)@ == (MempoolState {
                partition_public_keys: partition_of(old(self)@.members, old(self)@.name),
                ..old(self)@
            }),
    {
        let side = self.is_on_right(&self.name);
        let mut keys: KeySet<PublicKey> = KeySet::new();
        let n = self.committee.size();
        let ghost members = self.committee.members();
        let ghost name = self.name;
        let mut i: usize = 0;
        while i < n
            invariant
                i <= n,
                n == members.len(),
                members == self.committee.members(),
                self@ == old(self)@,
                name == self.name,
                side == on_right(members, name),
                keys@ =~= Set::new(
                    |k: PublicKey|
                        has_key(members.take(i as int), k) && on_right(members, k) == side,
                ),
            decreases n - i,
        {
            let k = self.committee.member_at(i);
            proof {
                assert forall|x: PublicKey| #[trigger]
                    has_key(members.take(i + 1), x) == (has_key(members.take(i as int), x) || x
                        == k) by {
                    lemma_has_key_take(members, i as int, x);
                }
            }
            if self.is_on_right(&k) == side {
                keys.insert(k);
            }
            i += 1;
        }
        proof {
            assert(members.take(n as int) =~= members);
            assert(keys@ =~= partition_of(members, name));
        }
        self.partition_public_keys = keys;
    }

    /// Turns the simulated partition on or off, and says after how many
    /// seconds the timer that did so is to fire again.
    pub fn set_asynchrony(&mut self, on: bool) -> (again: u64)
        ensures
            final(self)@ == (MempoolState { during_simulated_asynchrony: on, ..old(self)@ }),
            again == PARTITION_PERIOD_SECS,
    {
        self.during_simulated_asynchrony = on;
        PARTITION_PERIOD_SECS
    }

    /// The other members, in the order listed; with `filtered`, only those on
    /// this replica's side of the simulated partition.
    fn other_members(&self, filtered: bool) -> (r: Vec<PublicKey>)
        ensures
            r@ == others(
                self@.members,
                self@.members.len() as int,
                self@.name,
                if filtered {
                    Some(self@.partition_public_keys)
                } else {
                    None
                },
            ),
    {
        let ghost within = if filtered {
            Some(self@.partition_public_keys)
        } else {
            None
        };
        let mut r: Vec<PublicKey> = Vec::new();
        let n = self.committee.size();
        let mut i: usize = 0;
        while i < n
            invariant
                i <= n,
                n == self.committee.members().len(),
                within == if filtered {
                    Some(self@.partition_public_keys)
                } else {
                    None::<Set<PublicKey>>
                },
                r@ == others(self@.members, i as int, self@.name, within),
            decreases n - i,
        {
            let k = self.committee.member_at(i);
            if k != self.name && (!filtered || self.partition_public_keys.contains(&k)) {
                r.push(k);
            }
            i += 1;
        }
        r
    }

    /// To whom a message goes that is meant for `to`, or for all.
    pub fn transmit(&self, to: Option<PublicKey>) -> (r: Vec<PublicKey>)
        ensures
            r@ == self@.recipients(to),
    {
        if self.during_simulated_asynchrony {
            self.other_members(true)
        } else {
            match to {
                Some(pk) => {
                    let mut r: Vec<PublicKey> = Vec::new();
                    r.push(pk);
                    assert(r@ =~= seq![pk]);
                    r
                },
                None => self.other_members(false),
            }
        }
    }

    /// Takes in a payload of this replica's own: it is stored and sent to the
    /// others, unless the queue is full.
    pub fn process_own_payload(&self, digest: &Digest, payload: Payload) -> (r: Result<
        Vec<MempoolAction>,
        MempoolError,
    >)
        ensures
            r is Ok == self@.own_payload_step(*digest, payload@) is Ok,
            r matches Ok(a) ==> Ok::<Seq<MempoolActionView>, MempoolError>(mempool_actions_view(a@))
                == self@.own_payload_step(*digest, payload@),
            r matches Err(e) ==> Err::<Seq<MempoolActionView>, MempoolError>(e)
                == self@.own_payload_step(*digest, payload@),
    {
        if self.queue.len() >= self.parameters.queue_capacity {
            return Err(MempoolError::MempoolFull);
        }
        let mut actions: Vec<MempoolAction> = Vec::new();
        assert(mempool_actions_view(actions@) =~= Seq::empty());
        emit(&mut actions, MempoolAction::Store { digest: *digest, payload: payload.clone() });
        let recipients = self.transmit(None);
        emit(&mut actions, MempoolAction::Transmit { payload, recipients });
        proof {
            assert(mempool_actions_view(actions@) =~= self@.own_payload_step(
                *digest,
                payload@,
            )->Ok_0);
        }
        Ok(actions)
    }

    /// Takes in a payload that this replica's front end hands in.
    pub fn handle_own_payload(&mut self, digest: Digest, payload: Payload) -> (r: Result<
        Vec<MempoolAction>,
        MempoolError,
    >)
        ensures
            final(self)@ == old(self)@.handle_own_step(digest, payload@).0,
            r is Ok == old(self)@.handle_own_step(digest, payload@).1 is Ok,
            r matches Ok(a) ==> Ok::<Seq<MempoolActionView>, MempoolError>(mempool_actions_view(a@))
                == old(self)@.handle_own_step(digest, payload@).1,
            r matches Err(e) ==> Err::<Seq<MempoolActionView>, MempoolError>(e) == old(
                self,
            )@.handle_own_step(digest, payload@).1,
    {
        match self.process_own_payload(&digest, payload) {
            Err(e) => Err(e),
            Ok(actions) => {
                self.queue.insert(digest);
                Ok(actions)
            },
        }
    }

    /// Takes in a peer's payload.
    pub fn handle_others_payload(&mut self, digest: Digest, payload: Payload) -> (r: Result<
        Vec<MempoolAction>,
        MempoolError,
    >)
        ensures
            final(self)@ == old(self)@.handle_others_step(digest, payload@).0,
            r is Ok == old(self)@.handle_others_step(digest, payload@).1 is Ok,
            r matches Ok(a) ==> Ok::<Seq<MempoolActionView>, MempoolError>(mempool_actions_view(a@))
                == old(self)@.handle_others_step(digest, payload@).1,
            r matches Err(e) ==> Err::<Seq<MempoolActionView>, MempoolError>(e) == old(
                self,
            )@.handle_others_step(digest, payload@).1,
    {
        if !self.committee.is_member(&payload.author) {
            return Err(MempoolError::UnknownAuthority(payload.author));
        }
        if payload.size() > self.parameters.max_payload_size as u128 {
            return Err(MempoolError::PayloadTooBig);
        }
        if !payload.signature.verify(&digest, &payload.author) {
            return Err(MempoolError::BadSignature);
        }
        let mut actions: Vec<MempoolAction> = Vec::new();
        assert(mempool_actions_view(actions@) =~= Seq::empty());
        emit(&mut actions, MempoolAction::Store { digest, payload });
        self.queue.insert(digest);
        proof {
            assert(mempool_actions_view(actions@) =~= old(self)@.handle_others_step(
                digest,
                payload@,
            ).1->Ok_0);
        }
        Ok(actions)
    }

    /// Answers a request with the payloads that the store held.
    pub fn handle_request(&self, found: Vec<Payload>, requestor: PublicKey) -> (actions: Vec<
        MempoolAction,
    >)
        ensures
            mempool_actions_view(actions@) == self@.request_step(
                Seq::new(found@.len(), |i: int| found@[i]@),
                requestor,
            ),
    {
        let mut actions: Vec<MempoolAction> = Vec::new();
        let mut i: usize = 0;
        while i < found.len()
            invariant
                i <= found.len(),
                actions@.len() == i,
                forall|j: int|
                    0 <= j < i ==> (#[trigger] actions@[j])@ == (MempoolActionView::Transmit {
                        payload: found@[j]@,
                        recipients: self@.recipients(Some(requestor)),
                    }),
            decreases found.len() - i,
        {
            let recipients = self.transmit(Some(requestor));
            actions.push(MempoolAction::Transmit { payload: found[i].clone(), recipients });
            i += 1;
        }
        proof {
            assert(mempool_actions_view(actions@) =~= self@.request_step(
                Seq::new(found@.len(), |i: int| found@[i]@),
                requestor,
            ));
        }
        actions
    }

    /// Hands out digests for a header of at most `max` bytes: the oldest in
    /// the queue, which they leave. With an empty queue there is nothing to
    /// hand out, and the caller may have a payload made.
    pub fn get_payload(&mut self, max: usize) -> (r: Option<Vec<Digest>>)
        ensures
            r is None == (old(self)@.queue.len() == 0),
            r is None ==> final(self)@ == old(self)@,
            r matches Some(digests) ==> (final(self)@, digests@) == old(self)@.get_step(max),
    {
        let n = self.queue.len();
        if n == 0 {
            return None;
        }
        let fit = max / DIGEST_LEN;
        let count = if fit < n {
            fit
        } else {
            n
        };
        let mut taken: Vec<Digest> = Vec::new();
        let mut rest: KeySet<Digest> = KeySet::new();
        let mut i: usize = 0;
        while i < n
            invariant
                i <= n,
                count <= n,
                n == self.queue.items().len(),
                self.queue.items().no_duplicates(),
                taken@ == self.queue.items().subrange(
                    0,
                    if i < count {
                        i as int
                    } else {
                        count as int
                    },
                ),
                rest.items() == self.queue.items().subrange(
                    count as int,
                    if i < count {
                        count as int
                    } else {
                        i as int
                    },
                ),
            decreases n - i,
        {
            let d = self.queue.item_at(i);
            let ghost items = self.queue.items();
            if i < count {
                taken.push(d);
                assert(taken@ =~= items.subrange(0, i + 1));
                assert(rest.items() =~= items.subrange(count as int, count as int));
            } else {
                let ghost before = rest.items();
                proof {
                    if before.contains(d) {
                        let j = choose|j: int| 0 <= j < before.len() && before[j] == d;
                        assert(items[count + j] == items[i as int]);
                    }
                    assert(rest@.contains(d) == before.contains(d));
                }
                rest.insert(d);
                assert(rest.items() =~= items.subrange(count as int, i + 1));
            }
            i += 1;
        }
        self.queue = rest;
        Some(taken)
    }

    /// Takes in what the payload maker came up with when asked: a payload
    /// made is processed as the replica's own, and its digest goes straight
    /// to the header without waiting in the queue.
    pub fn handle_made_payload(&self, made: Option<(Digest, Payload)>) -> (r: Result<
        (Vec<Digest>, Vec<MempoolAction>),
        MempoolError,
    >)
        ensures
            match made {
                None => r matches Ok(out) && out.0@ == Seq::<Digest>::empty()
                    && mempool_actions_view(out.1@) == Seq::<MempoolActionView>::empty(),
                Some(m) => match self@.own_payload_step(m.0, m.1@) {
                    Err(e) => r == Err::<(Vec<Digest>, Vec<MempoolAction>), MempoolError>(e),
                    Ok(a) => r matches Ok(out) && out.0@ == seq![m.0] && mempool_actions_view(
                        out.1@,
                    ) == a,
                },
            },
    {
        match made {
            None => {
                let actions: Vec<MempoolAction> = Vec::new();
                assert(mempool_actions_view(actions@) =~= Seq::empty());
                Ok((Vec::new(), actions))
            },
            Some(m) => {
                let digest = m.0;
                match self.process_own_payload(&digest, m.1) {
                    Err(e) => Err(e),
                    Ok(actions) => {
                        let mut digests: Vec<Digest> = Vec::new();
                        digests.push(digest);
                        assert(digests@ =~= seq![digest]);
                        Ok((digests, actions))
                    },
                }
            },
        }
    }

    /// Drops the digests listed from the queue, and has the synchroniser drop
    /// what it tracks up to `round`.
    pub fn cleanup(&mut self, digests: &Vec<Digest>, round: Height) -> (actions: Vec<MempoolAction>)
        ensures
            final(self)@ == old(self)@.cleanup_step(digests@),
            mempool_actions_view(actions@) == seq![MempoolActionView::Cleanup { round }],
    {
        let mut actions: Vec<MempoolAction> = Vec::new();
        assert(mempool_actions_view(actions@) =~= Seq::empty());
        emit(&mut actions, MempoolAction::Cleanup { round });
        self.queue.remove_all(digests);
        actions
    }

    /// Takes an event in and says what is to be done about it.
    pub fn step(&mut self, event: MempoolEvent) -> (r: MempoolOutcome)
        ensures
            (final(self)@, r@) == old(self)@.event_step(event@),
    {
        match event {
            MempoolEvent::OwnPayload { digest, payload } => {
                match self.handle_own_payload(digest, payload) {
                    Ok(actions) => MempoolOutcome { actions, reply: Reply::Nothing, error: None },
                    Err(e) => failed(e),
                }
            },
            MempoolEvent::Payload { digest, payload } => {
                match self.handle_others_payload(digest, payload) {
                    Ok(actions) => MempoolOutcome { actions, reply: Reply::Nothing, error: None },
                    Err(e) => failed(e),
                }
            },
            MempoolEvent::PayloadRequest { found, requestor } => {
                let actions = self.handle_request(found, requestor);
                MempoolOutcome { actions, reply: Reply::Nothing, error: None }
            },
            MempoolEvent::Get { max } => {
                let actions: Vec<MempoolAction> = Vec::new();
                assert(mempool_actions_view(actions@) =~= Seq::empty());
                match self.get_payload(max) {
                    Some(digests) => MempoolOutcome {
                        actions,
                        reply: Reply::Digests(digests),
                        error: None,
                    },
                    None => MempoolOutcome { actions, reply: Reply::MakePayload, error: None },
                }
            },
            MempoolEvent::Made { made } => {
                match self.handle_made_payload(made) {
                    Ok(out) => MempoolOutcome {
                        actions: out.1,
                        reply: Reply::Digests(out.0),
                        error: None,
                    },
                    Err(e) => {
                        let actions: Vec<MempoolAction> = Vec::new();
                        assert(mempool_actions_view(actions@) =~= Seq::empty());
                        let digests: Vec<Digest> = Vec::new();
                        MempoolOutcome { actions, reply: Reply::Digests(digests), error: Some(e) }
                    },
                }
            },
            MempoolEvent::Verified { answer } => {
                let actions: Vec<MempoolAction> = Vec::new();
                assert(mempool_actions_view(actions@) =~= Seq::empty());
                let error = match answer {
                    Ok(_) => None,
                    Err(e) => Some(e),
                };
                MempoolOutcome { actions, reply: Reply::Status(payload_status(answer)), error }
            },
            MempoolEvent::Cleanup { digests, round } => {
                let actions = self.cleanup(&digests, round);
                MempoolOutcome { actions, reply: Reply::Nothing, error: None }
            },
            MempoolEvent::PartitionTimer { begins } => {
                let actions: Vec<MempoolAction> = Vec::new();
                assert(mempool_actions_view(actions@) =~= Seq::empty());
                let again = self.set_asynchrony(begins);
                MempoolOutcome { actions, reply: Reply::FireAgain(again), error: None }
            },
        }
    }
}

/// The outcome of an event that was turned down.
fn failed(e: MempoolError) -> (r: MempoolOutcome)
    ensures
        r@ == (MempoolOutcomeView { actions: Seq::empty(), reply: ReplyView::Nothing, error: Some(e) }),
{
    let actions: Vec<MempoolAction> = Vec::new();
    assert(mempool_actions_view(actions@) =~= Seq::empty());
    MempoolOutcome { actions, reply: Reply::Nothing, error: Some(e) }
}

} // verus!
