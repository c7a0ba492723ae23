use bft_core::committee::Committee;
use bft_core::error::{MempoolError, Severity};
use bft_core::keys::{Digest, PublicKey, Signature};
use bft_core::mempool::{
    payload_status, Core, MempoolAction, MempoolEvent, MempoolMessage, MempoolOutcome,
    Parameters, Payload, PayloadStatus, Reply, PARTITION_END_SECS, PARTITION_PERIOD_SECS,
    PARTITION_START_SECS,
};
use ed25519_dalek::{Signer, SigningKey};

fn secret(seed: u8) -> SigningKey {
    SigningKey::from_bytes(&[seed; 32])
}

fn name(seed: u8) -> PublicKey {
    PublicKey(secret(seed).verifying_key().to_bytes())
}

fn committee(n: u8) -> Committee {
    Committee::new((1..=n).map(|s| (name(s), 1)).collect()).unwrap()
}

fn digest(tag: u8) -> Digest {
    Digest([tag; 32])
}

fn payload(author: u8, tag: u8, bytes: usize) -> Payload {
    Payload {
        transactions: vec![vec![tag; bytes]],
        author: name(author),
        signature: Signature(secret(author).sign(&digest(tag).0).to_bytes()),
    }
}

fn mempool(seed: u8, capacity: usize, max_size: usize) -> Core {
    Core::new(
        name(seed),
        committee(4),
        Parameters { queue_capacity: capacity, max_payload_size: max_size },
    )
}

fn others(seed: u8) -> Vec<PublicKey> {
    (1..=4).filter(|s| *s != seed).map(name).collect()
}

#[test]
fn mempool_flow() {
    let mut core = mempool(1, 10, 1_000);
    // Nothing waits: a payload is to be made.
    assert_eq!(core.get_payload(1_000), None);
    let p = payload(1, 7, 200);
    assert_eq!(p.size(), 200);
    let (digests, actions) = core.handle_made_payload(Some((digest(7), payload(1, 7, 200)))).unwrap();
    assert_eq!(digests, vec![digest(7)]);
    assert_eq!(
        actions,
        vec![
            MempoolAction::Store { digest: digest(7), payload: payload(1, 7, 200) },
            MempoolAction::Transmit { payload: p, recipients: others(1) },
        ]
    );
    // The digest went straight to the header.
    assert_eq!(core.queue_len(), 0);
    // The maker had nothing.
    let (digests, actions) = core.handle_made_payload(None).unwrap();
    assert!(digests.is_empty());
    assert!(actions.is_empty());
}

#[test]
fn own_payload_is_stored_sent_and_queued() {
    let mut core = mempool(2, 2, 1_000);
    let actions = core.handle_own_payload(digest(1), payload(2, 1, 10)).unwrap();
    assert_eq!(
        actions,
        vec![
            MempoolAction::Store { digest: digest(1), payload: payload(2, 1, 10) },
            MempoolAction::Transmit { payload: payload(2, 1, 10), recipients: others(2) },
        ]
    );
    assert!(core.is_queued(&digest(1)));
    assert_eq!(core.queue_len(), 1);
    // The same digest again is queued once.
    core.handle_own_payload(digest(1), payload(2, 1, 10)).unwrap();
    assert_eq!(core.queue_len(), 1);
    core.handle_own_payload(digest(2), payload(2, 2, 10)).unwrap();
    assert_eq!(core.queue_len(), 2);
    // Full.
    assert_eq!(core.handle_own_payload(digest(3), payload(2, 3, 10)), Err(MempoolError::MempoolFull));
    assert_eq!(core.process_own_payload(&digest(3), payload(2, 3, 10)), Err(MempoolError::MempoolFull));
    assert_eq!(
        core.handle_made_payload(Some((digest(3), payload(2, 3, 10)))),
        Err(MempoolError::MempoolFull)
    );
    assert!(!core.is_queued(&digest(3)));
    assert_eq!(core.queue_len(), 2);
    let empty = mempool(2, 0, 1_000);
    assert_eq!(empty.process_own_payload(&digest(3), payload(2, 3, 10)), Err(MempoolError::MempoolFull));
}

#[test]
fn peer_payload_is_checked_stored_and_queued() {
    let mut core = mempool(1, 1, 100);
    assert_eq!(
        core.handle_others_payload(digest(1), payload(9, 1, 10)),
        Err(MempoolError::UnknownAuthority(name(9)))
    );
    assert_eq!(
        core.handle_others_payload(digest(1), payload(2, 1, 101)),
        Err(MempoolError::PayloadTooBig)
    );
    // Signed over another digest.
    assert_eq!(
        core.handle_others_payload(digest(2), payload(2, 1, 100)),
        Err(MempoolError::BadSignature)
    );
    // Signed by another replica.
    let mut forged = payload(2, 1, 100);
    forged.author = name(3);
    assert_eq!(core.handle_others_payload(digest(1), forged), Err(MempoolError::BadSignature));
    assert_eq!(core.queue_len(), 0);
    let actions = core.handle_others_payload(digest(1), payload(2, 1, 100)).unwrap();
    assert_eq!(actions, vec![MempoolAction::Store { digest: digest(1), payload: payload(2, 1, 100) }]);
    assert!(core.is_queued(&digest(1)));
    // Peers' payloads are taken in beyond the capacity.
    core.handle_others_payload(digest(2), payload(3, 2, 100)).unwrap();
    assert_eq!(core.queue_len(), 2);
    // Several transactions count together.
    let mut many = payload(2, 5, 60);
    many.transactions.push(vec![0; 41]);
    assert_eq!(many.size(), 101);
    assert_eq!(core.handle_others_payload(digest(5), many), Err(MempoolError::PayloadTooBig));
    let mut fits = payload(2, 5, 60);
    fits.transactions.push(vec![0; 40]);
    fits.transactions.push(Vec::new());
    assert!(core.handle_others_payload(digest(5), fits).is_ok());
}

#[test]
fn digests_leave_oldest_first_as_many_as_fit() {
    let mut core = mempool(1, 100, 1_000);
    for tag in 1..=5 {
        core.handle_others_payload(digest(tag), payload(2, tag, 1)).unwrap();
    }
    // 31 bytes hold no digest.
    assert_eq!(core.get_payload(31), Some(Vec::new()));
    assert_eq!(core.queue_len(), 5);
    // 95 bytes hold two.
    assert_eq!(core.get_payload(95), Some(vec![digest(1), digest(2)]));
    assert_eq!(core.queue_len(), 3);
    assert!(!core.is_queued(&digest(1)));
    assert!(core.is_queued(&digest(3)));
    // 96 hold three.
    assert_eq!(core.get_payload(96), Some(vec![digest(3), digest(4), digest(5)]));
    assert_eq!(core.queue_len(), 0);
    assert_eq!(core.get_payload(96), None);
    core.handle_others_payload(digest(6), payload(2, 6, 1)).unwrap();
    assert_eq!(core.get_payload(usize::MAX), Some(vec![digest(6)]));
}

#[test]
fn cleanup_drops_the_digests_listed() {
    let mut core = mempool(1, 100, 1_000);
    for tag in 1..=5 {
        core.handle_others_payload(digest(tag), payload(2, tag, 1)).unwrap();
    }
    let actions = core.cleanup(&vec![digest(4), digest(9), digest(2), digest(4)], 17);
    assert_eq!(actions, vec![MempoolAction::Cleanup { round: 17 }]);
    assert_eq!(core.queue_len(), 3);
    assert_eq!(core.get_payload(1_000), Some(vec![digest(1), digest(3), digest(5)]));
}

#[test]
fn request_is_answered_with_what_was_found() {
    let core = mempool(1, 100, 1_000);
    let actions = core.handle_request(vec![payload(2, 1, 3), payload(3, 2, 4)], name(4));
    assert_eq!(
        actions,
        vec![
            MempoolAction::Transmit { payload: payload(2, 1, 3), recipients: vec![name(4)] },
            MempoolAction::Transmit { payload: payload(3, 2, 4), recipients: vec![name(4)] },
        ]
    );
    assert!(core.handle_request(Vec::new(), name(4)).is_empty());
}

fn sorted() -> Vec<PublicKey> {
    let mut keys: Vec<PublicKey> = (1..=5).map(name).collect();
    keys.sort_by(|a, b| a.0.cmp(&b.0));
    keys
}

fn five(own: PublicKey) -> Core {
    Core::new(
        own,
        Committee::new((1..=5).map(|s| (name(s), 1)).collect()).unwrap(),
        Parameters { queue_capacity: 10, max_payload_size: 100 },
    )
}

#[test]
fn partition_splits_after_the_two_lowest_keys() {
    let keys = sorted();
    for (index, own) in keys.iter().enumerate() {
        let mut core = five(*own);
        assert!(!core.in_partition(own));
        core.set_partition();
        for (other, key) in keys.iter().enumerate() {
            assert_eq!(core.is_on_right(key), other >= 2);
            assert_eq!(core.in_partition(key), (other >= 2) == (index >= 2));
        }
        assert!(!core.in_partition(&name(9)));
    }
}

#[test]
fn partition_filters_what_is_sent() {
    let keys = sorted();
    let own = keys[3];
    let mut core = five(own);
    core.set_partition();
    let listed: Vec<PublicKey> = (1..=5).map(name).collect();
    let everyone_else: Vec<PublicKey> = listed.iter().copied().filter(|k| *k != own).collect();
    let my_side: Vec<PublicKey> = listed
        .iter()
        .copied()
        .filter(|k| *k != own && (*k == keys[2] || *k == keys[4]))
        .collect();
    assert_eq!(core.transmit(None), everyone_else);
    assert_eq!(core.transmit(Some(keys[0])), vec![keys[0]]);
    assert!(!core.is_partitioned());
    assert_eq!(core.set_asynchrony(true), PARTITION_PERIOD_SECS);
    assert!(core.is_partitioned());
    assert_eq!(core.transmit(None), my_side);
    // Whoever it was meant for.
    assert_eq!(core.transmit(Some(keys[0])), my_side);
    let actions = core.handle_own_payload(digest(1), payload(1, 1, 1)).unwrap();
    assert_eq!(
        actions[1],
        MempoolAction::Transmit { payload: payload(1, 1, 1), recipients: my_side.clone() }
    );
    assert_eq!(core.set_asynchrony(false), 100);
    assert_eq!(core.transmit(None), everyone_else);
    assert_eq!((PARTITION_START_SECS, PARTITION_END_SECS), (10, 30));
}

#[test]
fn status_follows_what_the_synchroniser_found() {
    assert_eq!(payload_status(Ok(true)), PayloadStatus::Accept);
    assert_eq!(payload_status(Ok(false)), PayloadStatus::Wait);
    assert_eq!(payload_status(Err(MempoolError::StoreError)), PayloadStatus::Reject);
    assert_eq!(payload_status(Err(MempoolError::SerializationError)), PayloadStatus::Reject);
}

#[test]
fn mempool_errors_have_their_severity() {
    assert_eq!(MempoolError::StoreError.severity(), Severity::Error);
    assert_eq!(MempoolError::SerializationError.severity(), Severity::Error);
    assert_eq!(MempoolError::MempoolFull.severity(), Severity::Warn);
    assert_eq!(MempoolError::PayloadTooBig.severity(), Severity::Warn);
    assert_eq!(MempoolError::BadSignature.severity(), Severity::Warn);
    assert_eq!(MempoolError::UnknownAuthority(name(1)).severity(), Severity::Warn);
}

#[test]
fn messages_carry_payloads_and_requests() {
    let own = MempoolMessage::OwnPayload(payload(1, 1, 3));
    let theirs = MempoolMessage::Payload(payload(1, 1, 3));
    assert_ne!(own, theirs);
    let request = MempoolMessage::PayloadRequest(vec![digest(1)], name(2));
    assert_eq!(request, MempoolMessage::PayloadRequest(vec![digest(1)], name(2)));
    assert_eq!(payload(1, 1, 3).clone(), payload(1, 1, 3));
}

#[test]
fn events_are_dispatched() {
    let mut core = mempool(1, 2, 100);
    let quiet = |reply: Reply| MempoolOutcome { actions: Vec::new(), reply, error: None };
    assert_eq!(core.step(MempoolEvent::Get { max: 64 }), quiet(Reply::MakePayload));
    assert_eq!(
        core.step(MempoolEvent::Made { made: Some((digest(1), payload(1, 1, 5))) }),
        MempoolOutcome {
            actions: vec![
                MempoolAction::Store { digest: digest(1), payload: payload(1, 1, 5) },
                MempoolAction::Transmit { payload: payload(1, 1, 5), recipients: others(1) },
            ],
            reply: Reply::Digests(vec![digest(1)]),
            error: None,
        }
    );
    assert_eq!(core.step(MempoolEvent::Made { made: None }), quiet(Reply::Digests(Vec::new())));
    let own = core.step(MempoolEvent::OwnPayload { digest: digest(2), payload: payload(1, 2, 5) });
    assert_eq!(own.actions.len(), 2);
    assert_eq!((own.reply, own.error), (Reply::Nothing, None));
    assert_eq!(
        core.step(MempoolEvent::Payload { digest: digest(3), payload: payload(2, 3, 5) }),
        MempoolOutcome {
            actions: vec![MempoolAction::Store { digest: digest(3), payload: payload(2, 3, 5) }],
            reply: Reply::Nothing,
            error: None,
        }
    );
    assert_eq!(
        core.step(MempoolEvent::Payload { digest: digest(4), payload: payload(2, 4, 101) }),
        MempoolOutcome { actions: Vec::new(), reply: Reply::Nothing, error: Some(MempoolError::PayloadTooBig) }
    );
    // The queue is full now.
    assert_eq!(
        core.step(MempoolEvent::OwnPayload { digest: digest(5), payload: payload(1, 5, 5) }),
        MempoolOutcome { actions: Vec::new(), reply: Reply::Nothing, error: Some(MempoolError::MempoolFull) }
    );
    assert_eq!(
        core.step(MempoolEvent::Made { made: Some((digest(5), payload(1, 5, 5))) }),
        MempoolOutcome {
            actions: Vec::new(),
            reply: Reply::Digests(Vec::new()),
            error: Some(MempoolError::MempoolFull),
        }
    );
    assert_eq!(core.step(MempoolEvent::Get { max: 32 }), quiet(Reply::Digests(vec![digest(2)])));
    assert_eq!(
        core.step(MempoolEvent::Cleanup { digests: vec![digest(3)], round: 4 }),
        MempoolOutcome {
            actions: vec![MempoolAction::Cleanup { round: 4 }],
            reply: Reply::Nothing,
            error: None,
        }
    );
    assert_eq!(core.queue_len(), 0);
    assert_eq!(
        core.step(MempoolEvent::PayloadRequest { found: vec![payload(2, 3, 5)], requestor: name(3) }),
        MempoolOutcome {
            actions: vec![MempoolAction::Transmit { payload: payload(2, 3, 5), recipients: vec![name(3)] }],
            reply: Reply::Nothing,
            error: None,
        }
    );
    assert_eq!(
        core.step(MempoolEvent::Verified { answer: Ok(true) }),
        quiet(Reply::Status(PayloadStatus::Accept))
    );
    assert_eq!(
        core.step(MempoolEvent::Verified { answer: Err(MempoolError::StoreError) }),
        MempoolOutcome {
            actions: Vec::new(),
            reply: Reply::Status(PayloadStatus::Reject),
            error: Some(MempoolError::StoreError),
        }
    );
    assert_eq!(core.step(MempoolEvent::PartitionTimer { begins: true }), quiet(Reply::FireAgain(100)));
    assert!(core.is_partitioned());
    assert_eq!(core.step(MempoolEvent::PartitionTimer { begins: false }), quiet(Reply::FireAgain(100)));
    assert!(!core.is_partitioned());
}
