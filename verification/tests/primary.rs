use bft_core::actions::{Action, Outcome};
use bft_core::committee::Committee;
use bft_core::error::{DagError, Severity};
use bft_core::events::Event;
use bft_core::keys::{Digest, PublicKey, Signature};
use bft_core::messages::{
    Certificate, ConsensusMessage, Evidence, Header, HighQC, Proposal, Ticket, Timeout, Vote, QC,
    TC,
};
use bft_core::primary::Core;
use ed25519_dalek::{Signer, SigningKey};

const DELAY: u64 = 5_000;

struct Replica {
    secret: SigningKey,
    name: PublicKey,
}

fn replicas(n: u8) -> Vec<Replica> {
    (1..=n)
        .map(|seed| {
            let secret = SigningKey::from_bytes(&[seed; 32]);
            let name = PublicKey(secret.verifying_key().to_bytes());
            Replica { secret, name }
        })
        .collect()
}

fn committee(replicas: &[Replica]) -> Committee {
    Committee::new(replicas.iter().map(|r| (r.name, 1)).collect()).unwrap()
}

fn cores(replicas: &[Replica], gc_depth: u64) -> Vec<Core> {
    replicas.iter().map(|r| Core::new(r.name, committee(replicas), gc_depth, DELAY)).collect()
}

fn sign(replica: &Replica, digest: &Digest) -> Signature {
    Signature(replica.secret.sign(&digest.0).to_bytes())
}

/// A digest that tells what it stands for: a kind, an author and a number.
fn digest(kind: u8, author: usize, number: u64) -> Digest {
    let mut bytes = [0u8; 32];
    bytes[0] = kind;
    bytes[1] = author as u8;
    bytes[2..10].copy_from_slice(&number.to_le_bytes());
    Digest(bytes)
}

fn header_id(author: usize, height: u64) -> Digest {
    digest(1, author, height)
}

fn certificate(replicas: &[Replica], author: usize, height: u64, voters: &[usize]) -> Certificate {
    if height == 0 {
        return Certificate::genesis(replicas[author].name);
    }
    let id = header_id(author, height);
    Certificate {
        header_id: id,
        origin: replicas[author].name,
        height,
        votes: voters.iter().map(|v| (replicas[*v].name, sign(&replicas[*v], &id))).collect(),
    }
}

fn header(
    replicas: &[Replica],
    author: usize,
    height: u64,
    parent_cert: Certificate,
    consensus_instances: Vec<(Digest, ConsensusMessage)>,
) -> Header {
    let id = header_id(author, height);
    Header {
        id,
        author: replicas[author].name,
        height,
        parent_cert,
        payload_digests: Vec::new(),
        consensus_instances,
        signature: sign(&replicas[author], &id),
    }
}

/// A header on top of a parent certificate that two replicas signed.
fn plain_header(replicas: &[Replica], author: usize, height: u64) -> Header {
    header(replicas, author, height, certificate(replicas, author, height - 1, &[0, 1]), Vec::new())
}

fn vote(replicas: &[Replica], voter: usize, header: &Header, instances: &[Digest]) -> Vote {
    Vote {
        id: header.id,
        height: header.height,
        origin: header.author,
        author: replicas[voter].name,
        signature: sign(&replicas[voter], &header.id),
        consensus_sigs: instances.iter().map(|d| (*d, sign(&replicas[voter], d))).collect(),
    }
}

fn timeout(replicas: &[Replica], author: usize, slot: u64, view: u64, high_qc: Option<HighQC>) -> Timeout {
    let id = digest(2, author, slot * 1_000 + view);
    Timeout {
        id,
        slot,
        view,
        high_qc,
        author: replicas[author].name,
        signature: sign(&replicas[author], &id),
    }
}

fn genesis_proposals(replicas: &[Replica]) -> Vec<(PublicKey, Proposal)> {
    replicas
        .iter()
        .map(|r| (r.name, Proposal { header_digest: Digest::default(), height: 0 }))
        .collect()
}

/// In these tests the id of a header or a timeout is the content address
/// of what it holds, unless a test says otherwise.
fn arrive(header: Header) -> Event {
    Event::Header { digest: header.id, header, payload_missing: false, parent_missing: false }
}

fn made(header: Header) -> Event {
    Event::OwnHeader { digest: header.id, header, payload_missing: false, parent_missing: false }
}

fn timed_out(timeout: Timeout) -> Event {
    Event::Timeout { digest: timeout.id, timeout }
}

fn own_timed_out(timeout: Timeout) -> Event {
    Event::OwnTimeout { digest: timeout.id, timeout }
}

fn ok(outcome: Outcome) -> Vec<Action> {
    assert_eq!(outcome.error, None);
    outcome.actions
}

fn cast_votes(actions: &[Action]) -> Vec<&Action> {
    actions.iter().filter(|a| matches!(a, Action::CastVote { .. })).collect()
}

fn proposed(actions: &[Action]) -> Vec<&ConsensusMessage> {
    actions
        .iter()
        .filter_map(|a| match a {
            Action::Propose(m) => Some(m),
            _ => None,
        })
        .collect()
}

#[test]
fn happy_header_round() {
    let replicas = replicas(4);
    let mut cores = cores(&replicas, 50);
    let mut stored = 0;
    let mut delivered = 0;
    for author in 0..4 {
        let h = plain_header(&replicas, author, 1);
        let own = ok(cores[author].step(made(h.clone())));
        assert_eq!(own[0], Action::BroadcastHeader { id: h.id, height: 1 });
        assert_eq!(own[1], Action::StoreHeader { id: h.id });
        assert_eq!(
            own[4],
            Action::CastVote {
                header: h.id,
                height: 1,
                origin: replicas[author].name,
                instances: Vec::new(),
                own: true,
            }
        );
        assert_eq!(own.len(), 5);
        for voter in 0..4 {
            if voter != author {
                let theirs = ok(cores[voter].step(arrive(h.clone())));
                assert_eq!(
                    theirs,
                    vec![
                        Action::StoreHeader { id: h.id },
                        Action::StoreCertificate(Certificate::genesis(replicas[author].name)),
                        Action::CastVote {
                            header: h.id,
                            height: 1,
                            origin: replicas[author].name,
                            instances: Vec::new(),
                            own: false,
                        },
                    ]
                );
            }
        }
        // The author's own vote and three more.
        let first = ok(cores[author].step(Event::OwnVote(vote(&replicas, author, &h, &[]))));
        assert!(first.is_empty());
        let mut formed = Vec::new();
        for voter in 0..4 {
            if voter != author {
                formed.extend(ok(cores[author].step(Event::Vote(vote(&replicas, voter, &h, &[])))));
            }
        }
        let first_other = if author == 0 { 1 } else { 0 };
        let expected = Certificate {
            header_id: h.id,
            origin: replicas[author].name,
            height: 1,
            votes: vec![
                (replicas[author].name, sign(&replicas[author], &h.id)),
                (replicas[first_other].name, sign(&replicas[first_other], &h.id)),
            ],
        };
        assert_eq!(
            formed,
            vec![
                Action::StoreCertificate(expected.clone()),
                Action::DeliverCertificate(expected.clone()),
            ]
        );
        assert_eq!(expected.verify(cores[author].committee()), Ok(()));
        stored += formed.iter().filter(|a| matches!(a, Action::StoreCertificate(_))).count();
        delivered += formed.iter().filter(|a| matches!(a, Action::DeliverCertificate(_))).count();
        assert_eq!(cores[author].cert_height(&replicas[author].name), 1);
    }
    assert_eq!(stored, 4);
    assert_eq!(delivered, 4);
    for core in &cores {
        for r in &replicas {
            assert_eq!(core.tip_height(&r.name), 1);
        }
    }
}

#[test]
fn consensus_slot_one_happy_path() {
    let replicas = replicas(4);
    let mut cores = cores(&replicas, 50);
    let leader = 2;
    assert_eq!(cores[0].committee().get_leader(1, 1), replicas[leader].name);

    // Prepare.
    let d_prepare = digest(3, leader, 1);
    let prepare = ConsensusMessage::Prepare {
        slot: 1,
        view: 1,
        ticket: Ticket {
            evidence: Evidence::Header(Digest::default()),
            slot: 0,
            proposals: genesis_proposals(&replicas),
        },
        proposals: genesis_proposals(&replicas),
    };
    let h1 = header(
        &replicas,
        leader,
        1,
        certificate(&replicas, leader, 0, &[]),
        vec![(d_prepare, prepare)],
    );
    let mut confirm = None;
    let mut cert1 = None;
    for r in 0..4 {
        let event = if r == leader { made(h1.clone()) } else { arrive(h1.clone()) };
        let actions = ok(cores[r].step(event));
        let votes = cast_votes(&actions);
        assert_eq!(votes.len(), 1);
        assert_eq!(
            *votes[0],
            Action::CastVote {
                header: h1.id,
                height: 1,
                origin: replicas[leader].name,
                instances: vec![d_prepare],
                own: r == leader,
            }
        );
        assert!(cores[r].has_voted_consensus(1, 1));
        assert!(actions.contains(&Action::ArmTimer { slot: 2, view: 1, delay: DELAY }));
        assert_eq!(
            actions.iter().filter(|a| matches!(a, Action::SyncProposal { .. })).count(),
            4
        );
    }
    // The leader of slot 2 holds a ticket: its tips do not cover the Prepare yet.
    assert_eq!(cores[3].tickets_waiting(), 1);
    assert_eq!(cores[0].tickets_waiting(), 0);
    for voter in [2, 0, 1, 3] {
        let v = vote(&replicas, voter, &h1, &[d_prepare]);
        let event = if voter == leader { Event::OwnVote(v) } else { Event::Vote(v) };
        let actions = ok(cores[leader].step(event));
        if voter == 1 {
            assert_eq!(actions.len(), 3);
            match &actions[0] {
                Action::Propose(m) => confirm = Some(m.clone()),
                other => panic!("unexpected {:?}", other),
            }
            match &actions[1] {
                Action::StoreCertificate(c) => cert1 = Some(c.clone()),
                other => panic!("unexpected {:?}", other),
            }
            assert_eq!(actions[2], Action::DeliverCertificate(cert1.clone().unwrap()));
        } else {
            assert!(actions.is_empty());
        }
    }
    let confirm = confirm.unwrap();
    let cert1 = cert1.unwrap();
    assert_eq!(cert1.votes.len(), 3);
    let mut with_leader = genesis_proposals(&replicas);
    with_leader[leader] = (replicas[leader].name, Proposal { header_digest: h1.id, height: 1 });
    match &confirm {
        ConsensusMessage::Confirm { slot, view, qc, proposals } => {
            assert_eq!((*slot, *view), (1, 1));
            assert_eq!(qc.digest, d_prepare);
            assert_eq!(qc.votes.len(), 3);
            assert_eq!(qc.verify(cores[0].committee()), Ok(()));
            assert_eq!(*proposals, with_leader);
        }
        other => panic!("unexpected {:?}", other),
    }

    // Confirm.
    let d_confirm = digest(3, leader, 2);
    let h2 = header(&replicas, leader, 2, cert1, vec![(d_confirm, confirm)]);
    for r in 0..4 {
        let event = if r == leader { made(h2.clone()) } else { arrive(h2.clone()) };
        let actions = ok(cores[r].step(event));
        let votes = cast_votes(&actions);
        assert_eq!(votes.len(), 1);
        assert!(matches!(votes[0], Action::CastVote { instances, .. } if *instances == vec![d_confirm]));
    }
    let mut commit = None;
    let mut cert2 = None;
    for voter in [2, 0, 1, 3] {
        let v = vote(&replicas, voter, &h2, &[d_confirm]);
        let event = if voter == leader { Event::OwnVote(v) } else { Event::Vote(v) };
        let actions = ok(cores[leader].step(event));
        if voter == 1 {
            assert_eq!(actions.len(), 3);
            match &actions[0] {
                Action::Propose(m) => commit = Some(m.clone()),
                other => panic!("unexpected {:?}", other),
            }
            match &actions[1] {
                Action::StoreCertificate(c) => cert2 = Some(c.clone()),
                other => panic!("unexpected {:?}", other),
            }
        } else {
            assert!(actions.is_empty());
        }
    }
    let commit = commit.unwrap();
    match &commit {
        ConsensusMessage::Commit { slot, view, qc, proposals } => {
            assert_eq!((*slot, *view), (1, 1));
            assert_eq!(qc.digest, d_confirm);
            assert_eq!(*proposals, with_leader);
        }
        other => panic!("unexpected {:?}", other),
    }

    // Commit.
    let d_commit = digest(3, leader, 3);
    let h3 = header(&replicas, leader, 3, cert2.unwrap(), vec![(d_commit, commit.clone())]);
    let mut committed = 0;
    for r in 0..4 {
        let event = if r == leader { made(h3.clone()) } else { arrive(h3.clone()) };
        let actions = ok(cores[r].step(event));
        assert!(actions.contains(&Action::ResolveCommit(commit.clone())));
        let votes = cast_votes(&actions);
        assert!(matches!(votes[0], Action::CastVote { instances, .. } if instances.is_empty()));
        let resolved = ok(cores[r].step(Event::CommitResolved {
            message: commit.clone(),
            readiness: vec![true; 4],
        }));
        assert_eq!(resolved, vec![Action::Commit(commit.clone())]);
        assert_eq!(cores[r].commits_waiting(), 0);
        committed += 1;
    }
    assert!(committed >= 3);
}

#[test]
fn timeout_and_view_change() {
    let replicas = replicas(4);
    let mut cores = cores(&replicas, 50);
    let next_leader = 0;
    assert_eq!(cores[0].committee().get_leader(2, 2), replicas[next_leader].name);
    // Everybody knows a header of replica 1, so that the tips are not empty.
    for r in 0..4 {
        ok(cores[r].step(arrive(plain_header(&replicas, 1, 1))));
    }
    let tips = vec![(replicas[1].name, Proposal { header_digest: header_id(1, 1), height: 1 })];
    // The timeouts carry the Confirm of slot 1; there is none for slot 2.
    let d = digest(3, 2, 1);
    let confirmed = HighQC {
        slot: 1,
        view: 1,
        qc: QC {
            digest: d,
            votes: (0..3).map(|v| (replicas[v].name, sign(&replicas[v], &d))).collect(),
        },
        proposals: genesis_proposals(&replicas),
    };
    // Every timer fires.
    let mut timeouts = Vec::new();
    for r in 0..4 {
        let actions = ok(cores[r].step(Event::Timer { slot: 2, view: 1 }));
        assert_eq!(actions, vec![Action::SignTimeout { slot: 2, view: 1, high_qc: None }]);
        timeouts.push(timeout(&replicas, r, 2, 1, Some(confirmed.clone())));
    }
    for r in 0..4 {
        let mut all = Vec::new();
        for author in 0..4 {
            let t = timeouts[author].clone();
            if author == r {
                let actions = ok(cores[r].step(own_timed_out(t.clone())));
                assert_eq!(actions[0], Action::BroadcastTimeout(t));
                all.extend(actions.into_iter().skip(1));
            } else {
                all.extend(ok(cores[r].step(timed_out(t))));
            }
            let expected_view = if author >= 2 { 2 } else { 1 };
            assert_eq!(cores[r].view_of(2), expected_view);
        }
        let tc = TC { slot: 2, view: 1, timeouts: timeouts[0..3].to_vec() };
        assert_eq!(all[0], Action::ArmTimer { slot: 2, view: 2, delay: DELAY });
        assert_eq!(all[1], Action::BroadcastTC(tc.clone()));
        if r == next_leader {
            assert_eq!(cores[r].current_proposals(), tips);
            let ticket = Ticket { evidence: Evidence::Timeouts(tc), slot: 2, proposals: Vec::new() };
            let prepare = ConsensusMessage::Prepare {
                slot: 2,
                view: 2,
                ticket: ticket.clone(),
                proposals: tips.clone(),
            };
            assert_eq!(all[2], Action::Propose(prepare.clone()));
            assert_eq!(all.len(), 3);
            // An empty ticket covers nothing: it waits for the next slot.
            assert_eq!(cores[r].tickets_waiting(), 1);
            assert!(!cores[r].has_proposed(3));
            // The ticket names the slot of its certificate, and a ticket must
            // stand one slot below the Prepare that it comes with.
            assert!(!cores[r].is_valid(&prepare));
        } else {
            assert_eq!(all.len(), 2);
        }
    }
}

#[test]
fn certificate_for_another_slot_decides_nothing() {
    let replicas = replicas(4);
    let mut cores = cores(&replicas, 50);
    let d = digest(3, 0, 9);
    let qc = QC {
        digest: d,
        votes: (0..3).map(|v| (replicas[v].name, sign(&replicas[v], &d))).collect(),
    };
    let elsewhere = vec![(replicas[0].name, Proposal { header_digest: header_id(0, 3), height: 3 })];
    let here = vec![(replicas[1].name, Proposal { header_digest: header_id(1, 4), height: 4 })];
    let carried = |slot: u64, view: u64, proposals: &Vec<(PublicKey, Proposal)>| {
        Some(HighQC { slot, view, qc: qc.clone(), proposals: proposals.clone() })
    };
    let leader = (2 + 5) % 4;
    // The certificate of the higher view is for another slot.
    let mixed = TC {
        slot: 2,
        view: 4,
        timeouts: vec![
            timeout(&replicas, 0, 2, 4, carried(1, 9, &elsewhere)),
            timeout(&replicas, 1, 2, 4, carried(2, 1, &here)),
            timeout(&replicas, 2, 2, 4, carried(3, 7, &elsewhere)),
        ],
    };
    let actions = cores[leader].handle_tc(mixed);
    assert!(matches!(
        proposed(&actions)[0],
        ConsensusMessage::Prepare { proposals, ticket, .. }
            if *proposals == here && ticket.proposals == here
    ));
    // Only certificates for other slots: the tips are proposed.
    ok(cores[leader].step(arrive(plain_header(&replicas, 2, 1))));
    let tips = cores[leader].current_proposals();
    assert_eq!(tips.len(), 1);
    let foreign = TC {
        slot: 2,
        view: 4,
        timeouts: vec![
            timeout(&replicas, 0, 2, 4, carried(1, 9, &elsewhere)),
            timeout(&replicas, 2, 2, 4, carried(3, 7, &elsewhere)),
        ],
    };
    let actions = cores[leader].handle_tc(foreign);
    assert!(matches!(
        proposed(&actions)[0],
        ConsensusMessage::Prepare { proposals, ticket, .. }
            if *proposals == tips && ticket.proposals.is_empty()
    ));
}

#[test]
fn id_must_be_the_content_address() {
    let replicas = replicas(4);
    let mut core = Core::new(replicas[1].name, committee(&replicas), 50, DELAY);
    let h = plain_header(&replicas, 0, 1);
    let other = digest(9, 9, 9);
    assert_eq!(h.verify(&other, core.committee()), Err(DagError::MalformedHeader(h.id)));
    assert_eq!(h.verify(&h.id, core.committee()), Ok(()));
    assert_eq!(core.sanitize_header(&h, &other), Err(DagError::MalformedHeader(h.id)));
    assert_eq!(core.check_header(&h, &other), Err(DagError::MalformedHeader(h.id)));
    for own in [false, true] {
        let event = if own {
            Event::OwnHeader { header: h.clone(), digest: other, payload_missing: false, parent_missing: false }
        } else {
            Event::Header { header: h.clone(), digest: other, payload_missing: false, parent_missing: false }
        };
        let outcome = core.step(event);
        assert_eq!(outcome.error, Some(DagError::MalformedHeader(h.id)));
        assert!(!outcome.actions.iter().any(|a| matches!(a, Action::StoreHeader { .. })));
        assert!(cast_votes(&outcome.actions).is_empty());
        assert_eq!(core.tip_height(&replicas[0].name), 0);
    }
    // A timeout signed over one digest does not stand for another content.
    let t = timeout(&replicas, 0, 7, 1, None);
    assert_eq!(t.verify(&other, core.committee()), Err(DagError::BadSignature));
    assert_eq!(t.verify(&t.id, core.committee()), Ok(()));
    let outcome = core.step(Event::Timeout { timeout: t.clone(), digest: other });
    assert_eq!(outcome, Outcome { actions: Vec::new(), error: Some(DagError::BadSignature) });
    assert!(!core.gathers_timeouts(7, 1));
    let outcome = core.step(Event::OwnTimeout { timeout: t.clone(), digest: other });
    assert_eq!(outcome.error, Some(DagError::BadSignature));
    assert_eq!(core.handle_timeout(t, other).error, Some(DagError::BadSignature));
    assert!(!core.gathers_timeouts(7, 1));
}

#[test]
fn coverage_counts_each_replica_once() {
    let replicas = replicas(4);
    let core = Core::new(replicas[1].name, committee(&replicas), 50, DELAY);
    let at = |a: usize, height: u64| {
        (replicas[a].name, Proposal { header_digest: header_id(a, height), height })
    };
    let ticket = vec![at(0, 10), at(1, 10), at(2, 10), at(3, 10)];
    // One replica listed three times is one replica.
    assert!(!core.enough_coverage(&vec![at(0, 10)], &vec![at(0, 11), at(0, 11), at(0, 11)]));
    assert!(!core.enough_coverage(&ticket, &vec![at(0, 11), at(0, 12), at(1, 11), at(1, 12)]));
    // Of several entries the first counts.
    assert!(!core.enough_coverage(&ticket, &vec![at(0, 11), at(1, 11), at(2, 10), at(2, 11)]));
    assert!(core.enough_coverage(&ticket, &vec![at(0, 11), at(1, 11), at(2, 11), at(2, 10)]));
    // Three of four have moved on; one not listed in the ticket does not count.
    assert!(core.enough_coverage(&ticket, &vec![at(0, 11), at(1, 10), at(2, 11), at(3, 12)]));
    assert!(!core.enough_coverage(&ticket[0..2].to_vec(), &vec![at(0, 11), at(1, 11), at(2, 11)]));
    assert!(!core.enough_coverage(&ticket, &ticket));
    assert!(!core.enough_coverage(&Vec::new(), &ticket));
}

#[test]
fn vote_with_a_failing_signature_does_nothing_at_all() {
    let replicas = replicas(4);
    let mut core = Core::new(replicas[0].name, committee(&replicas), 50, DELAY);
    let h = plain_header(&replicas, 0, 1);
    ok(core.step(made(h.clone())));
    let d1 = digest(3, 0, 1);
    let d2 = digest(3, 0, 2);
    let mut bad = vote(&replicas, 1, &h, &[d1, d2]);
    bad.consensus_sigs[1].1 = sign(&replicas[2], &d2);
    assert_eq!(
        core.step(Event::Vote(bad)),
        Outcome { actions: Vec::new(), error: Some(DagError::BadSignature) }
    );
    // Not even the good signature that came before the failing one was kept.
    assert!(!core.gathers_votes(&d1));
    assert!(!core.gathers_votes(&d2));
    // Nor where the vote itself fails after its signatures were taken in.
    let mut forged = vote(&replicas, 1, &h, &[d1]);
    forged.signature = sign(&replicas[2], &h.id);
    assert_eq!(core.process_vote(forged).error, Some(DagError::BadSignature));
    assert!(!core.gathers_votes(&d1));
    // A good vote is taken in whole.
    assert_eq!(core.step(Event::Vote(vote(&replicas, 1, &h, &[d1, d2]))).error, None);
    assert!(core.gathers_votes(&d1));
    assert!(core.gathers_votes(&d2));
}

#[test]
fn garbage_collection_reaches_all_that_is_kept() {
    let replicas = replicas(4);
    // Replica 3 leads slot 6.
    let mut core = Core::new(replicas[3].name, committee(&replicas), 3, DELAY);
    // A Prepare for slot 5 starts the timer of slot 6 and makes this replica propose for it.
    let d = digest(3, 2, 5);
    let prepare = ConsensusMessage::Prepare {
        slot: 5,
        view: 1,
        ticket: Ticket { evidence: Evidence::Header(header_id(1, 1)), slot: 4, proposals: Vec::new() },
        proposals: Vec::new(),
    };
    let h = header(&replicas, 3, 1, certificate(&replicas, 3, 0, &[]), vec![(d, prepare)]);
    ok(core.step(made(h.clone())));
    assert!(core.has_timer(6, 1));
    // Votes over the Prepare, started by a header at height 1.
    ok(core.step(Event::OwnVote(vote(&replicas, 3, &h, &[d]))));
    assert!(core.gathers_votes(&d));
    // Timeouts for slot 6 and for slot 20.
    ok(core.step(timed_out(timeout(&replicas, 0, 6, 1, None))));
    ok(core.step(timed_out(timeout(&replicas, 0, 20, 1, None))));
    assert!(core.gathers_timeouts(6, 1));
    let quiet = ConsensusMessage::Prepare {
        slot: 19,
        view: 1,
        ticket: Ticket { evidence: Evidence::Header(header_id(1, 1)), slot: 18, proposals: Vec::new() },
        proposals: Vec::new(),
    };
    ok(core.step(arrive(header(&replicas, 2, 1, certificate(&replicas, 2, 0, &[]), vec![(digest(3, 2, 19), quiet)]))));
    assert!(core.has_timer(20, 1));

    // Within the depth nothing goes.
    assert!(core.collect_garbage(3).is_empty());
    assert!(core.has_timer(6, 1) && core.gathers_votes(&d) && core.gathers_timeouts(6, 1));
    // Round 10 with depth 3 gives up what lies below 7.
    assert_eq!(core.collect_garbage(10), vec![Action::Forget { below: 7 }]);
    assert_eq!(core.gc_round(), 7);
    assert!(!core.has_timer(6, 1));
    assert!(!core.gathers_votes(&d));
    assert!(!core.gathers_timeouts(6, 1));
    assert!(!core.has_voted(1, &replicas[3].name));
    assert!(core.has_timer(20, 1));
    assert!(core.gathers_timeouts(20, 1));
    // Everything goes at the far end.
    assert_eq!(core.collect_garbage(u64::MAX), vec![Action::Forget { below: u64::MAX - 3 }]);
    assert!(!core.has_timer(20, 1));
    assert!(!core.gathers_timeouts(20, 1));
}

#[test]
fn view_change_prefers_highest_confirm() {
    let replicas = replicas(4);
    let mut cores = cores(&replicas, 50);
    let d = digest(3, 0, 9);
    let qc = QC {
        digest: d,
        votes: (0..3).map(|v| (replicas[v].name, sign(&replicas[v], &d))).collect(),
    };
    let low = vec![(replicas[0].name, Proposal { header_digest: header_id(0, 3), height: 3 })];
    let high = vec![(replicas[1].name, Proposal { header_digest: header_id(1, 4), height: 4 })];
    let late = vec![(replicas[2].name, Proposal { header_digest: header_id(2, 5), height: 5 })];
    let carried = |view: u64, proposals: &Vec<(PublicKey, Proposal)>| {
        Some(HighQC { slot: 2, view, qc: qc.clone(), proposals: proposals.clone() })
    };
    let tc = TC {
        slot: 2,
        view: 4,
        timeouts: vec![
            timeout(&replicas, 0, 2, 4, carried(1, &low)),
            timeout(&replicas, 1, 2, 4, carried(3, &high)),
            timeout(&replicas, 2, 2, 4, None),
            timeout(&replicas, 3, 2, 4, carried(3, &late)),
        ],
    };
    // The leader of view 5 of slot 2.
    let leader = (2 + 5) % 4;
    let actions = cores[leader].handle_tc(tc.clone());
    let messages = proposed(&actions);
    assert_eq!(messages.len(), 1);
    assert_eq!(
        *messages[0],
        ConsensusMessage::Prepare {
            slot: 2,
            view: 5,
            ticket: Ticket { evidence: Evidence::Timeouts(tc.clone()), slot: 2, proposals: high.clone() },
            proposals: high.clone(),
        }
    );
    // A certificate from a peer does not move the view.
    assert_eq!(cores[leader].view_of(2), 1);
    // Nobody else acts on it.
    let other = (leader + 1) % 4;
    assert!(cores[other].handle_tc(tc).is_empty());
    assert_eq!(cores[other].tickets_waiting(), 0);
}

/// Brings replica 3 to the point where every author's tip is at `height`,
/// the last header carrying `instances`.
fn climb(
    replicas: &[Replica],
    core: &mut Core,
    height: u64,
    instances: Vec<(Digest, ConsensusMessage)>,
) -> Vec<Action> {
    let mut last = Vec::new();
    for h in 1..=height {
        for author in 0..4 {
            let carried = if h == height && author == 3 { instances.clone() } else { Vec::new() };
            let parent = certificate(replicas, author, h - 1, &[0, 1]);
            last = ok(core.step(arrive(header(replicas, author, h, parent, carried))));
        }
    }
    last
}

#[test]
fn coverage_blocks_premature_prepare() {
    let replicas = replicas(4);
    let mut core = Core::new(replicas[3].name, committee(&replicas), 50, DELAY);
    assert_eq!(core.committee().get_leader(6, 1), replicas[3].name);
    let at_ten: Vec<(PublicKey, Proposal)> = (0..4)
        .map(|a| (replicas[a].name, Proposal { header_digest: header_id(a, 10), height: 10 }))
        .collect();
    let d = digest(3, 2, 5);
    let prepare = ConsensusMessage::Prepare {
        slot: 5,
        view: 1,
        ticket: Ticket { evidence: Evidence::Header(header_id(1, 9)), slot: 4, proposals: Vec::new() },
        proposals: at_ten.clone(),
    };
    let actions = climb(&replicas, &mut core, 10, vec![(d, prepare)]);
    assert_eq!(core.current_proposals(), at_ten);
    assert!(proposed(&actions).is_empty());
    assert_eq!(core.tickets_waiting(), 1);
    assert!(!core.has_proposed(6));
    let ticket = Ticket {
        evidence: Evidence::Header(header_id(3, 10)),
        slot: 5,
        proposals: at_ten.clone(),
    };
    assert!(!core.enough_coverage(&ticket.proposals, &core.current_proposals()));

    // A certificate alone is no progress.
    let same = core.process_certificate(certificate(&replicas, 0, 10, &[0, 1]));
    assert!(proposed(&same).is_empty());
    assert_eq!(core.is_ticket_ready(), Vec::new());
    assert_eq!(core.tickets_waiting(), 1);

    // Two tips move on: still short of a quorum.
    for author in [1, 2] {
        let actions = ok(core.step(arrive(plain_header(&replicas, author, 11))));
        assert!(proposed(&actions).is_empty());
        assert_eq!(core.tickets_waiting(), 1);
    }
    // The third makes the quorum, and its parent certificate sets off the check.
    let actions = ok(core.step(arrive(plain_header(&replicas, 3, 11))));
    let messages = proposed(&actions);
    assert_eq!(messages.len(), 1);
    assert_eq!(
        *messages[0],
        ConsensusMessage::Prepare {
            slot: 6,
            view: 1,
            ticket,
            proposals: core.current_proposals(),
        }
    );
    assert_eq!(core.tickets_waiting(), 0);
    assert!(core.has_proposed(6));
    // Exactly once.
    let again = core.process_certificate(certificate(&replicas, 1, 11, &[0, 1]));
    assert!(proposed(&again).is_empty());
    assert_eq!(core.is_ticket_ready(), Vec::new());
}

#[test]
fn next_leader_proposes_at_once_with_enough_coverage() {
    let replicas = replicas(4);
    let mut core = Core::new(replicas[3].name, committee(&replicas), 50, DELAY);
    let d = digest(3, 2, 5);
    let at_nine: Vec<(PublicKey, Proposal)> = (0..4)
        .map(|a| (replicas[a].name, Proposal { header_digest: header_id(a, 9), height: 9 }))
        .collect();
    let prepare = ConsensusMessage::Prepare {
        slot: 5,
        view: 1,
        ticket: Ticket { evidence: Evidence::Header(header_id(1, 8)), slot: 4, proposals: Vec::new() },
        proposals: at_nine.clone(),
    };
    let actions = climb(&replicas, &mut core, 10, vec![(d, prepare)]);
    let messages = proposed(&actions);
    assert_eq!(messages.len(), 1);
    assert_eq!(
        *messages[0],
        ConsensusMessage::Prepare {
            slot: 6,
            view: 1,
            ticket: Ticket {
                evidence: Evidence::Header(header_id(3, 10)),
                slot: 5,
                proposals: at_nine,
            },
            proposals: core.current_proposals(),
        }
    );
    assert_eq!(core.tickets_waiting(), 0);
    assert!(core.has_proposed(6));
}

fn some_commit(replicas: &[Replica]) -> ConsensusMessage {
    let d = digest(3, 0, 7);
    ConsensusMessage::Commit {
        slot: 1,
        view: 1,
        qc: QC {
            digest: d,
            votes: (0..3).map(|v| (replicas[v].name, sign(&replicas[v], &d))).collect(),
        },
        proposals: vec![(replicas[0].name, Proposal { header_digest: header_id(0, 7), height: 7 })],
    }
}

#[test]
fn commit_held_on_missing_proposal() {
    let replicas = replicas(4);
    let mut core = Core::new(replicas[1].name, committee(&replicas), 50, DELAY);
    let commit = some_commit(&replicas);
    let held = ok(core.step(Event::CommitResolved { message: commit.clone(), readiness: vec![false] }));
    assert!(held.is_empty());
    assert_eq!(core.commits_waiting(), 1);
    assert_eq!(core.front_commit(), Some(commit.clone()));
    // Still missing.
    assert!(ok(core.step(Event::Loopback { readiness: vec![false] })).is_empty());
    assert_eq!(core.commits_waiting(), 1);
    // At hand.
    let sent = ok(core.step(Event::Loopback { readiness: vec![true] }));
    assert_eq!(sent, vec![Action::Commit(commit)]);
    assert_eq!(core.commits_waiting(), 0);
    assert_eq!(core.front_commit(), None);
    assert!(ok(core.step(Event::Loopback { readiness: vec![true] })).is_empty());
}

#[test]
fn loopback_releases_one_commit_and_keeps_the_next() {
    let replicas = replicas(4);
    let mut core = Core::new(replicas[1].name, committee(&replicas), 50, DELAY);
    let first = some_commit(&replicas);
    let second = match some_commit(&replicas) {
        ConsensusMessage::Commit { view, qc, proposals, .. } => {
            ConsensusMessage::Commit { slot: 2, view, qc, proposals }
        }
        other => other,
    };
    assert!(core.process_commit_message(first.clone(), &vec![false]).is_empty());
    assert!(core.process_commit_message(second.clone(), &vec![false]).is_empty());
    assert_eq!(core.process_loopback(&vec![true]), vec![Action::Commit(first)]);
    assert_eq!(core.commits_waiting(), 1);
    assert_eq!(core.front_commit(), Some(second));
}

#[test]
fn commit_readiness_needs_every_proposal() {
    let replicas = replicas(4);
    let commit = some_commit(&replicas);
    assert!(Core::is_commit_ready(&commit, &vec![true]));
    assert!(!Core::is_commit_ready(&commit, &vec![false]));
    assert!(!Core::is_commit_ready(&commit, &vec![]));
    assert!(!Core::is_commit_ready(&commit, &vec![true, true]));
    let prepare = ConsensusMessage::Prepare {
        slot: 1,
        view: 1,
        ticket: Ticket { evidence: Evidence::Header(Digest::default()), slot: 0, proposals: Vec::new() },
        proposals: Vec::new(),
    };
    assert!(!Core::is_commit_ready(&prepare, &vec![]));
    let mut core = Core::new(replicas[1].name, committee(&replicas), 50, DELAY);
    assert!(core.process_commit_message(prepare, &vec![]).is_empty());
    assert_eq!(core.commits_waiting(), 0);
}

#[test]
fn header_is_voted_for_once() {
    let replicas = replicas(4);
    let mut core = Core::new(replicas[1].name, committee(&replicas), 50, DELAY);
    let h = plain_header(&replicas, 0, 1);
    let first = ok(core.step(arrive(h.clone())));
    assert_eq!(cast_votes(&first).len(), 1);
    assert!(core.has_voted(1, &replicas[0].name));
    let again = ok(core.step(arrive(h.clone())));
    assert!(cast_votes(&again).is_empty());
    // Another header of the same author at the same height gets no vote either.
    let mut twin = h;
    twin.id = digest(9, 0, 1);
    twin.signature = sign(&replicas[0], &twin.id);
    let other = ok(core.step(arrive(twin)));
    assert!(cast_votes(&other).is_empty());
    // Another author at the same height does.
    let theirs = ok(core.step(arrive(plain_header(&replicas, 2, 1))));
    assert_eq!(cast_votes(&theirs).len(), 1);
}

#[test]
fn prepare_is_signed_once_per_view() {
    let replicas = replicas(4);
    let mut core = Core::new(replicas[1].name, committee(&replicas), 50, DELAY);
    let prepare = |proposals: Vec<(PublicKey, Proposal)>| ConsensusMessage::Prepare {
        slot: 1,
        view: 1,
        ticket: Ticket { evidence: Evidence::Header(Digest::default()), slot: 0, proposals: Vec::new() },
        proposals,
    };
    let d1 = digest(3, 0, 1);
    let d2 = digest(3, 0, 2);
    let h = header(
        &replicas,
        0,
        1,
        certificate(&replicas, 0, 0, &[]),
        vec![(d1, prepare(Vec::new())), (d2, prepare(genesis_proposals(&replicas)))],
    );
    assert!(core.is_valid(&prepare(Vec::new())));
    let actions = ok(core.step(arrive(h)));
    let votes = cast_votes(&actions);
    assert!(matches!(votes[0], Action::CastVote { instances, .. } if *instances == vec![d1]));
    assert!(core.has_voted_consensus(1, 1));
    assert!(!core.is_valid(&prepare(Vec::new())));
    // Nor in a later header.
    let h2 = header(&replicas, 2, 1, certificate(&replicas, 2, 0, &[]), vec![(d2, prepare(Vec::new()))]);
    let actions = ok(core.step(arrive(h2)));
    let votes = cast_votes(&actions);
    assert!(matches!(votes[0], Action::CastVote { instances, .. } if instances.is_empty()));
}

#[test]
fn prepare_must_follow_its_ticket_and_be_of_the_current_view() {
    let replicas = replicas(4);
    let core = Core::new(replicas[1].name, committee(&replicas), 50, DELAY);
    let prepare = |slot: u64, view: u64, below: u64| ConsensusMessage::Prepare {
        slot,
        view,
        ticket: Ticket { evidence: Evidence::Header(Digest::default()), slot: below, proposals: Vec::new() },
        proposals: Vec::new(),
    };
    assert!(core.is_valid(&prepare(4, 1, 3)));
    assert!(!core.is_valid(&prepare(4, 1, 4)));
    assert!(!core.is_valid(&prepare(4, 1, 2)));
    assert!(!core.is_valid(&prepare(4, 2, 3)));
    assert!(!core.is_valid(&prepare(0, 1, u64::MAX)));
}

#[test]
fn confirm_needs_a_quorum_certificate() {
    let replicas = replicas(4);
    let core = Core::new(replicas[1].name, committee(&replicas), 50, DELAY);
    let d = digest(3, 0, 7);
    let confirm = |voters: &[usize], view: u64| ConsensusMessage::Confirm {
        slot: 1,
        view,
        qc: QC {
            digest: d,
            votes: voters.iter().map(|v| (replicas[*v].name, sign(&replicas[*v], &d))).collect(),
        },
        proposals: Vec::new(),
    };
    assert!(core.is_valid(&confirm(&[0, 1, 2], 1)));
    assert!(!core.is_valid(&confirm(&[0, 1], 1)));
    assert!(!core.is_valid(&confirm(&[0, 1, 1], 1)));
    assert!(!core.is_valid(&confirm(&[0, 1, 2], 2)));
    let mut forged = confirm(&[0, 1, 2], 1);
    if let ConsensusMessage::Confirm { qc, .. } = &mut forged {
        qc.votes[2].1 = sign(&replicas[3], &d);
    }
    assert!(!core.is_valid(&forged));
}

#[test]
fn views_never_fall_back() {
    let replicas = replicas(4);
    let mut core = Core::new(replicas[1].name, committee(&replicas), 50, DELAY);
    assert_eq!(core.view_of(7), 1);
    for author in 0..3 {
        ok(core.step(timed_out(timeout(&replicas, author, 7, 3, None))));
    }
    assert_eq!(core.view_of(7), 4);
    // Timeouts of views that the slot has left change nothing.
    for view in 1..4 {
        for author in 0..4 {
            let actions = ok(core.step(timed_out(timeout(&replicas, author, 7, view, None))));
            assert!(actions.is_empty());
            assert_eq!(core.view_of(7), 4);
        }
    }
    // A later view moves it on.
    for author in 1..4 {
        ok(core.step(timed_out(timeout(&replicas, author, 7, 4, None))));
    }
    assert_eq!(core.view_of(7), 5);
    assert_eq!(core.view_of(8), 1);
}

#[test]
fn timeout_certificate_forms_once() {
    let replicas = replicas(4);
    let mut core = Core::new(replicas[1].name, committee(&replicas), 50, DELAY);
    let mut broadcasts = 0;
    for author in [0, 0, 1, 2, 3, 3] {
        let actions = ok(core.step(timed_out(timeout(&replicas, author, 7, 1, None))));
        broadcasts += actions.iter().filter(|a| matches!(a, Action::BroadcastTC(_))).count();
    }
    assert_eq!(broadcasts, 1);
}

#[test]
fn timeouts_are_checked() {
    let replicas = replicas(4);
    let strangers = {
        let secret = SigningKey::from_bytes(&[9; 32]);
        vec![Replica { name: PublicKey(secret.verifying_key().to_bytes()), secret }]
    };
    let mut core = Core::new(replicas[1].name, committee(&replicas), 50, DELAY);
    let outcome = core.step(timed_out(timeout(&strangers, 0, 7, 1, None)));
    assert_eq!(outcome.error, Some(DagError::UnknownAuthority(strangers[0].name)));
    let mut forged = timeout(&replicas, 0, 7, 1, None);
    forged.signature = sign(&replicas[2], &forged.id);
    assert_eq!(core.step(timed_out(forged)).error, Some(DagError::BadSignature));
    let d = digest(3, 0, 7);
    let thin = HighQC {
        slot: 7,
        view: 1,
        qc: QC { digest: d, votes: vec![(replicas[0].name, sign(&replicas[0], &d))] },
        proposals: Vec::new(),
    };
    let outcome = core.step(timed_out(timeout(&replicas, 0, 7, 1, Some(thin))));
    assert_eq!(outcome.error, Some(DagError::HeaderRequiresQuorum(d)));
    // A second, different timeout of one author for one view.
    assert_eq!(core.step(timed_out(timeout(&replicas, 0, 7, 1, None))).error, None);
    let mut second = timeout(&replicas, 0, 7, 1, None);
    second.id = digest(2, 0, 99);
    second.signature = sign(&replicas[0], &second.id);
    assert_eq!(
        core.step(timed_out(second)).error,
        Some(DagError::AuthorityReuse(replicas[0].name))
    );
    assert_eq!(core.view_of(7), 1);
}

#[test]
fn headers_are_checked() {
    let replicas = replicas(4);
    let mut core = Core::new(replicas[1].name, committee(&replicas), 50, DELAY);
    // Not one above its parent.
    let skipping = header(&replicas, 0, 3, certificate(&replicas, 0, 1, &[0, 1]), Vec::new());
    assert_eq!(
        core.step(arrive(skipping.clone())),
        Outcome { actions: Vec::new(), error: Some(DagError::MalformedHeader(skipping.id)) }
    );
    let bottom = header(&replicas, 0, 0, certificate(&replicas, 0, 0, &[]), Vec::new());
    assert_eq!(core.step(arrive(bottom.clone())).error, Some(DagError::MalformedHeader(bottom.id)));
    // One vote is below the validity threshold of two.
    let thin = header(&replicas, 0, 2, certificate(&replicas, 0, 1, &[0]), Vec::new());
    assert_eq!(core.step(arrive(thin.clone())).error, Some(DagError::HeaderRequiresQuorum(thin.id)));
    // The same voter twice is one vote.
    let twice = header(&replicas, 0, 2, certificate(&replicas, 0, 1, &[0, 0]), Vec::new());
    assert_eq!(core.step(arrive(twice.clone())).error, Some(DagError::HeaderRequiresQuorum(twice.id)));
    // A vote over another header.
    let mut parent = certificate(&replicas, 0, 1, &[0, 1]);
    parent.votes[1].1 = sign(&replicas[1], &header_id(0, 7));
    let forged = header(&replicas, 0, 2, parent, Vec::new());
    assert_eq!(core.step(arrive(forged.clone())).error, Some(DagError::HeaderRequiresQuorum(forged.id)));
    // The author's signature.
    let mut unsigned = plain_header(&replicas, 0, 2);
    unsigned.signature = sign(&replicas[1], &unsigned.id);
    assert_eq!(core.step(arrive(unsigned)).error, Some(DagError::BadSignature));
    // A stranger.
    let stranger = SigningKey::from_bytes(&[9; 32]);
    let mut strange = plain_header(&replicas, 0, 2);
    strange.author = PublicKey(stranger.verifying_key().to_bytes());
    strange.signature = Signature(stranger.sign(&strange.id.0).to_bytes());
    assert_eq!(core.step(arrive(strange.clone())).error, Some(DagError::UnknownAuthority(strange.author)));
    // Nothing of all this left a trace.
    assert_eq!(core.tip_height(&replicas[0].name), 0);
    assert!(!core.has_voted(2, &replicas[0].name));
    // And a good one.
    assert_eq!(core.step(arrive(plain_header(&replicas, 0, 2))).error, None);
    assert_eq!(core.tip_height(&replicas[0].name), 2);
    assert_eq!(core.check_header(&plain_header(&replicas, 0, 2), &header_id(0, 2)), Ok(()));
}

#[test]
fn header_waits_for_what_it_depends_on() {
    let replicas = replicas(4);
    let mut core = Core::new(replicas[1].name, committee(&replicas), 50, DELAY);
    let h = plain_header(&replicas, 0, 1);
    for (payload_missing, parent_missing) in [(true, false), (false, true), (true, true)] {
        let outcome = core.step(Event::Header {
            header: h.clone(),
            digest: h.id,
            payload_missing,
            parent_missing,
        });
        assert_eq!(outcome, Outcome { actions: Vec::new(), error: None });
        assert_eq!(core.tip_height(&replicas[0].name), 0);
        assert!(!core.has_voted(1, &replicas[0].name));
    }
    let actions = ok(core.step(arrive(h)));
    assert_eq!(cast_votes(&actions).len(), 1);
}

#[test]
fn lower_header_does_not_replace_the_tip() {
    let replicas = replicas(4);
    let mut core = Core::new(replicas[1].name, committee(&replicas), 50, DELAY);
    ok(core.step(arrive(plain_header(&replicas, 0, 5))));
    assert_eq!(core.tip_height(&replicas[0].name), 5);
    assert_eq!(core.cert_height(&replicas[0].name), 4);
    let actions = ok(core.step(arrive(plain_header(&replicas, 0, 3))));
    assert_eq!(core.tip_height(&replicas[0].name), 5);
    assert_eq!(core.cert_height(&replicas[0].name), 4);
    assert_eq!(
        core.current_proposals(),
        vec![(replicas[0].name, Proposal { header_digest: header_id(0, 5), height: 5 })]
    );
    // It is stored and voted for all the same.
    assert_eq!(actions[0], Action::StoreHeader { id: header_id(0, 3) });
    assert_eq!(cast_votes(&actions).len(), 1);
}

#[test]
fn votes_are_checked() {
    let replicas = replicas(4);
    let mut core = Core::new(replicas[0].name, committee(&replicas), 50, DELAY);
    let h = plain_header(&replicas, 0, 3);
    // No header collects votes yet.
    let early = vote(&replicas, 1, &h, &[]);
    assert_eq!(core.sanitize_vote(&early), Err(DagError::UnexpectedVote(h.id)));
    assert_eq!(core.step(Event::Vote(early.clone())).error, Some(DagError::UnexpectedVote(h.id)));
    assert_eq!(core.process_vote(early).error, Some(DagError::UnexpectedVote(h.id)));
    ok(core.step(made(h.clone())));
    // Votes for other headers.
    let old = plain_header(&replicas, 0, 2);
    assert_eq!(
        core.sanitize_vote(&vote(&replicas, 1, &old, &[])),
        Err(DagError::VoteTooOld(old.id, 2))
    );
    let others = plain_header(&replicas, 2, 3);
    assert_eq!(
        core.sanitize_vote(&vote(&replicas, 1, &others, &[])),
        Err(DagError::UnexpectedVote(others.id))
    );
    let mut wrong_id = vote(&replicas, 1, &h, &[]);
    wrong_id.id = digest(9, 0, 3);
    assert_eq!(core.sanitize_vote(&wrong_id), Err(DagError::UnexpectedVote(wrong_id.id)));
    // Voter and signature.
    let mut forged = vote(&replicas, 1, &h, &[]);
    forged.signature = sign(&replicas[2], &h.id);
    assert_eq!(core.sanitize_vote(&forged), Err(DagError::BadSignature));
    let stranger = SigningKey::from_bytes(&[9; 32]);
    let mut strange = vote(&replicas, 1, &h, &[]);
    strange.author = PublicKey(stranger.verifying_key().to_bytes());
    strange.signature = Signature(stranger.sign(&h.id.0).to_bytes());
    assert_eq!(core.sanitize_vote(&strange), Err(DagError::UnknownAuthority(strange.author)));
    assert_eq!(core.process_vote(strange.clone()).error, Some(DagError::UnknownVoter(strange.author)));
    // A good one; a repeated one changes nothing; a conflicting one is an error.
    let good = vote(&replicas, 1, &h, &[]);
    assert_eq!(core.sanitize_vote(&good), Ok(()));
    assert_eq!(core.step(Event::Vote(good.clone())), Outcome { actions: Vec::new(), error: None });
    assert_eq!(core.step(Event::Vote(good)), Outcome { actions: Vec::new(), error: None });
    let mut conflicting = vote(&replicas, 1, &h, &[]);
    conflicting.signature = Signature([3; 64]);
    assert_eq!(core.process_vote(conflicting).error, Some(DagError::BadSignature));
    // A signature over a consensus message that does not verify ends the vote.
    let d = digest(3, 0, 1);
    let mut bad_share = vote(&replicas, 2, &h, &[d]);
    bad_share.consensus_sigs[0].1 = sign(&replicas[3], &d);
    assert_eq!(core.process_vote(bad_share).error, Some(DagError::BadSignature));
    assert_eq!(core.cert_height(&replicas[0].name), 2);
    // The second good vote certifies.
    let actions = ok(core.step(Event::Vote(vote(&replicas, 2, &h, &[]))));
    assert_eq!(actions.len(), 2);
    assert_eq!(core.cert_height(&replicas[0].name), 3);
}

#[test]
fn new_header_starts_a_new_count() {
    let replicas = replicas(4);
    let mut core = Core::new(replicas[0].name, committee(&replicas), 50, DELAY);
    let h1 = plain_header(&replicas, 0, 1);
    ok(core.step(made(h1.clone())));
    ok(core.step(Event::Vote(vote(&replicas, 1, &h1, &[]))));
    let h2 = plain_header(&replicas, 0, 2);
    ok(core.step(made(h2.clone())));
    // The vote for the first header no longer counts, nor is it expected.
    assert_eq!(
        core.step(Event::Vote(vote(&replicas, 2, &h1, &[]))).error,
        Some(DagError::VoteTooOld(h1.id, 1))
    );
    assert!(ok(core.step(Event::Vote(vote(&replicas, 1, &h2, &[])))).is_empty());
    assert_eq!(ok(core.step(Event::Vote(vote(&replicas, 2, &h2, &[])))).len(), 2);
}

#[test]
fn certificates_are_checked() {
    let replicas = replicas(4);
    let mut core = Core::new(replicas[1].name, committee(&replicas), 2, DELAY);
    let good = certificate(&replicas, 0, 4, &[2, 3]);
    assert_eq!(core.sanitize_certificate(&good), Ok(()));
    assert_eq!(
        core.sanitize_certificate(&certificate(&replicas, 0, 4, &[2])),
        Err(DagError::HeaderRequiresQuorum(header_id(0, 4)))
    );
    assert_eq!(
        core.sanitize_certificate(&certificate(&replicas, 0, 4, &[2, 3, 2])),
        Err(DagError::AuthorityReuse(replicas[2].name))
    );
    let mut forged = certificate(&replicas, 0, 4, &[2, 3]);
    forged.votes[0].1 = sign(&replicas[2], &header_id(0, 5));
    assert_eq!(core.sanitize_certificate(&forged), Err(DagError::BadSignature));
    let stranger = SigningKey::from_bytes(&[9; 32]);
    let strange_key = PublicKey(stranger.verifying_key().to_bytes());
    let mut strange = certificate(&replicas, 0, 4, &[2, 3]);
    strange.votes[1] = (strange_key, Signature(stranger.sign(&header_id(0, 4).0).to_bytes()));
    assert_eq!(core.sanitize_certificate(&strange), Err(DagError::UnknownAuthority(strange_key)));
    let mut orphan = certificate(&replicas, 0, 4, &[2, 3]);
    orphan.origin = strange_key;
    assert_eq!(core.sanitize_certificate(&orphan), Err(DagError::UnknownAuthority(strange_key)));
    assert_eq!(core.sanitize_certificate(&Certificate::genesis(replicas[2].name)), Ok(()));

    let actions = ok(core.step(Event::Certificate(certificate(&replicas, 0, 4, &[2, 3]))));
    assert_eq!(actions, vec![Action::StoreCertificate(good)]);
    assert_eq!(core.cert_height(&replicas[0].name), 4);
    // This replica's own certificate also goes to its proposer.
    let own = certificate(&replicas, 1, 1, &[2, 3]);
    let actions = ok(core.step(Event::Certificate(certificate(&replicas, 1, 1, &[2, 3]))));
    assert_eq!(actions, vec![Action::StoreCertificate(own.clone()), Action::DeliverCertificate(own)]);
    // A lower one is stored and changes nothing.
    ok(core.step(Event::Certificate(certificate(&replicas, 0, 3, &[2, 3]))));
    assert_eq!(core.cert_height(&replicas[0].name), 4);
    // Below the garbage-collection round.
    assert_eq!(core.collect_garbage(7), vec![Action::Forget { below: 5 }]);
    assert_eq!(
        core.step(Event::Certificate(certificate(&replicas, 0, 4, &[2, 3]))),
        Outcome {
            actions: Vec::new(),
            error: Some(DagError::CertificateTooOld(header_id(0, 4), 4)),
        }
    );
    assert_eq!(core.step(Event::Certificate(certificate(&replicas, 0, 5, &[2, 3]))).error, None);
}

#[test]
fn garbage_collection_keeps_the_last_rounds() {
    let replicas = replicas(4);
    let mut core = Core::new(replicas[1].name, committee(&replicas), 3, DELAY);
    for height in 1..=10 {
        ok(core.step(arrive(plain_header(&replicas, 0, height))));
        assert!(core.has_voted(height, &replicas[0].name));
    }
    // Within the depth nothing goes.
    assert!(core.collect_garbage(3).is_empty());
    assert_eq!(core.gc_round(), 0);
    assert!(core.has_voted(1, &replicas[0].name));
    assert_eq!(core.collect_garbage(10), vec![Action::Forget { below: 7 }]);
    assert_eq!(core.gc_round(), 7);
    for height in 1..=10 {
        assert_eq!(core.has_voted(height, &replicas[0].name), height >= 7);
    }
    // What was given up does not come back.
    let late = plain_header(&replicas, 0, 6);
    assert_eq!(
        core.step(arrive(late.clone())),
        Outcome { actions: Vec::new(), error: Some(DagError::HeaderTooOld(late.id, 6)) }
    );
    assert_eq!(core.sanitize_header(&late, &late.id), Err(DagError::HeaderTooOld(late.id, 6)));
    assert_eq!(core.sanitize_header(&plain_header(&replicas, 0, 7), &header_id(0, 7)), Ok(()));
    let again = ok(core.step(arrive(plain_header(&replicas, 0, 7))));
    assert!(cast_votes(&again).is_empty());
}

#[test]
fn timer_carries_the_latest_confirm() {
    let replicas = replicas(4);
    let mut core = Core::new(replicas[1].name, committee(&replicas), 50, DELAY);
    let d = digest(3, 0, 7);
    let qc = QC {
        digest: d,
        votes: (0..3).map(|v| (replicas[v].name, sign(&replicas[v], &d))).collect(),
    };
    let proposals = genesis_proposals(&replicas);
    let confirm = ConsensusMessage::Confirm { slot: 4, view: 1, qc: qc.clone(), proposals: proposals.clone() };
    let dc = digest(3, 0, 8);
    let h = header(&replicas, 0, 1, certificate(&replicas, 0, 0, &[]), vec![(dc, confirm)]);
    ok(core.step(arrive(h)));
    assert_eq!(
        core.local_timeout_round(4, 1),
        vec![Action::SignTimeout {
            slot: 4,
            view: 1,
            high_qc: Some(HighQC { slot: 4, view: 1, qc, proposals }),
        }]
    );
    assert_eq!(
        core.local_timeout_round(5, 1),
        vec![Action::SignTimeout { slot: 5, view: 1, high_qc: None }]
    );
}

#[test]
fn stale_timer_is_passed_over() {
    let replicas = replicas(4);
    let mut core = Core::new(replicas[1].name, committee(&replicas), 50, DELAY);
    for author in 0..3 {
        ok(core.step(timed_out(timeout(&replicas, author, 7, 1, None))));
    }
    assert_eq!(core.view_of(7), 2);
    assert_eq!(ok(core.step(Event::Timer { slot: 7, view: 1 })), Vec::new());
    assert_eq!(
        ok(core.step(Event::Timer { slot: 7, view: 2 })),
        vec![Action::SignTimeout { slot: 7, view: 2, high_qc: None }]
    );
    // A timer ahead of the view is acted on as well.
    assert_eq!(
        core.local_timeout_round(7, 5),
        vec![Action::SignTimeout { slot: 7, view: 5, high_qc: None }]
    );
    assert!(core.local_timeout_round(6, 0).is_empty());
}

#[test]
fn refused_share_leaves_no_trace() {
    let replicas = replicas(4);
    let mut core = Core::new(replicas[0].name, committee(&replicas), 50, DELAY);
    let d = digest(3, 0, 1);
    let prepare = ConsensusMessage::Prepare {
        slot: 1,
        view: 1,
        ticket: Ticket { evidence: Evidence::Header(Digest::default()), slot: 0, proposals: Vec::new() },
        proposals: Vec::new(),
    };
    let h = header(&replicas, 0, 1, certificate(&replicas, 0, 0, &[]), vec![(d, prepare)]);
    ok(core.step(made(h.clone())));
    // Three voters, the second of whom first sends a signature that fails.
    ok(core.step(Event::OwnVote(vote(&replicas, 0, &h, &[d]))));
    let mut bad = vote(&replicas, 1, &h, &[d]);
    bad.consensus_sigs[0].1 = sign(&replicas[2], &d);
    assert_eq!(core.step(Event::Vote(bad)), Outcome { actions: Vec::new(), error: Some(DagError::BadSignature) });
    assert!(ok(core.step(Event::Vote(vote(&replicas, 1, &h, &[d])))).is_empty());
    let actions = ok(core.step(Event::Vote(vote(&replicas, 2, &h, &[d]))));
    // The quorum certificate and the header's certificate form with the third good vote.
    assert_eq!(proposed(&actions).len(), 1);
    assert!(matches!(proposed(&actions)[0], ConsensusMessage::Confirm { qc, .. } if qc.votes.len() == 3));
    assert_eq!(actions.len(), 3);
}

#[test]
fn errors_have_their_severity() {
    let d = Digest::default();
    assert_eq!(DagError::StoreError.severity(), Severity::Fatal);
    assert_eq!(DagError::SerializationError.severity(), Severity::Fatal);
    assert_eq!(DagError::HeaderTooOld(d, 1).severity(), Severity::Debug);
    assert_eq!(DagError::VoteTooOld(d, 1).severity(), Severity::Debug);
    assert_eq!(DagError::CertificateTooOld(d, 1).severity(), Severity::Debug);
    assert_eq!(DagError::UnexpectedVote(d).severity(), Severity::Debug);
    assert_eq!(DagError::MalformedHeader(d).severity(), Severity::Warn);
    assert_eq!(DagError::HeaderRequiresQuorum(d).severity(), Severity::Warn);
    assert_eq!(DagError::BadSignature.severity(), Severity::Warn);
    assert_eq!(DagError::InvalidVoteInvalidation.severity(), Severity::Warn);
    assert_eq!(DagError::AuthorityReuse(PublicKey([0; 32])).severity(), Severity::Warn);
    assert_eq!(DagError::UnknownVoter(PublicKey([0; 32])).severity(), Severity::Warn);
    assert_eq!(DagError::UnknownAuthority(PublicKey([0; 32])).severity(), Severity::Warn);
}

#[test]
fn start_is_genesis() {
    let replicas = replicas(4);
    let core = Core::new(replicas[1].name, committee(&replicas), 50, DELAY);
    assert_eq!(core.name(), replicas[1].name);
    assert_eq!(core.gc_round(), 0);
    for r in &replicas {
        assert_eq!(core.tip_height(&r.name), 0);
        assert_eq!(core.cert_height(&r.name), 0);
    }
    assert!(core.current_proposals().is_empty());
    assert_eq!(core.tickets_waiting(), 0);
    assert_eq!(core.commits_waiting(), 0);
    assert_eq!(core.view_of(1), 1);
    let g = Header::genesis(replicas[0].name);
    assert_eq!(g.height, 0);
    assert_eq!(g.parent_cert, Certificate::genesis(replicas[0].name));
    assert_eq!(g.id, Digest::default());
}
