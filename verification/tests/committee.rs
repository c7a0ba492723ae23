use bft_core::committee::Committee;
use bft_core::keys::PublicKey;

fn key(tag: u8) -> PublicKey {
    PublicKey([tag; 32])
}

fn of(stakes: &[u32]) -> Committee {
    Committee::new(stakes.iter().enumerate().map(|(i, s)| (key(i as u8), *s)).collect()).unwrap()
}

#[test]
fn thresholds_follow_the_total_stake() {
    // (total stake, validity threshold, quorum threshold)
    let table = [
        (1, 1, 1),
        (2, 1, 1),
        (3, 1, 1),
        (4, 2, 3),
        (5, 2, 3),
        (6, 2, 3),
        (7, 3, 5),
        (10, 4, 7),
        (100, 34, 67),
    ];
    for (total, validity, quorum) in table {
        let committee = of(&[total]);
        assert_eq!(committee.total_votes(), total);
        assert_eq!(committee.validity_threshold(), validity);
        assert_eq!(committee.quorum_threshold(), quorum);
    }
    let four = of(&[1, 1, 1, 1]);
    assert_eq!(four.total_votes(), 4);
    assert_eq!(four.validity_threshold(), 2);
    assert_eq!(four.quorum_threshold(), 3);
    let none = of(&[0, 0]);
    assert_eq!(none.total_votes(), 0);
    assert_eq!(none.validity_threshold(), 1);
    assert_eq!(none.quorum_threshold(), 1);
    let most = of(&[u32::MAX]);
    assert_eq!(most.validity_threshold(), (u32::MAX - 1) / 3 + 1);
    assert_eq!(most.quorum_threshold(), 2 * ((u32::MAX - 1) / 3) + 1);
}

#[test]
fn committee_must_be_well_listed() {
    assert!(Committee::new(Vec::new()).is_none());
    assert!(Committee::new(vec![(key(1), 1), (key(2), 1), (key(1), 3)]).is_none());
    assert!(Committee::new(vec![(key(1), u32::MAX), (key(2), 1)]).is_none());
    assert!(Committee::new(vec![(key(1), u32::MAX - 1), (key(2), 1)]).is_some());
    assert!(Committee::new(vec![(key(1), 0)]).is_some());
}

#[test]
fn members_and_stakes_are_found() {
    let committee = of(&[3, 0, 5]);
    assert_eq!(committee.size(), 3);
    assert_eq!(committee.member_at(2), key(2));
    assert!(committee.is_member(&key(0)));
    assert!(committee.is_member(&key(1)));
    assert!(!committee.is_member(&key(3)));
    assert_eq!(committee.stake(&key(0)), 3);
    assert_eq!(committee.stake(&key(1)), 0);
    assert_eq!(committee.stake(&key(2)), 5);
    assert_eq!(committee.stake(&key(3)), 0);
}

#[test]
fn leaders_take_turns() {
    let committee = of(&[1, 1, 1, 1]);
    assert_eq!(committee.get_leader(0, 0), key(0));
    assert_eq!(committee.get_leader(1, 1), key(2));
    assert_eq!(committee.get_leader(2, 1), key(3));
    assert_eq!(committee.get_leader(2, 2), key(0));
    assert_eq!(committee.get_leader(5, 0), key(1));
    // 2^64 - 1 leaves 3 when divided by 4, and twice that leaves 2.
    assert_eq!(committee.get_leader(u64::MAX, 0), key(3));
    assert_eq!(committee.get_leader(u64::MAX, u64::MAX), key(2));
    let alone = of(&[1]);
    assert_eq!(alone.get_leader(17, 4), key(0));
}
