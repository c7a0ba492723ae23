use vstd::prelude::*;
use crate::collections::{as_map, find_key, firsts, has_key};
use crate::keys::{PublicKey, Slot, Stake, ViewNumber};

verus! {

/// The sum of the stakes listed in `s`.
pub open spec fn total_stake(s: Seq<(PublicKey, Stake)>) -> nat
    decreases s.len(),
{
    if s.len() == 0 {
        0
    } else {
        total_stake(s.drop_last()) + s.last().1 as nat
    }
}

/// The stake that the listing `s` gives to `pk`; nothing to a stranger.
pub open spec fn stake_in(s: Seq<(PublicKey, Stake)>, pk: PublicKey) -> nat {
    if has_key(s, pk) {
        as_map(s)[pk] as nat
    } else {
        0
    }
}

/// The number of faulty units of stake tolerated at total stake `total`:
/// the `f` with `3f + 1 <= total < 3f + 4`.
pub open spec fn faults(total: nat) -> nat {
    if total == 0 {
        0
    } else {
        ((total - 1) / 3) as nat
    }
}

/// The replica that leads `view` of `slot` under the listing `members`: the
/// members take turns in the order they are listed.
pub open spec fn leader_in(members: Seq<(PublicKey, Stake)>, slot: Slot, view: ViewNumber) -> PublicKey {
    members[(slot as int + view as int) % (members.len() as int)].0
}

/// The replicas that run the protocol, each with its stake.
pub struct Committee {
    members: Vec<(PublicKey, Stake)>,
    total: Stake,
}

impl Committee {
    #[verifier::type_invariant]
    pub closed spec fn inv(self) -> bool {
        &&& self.members@.len() >= 1
        &&& firsts(self.members@).no_duplicates()
        &&& self.total as nat == total_stake(self.members@)
    }

    /// The members with their stakes, in the order they were listed.
    pub closed spec fn members(&self) -> Seq<(PublicKey, Stake)> {
        self.members@
    }

    /// The stake of `pk`; zero for a stranger.
    pub open spec fn stake_of(&self, pk: PublicKey) -> nat {
        stake_in(self.members(), pk)
    }

    /// Whether `pk` is a member.
    pub open spec fn has(&self, pk: PublicKey) -> bool {
        has_key(self.members(), pk)
    }

    /// The stake of all members together.
    pub open spec fn total(&self) -> nat {
        total_stake(self.members())
    }

    /// The stake that shows that one honest replica took part: `f + 1`.
    pub open spec fn validity(&self) -> nat {
        faults(self.total()) + 1
    }

    /// The stake of a quorum: `2f + 1`.
    pub open spec fn quorum(&self) -> nat {
        2 * faults(self.total()) + 1
    }

    /// The replica that leads `view` of `slot`.
    pub open spec fn leader_of(&self, slot: Slot, view: ViewNumber) -> PublicKey {
        leader_in(self.members(), slot, view)
    }

    /// Makes a committee of `members`. There is none of an empty listing, of
    /// one that names a key twice, or of one whose stakes exceed what a
    /// `Stake` holds.
    pub fn new(members: Vec<(PublicKey, Stake)>) -> (r: Option<Committee>)
        ensures
            r is Some == (members@.len() >= 1 && firsts(members@).no_duplicates() && total_stake(
                members@,
            ) <= Stake::MAX),
            r matches Some(c) ==> c.members() == members@,
    {
        if members.len() == 0 {
            return None;
        }
        let mut total: Stake = 0;
        let mut i: usize = 0;
        while i < members.len()
            invariant
                i <= members.len(),
                total as nat == total_stake(members@.take(i as int)),
                firsts(members@.take(i as int)).no_duplicates(),
            decreases members.len() - i,
        {
            let ghost head = members@.take(i as int);
            let ghost next = members@.take(i + 1);
            proof {
                assert(next.drop_last() =~= head);
                assert(next.last() == members@[i as int]);
            }
            let mut j: usize = 0;
            while j < i
                invariant
                    j <= i,
                    i < members.len(),
                    forall|k: int| 0 <= k < j ==> members@[k].0 != members@[i as int].0,
                decreases i - j,
            {
                if members[j].0 == members[i].0 {
                    proof {
                        assert(firsts(members@)[j as int] == firsts(members@)[i as int]);
                    }
                    return None;
                }
                j += 1;
            }
            proof {
                assert forall|a: int, b: int|
                    0 <= a < next.len() && 0 <= b < next.len() && a != b implies firsts(next)[a]
                    != firsts(next)[b] by {
                    if a < i && b < i {
                        assert(firsts(head)[a] != firsts(head)[b]);
                    }
                }
            }
            match total.checked_add(members[i].1) {
                Some(t) => {
                    total = t;
                },
                None => {
                    proof {
                        lemma_total_stake_prefix(members@, i + 1);
                    }
                    return None;
                },
            }
            i += 1;
        }
        proof {
            assert(members@.take(members@.len() as int) =~= members@);
        }
        Some(Committee { members, total })
    }

    /// The number of members.
    pub fn size(&self) -> (n: usize)
        ensures
            n == self.members().len(),
            n >= 1,
    {
        proof {
            use_type_invariant(self);
        }
        self.members.len()
    }

    /// The `i`-th member.
    pub fn member_at(&self, i: usize) -> (pk: PublicKey)
        requires
            i < self.members().len(),
        ensures
            pk == self.members()[i as int].0,
            self.has(pk),
    {
        self.members[i].0
    }

    /// Whether `pk` is a member.
    pub fn is_member(&self, pk: &PublicKey) -> (r: bool)
        ensures
            r == self.has(*pk),
    {
        find_key(&self.members, pk).is_some()
    }

    /// The stake of `pk`; zero for a stranger.
    pub fn stake(&self, pk: &PublicKey) -> (s: Stake)
        ensures
            s as nat == self.stake_of(*pk),
    {
        match find_key(&self.members, pk) {
            Some(i) => self.members[i].1,
            None => 0,
        }
    }

    /// The stake of all members together.
    pub fn total_votes(&self) -> (t: Stake)
        ensures
            t as nat == self.total(),
    {
        proof {
            use_type_invariant(self);
        }
        self.total
    }

    /// The stake that shows that one honest replica took part.
    pub fn validity_threshold(&self) -> (t: Stake)
        ensures
            t as nat == self.validity(),
    {
        proof {
            use_type_invariant(self);
        }
        if self.total == 0 {
            1
        } else {
            (self.total - 1) / 3 + 1
        }
    }

    /// The stake of a quorum.
    pub fn quorum_threshold(&self) -> (t: Stake)
        ensures
            t as nat == self.quorum(),
    {
        proof {
            use_type_invariant(self);
        }
        if self.total == 0 {
            1
        } else {
            2 * ((self.total - 1) / 3) + 1
        }
    }

    /// The replica that leads `view` of `slot`.
    pub fn get_leader(&self, slot: Slot, view: ViewNumber) -> (pk: PublicKey)
        ensures
            pk == self.leader_of(slot, view),
            self.has(pk),
    {
        proof {
            use_type_invariant(self);
        }
        let n: u128 = self.members.len() as u128;
        let turn: u128 = (slot as u128 + view as u128) % n;
        self.members[turn as usize].0
    }
}

/// A prefix of a listing weighs no more than the whole.
pub proof fn lemma_total_stake_prefix(s: Seq<(PublicKey, Stake)>, n: int)
    requires
        0 <= n <= s.len(),
    ensures
        total_stake(s.take(n)) <= total_stake(s),
    decreases s.len(),
{
    if n == s.len() {
        assert(s.take(n) =~= s);
    } else {
        assert(s.drop_last().take(n) =~= s.take(n));
        lemma_total_stake_prefix(s.drop_last(), n);
    }
}

/// The thresholds are those of the `f` with `3f + 1 <= total < 3f + 4`; a
/// validity threshold is within a quorum, and a quorum within the total.
pub proof fn lemma_thresholds(total: nat)
    requires
        total >= 1,
    ensures
        3 * faults(total) + 1 <= total < 3 * faults(total) + 4,
        faults(total) + 1 <= 2 * faults(total) + 1 <= total,
{
}

} // verus!
