use vstd::prelude::*;
use crate::actions::ActionView;
use crate::aggregators::VotesAggregatorView;
use crate::events::EventView;
use crate::keys::{Ballot, Height, Slot};
use crate::protocol::State;
use crate::protocol_laws::{gated, law_event, law_gc, law_parent_chain, quiet};

verus! {

/// What happens to a primary in the course of its life: an event arrives, or
/// the round of consensus is read and what lies behind it is given up.
pub enum Input {
    Event(EventView),
    Round(Height),
}

impl State {
    /// What one input does.
    pub open spec fn input_step(self, input: Input) -> (State, Seq<ActionView>) {
        match input {
            Input::Event(e) => (self.event_step(e).0, self.event_step(e).1),
            Input::Round(round) => self.gc_step(round),
        }
    }

    /// The state after the first `n` of `inputs`, and all that was asked for
    /// on the way.
    pub open spec fn history(self, inputs: Seq<Input>, n: int) -> (State, Seq<ActionView>)
        decreases n,
    {
        if n <= 0 {
            (self, Seq::empty())
        } else {
            let (s1, a1) = self.history(inputs, n - 1);
            let (s2, a2) = s1.input_step(inputs[n - 1]);
            (s2, a1 + a2)
        }
    }

    /// Whether, over the first `n` of `inputs`, the round of consensus never
    /// falls back behind what was given up before.
    pub open spec fn orderly(self, inputs: Seq<Input>, n: int) -> bool {
        forall|k: int|
            0 <= k < n ==> ((#[trigger] inputs[k]) matches Input::Round(round) ==> round
                <= self.gc_depth || round - self.gc_depth >= self.history(inputs, k).0.gc_round)
    }
}

/// Whether `a` is the casting of a vote for the header of `b.author` at
/// `b.height`.
pub open spec fn casts(a: ActionView, b: Ballot) -> bool {
    a matches ActionView::CastVote { height, origin, .. } && height == b.height && origin
        == b.author
}

/// How many votes for the header of `b.author` at `b.height` are cast among
/// `a`.
pub open spec fn votes_cast(a: Seq<ActionView>, b: Ballot) -> nat
    decreases a.len(),
{
    if a.len() == 0 {
        0
    } else {
        votes_cast(a.drop_last(), b) + if casts(a.last(), b) {
            1nat
        } else {
            0nat
        }
    }
}

proof fn lemma_cast_none(a: Seq<ActionView>, b: Ballot)
    requires
        forall|i: int| 0 <= i < a.len() ==> !casts(#[trigger] a[i], b),
    ensures
        votes_cast(a, b) == 0,
    decreases a.len(),
{
    if a.len() > 0 {
        assert forall|i: int| 0 <= i < a.drop_last().len() implies !casts(
            #[trigger] a.drop_last()[i],
            b,
        ) by {
            assert(a.drop_last()[i] == a[i]);
        }
        lemma_cast_none(a.drop_last(), b);
        assert(a.last() == a[a.len() - 1]);
    }
}

proof fn lemma_cast_once(a: Seq<ActionView>, b: Ballot)
    requires
        forall|i: int, j: int|
            0 <= i < a.len() && 0 <= j < a.len() && (#[trigger] a[i]) is CastVote && (
            #[trigger] a[j]) is CastVote ==> i == j,
    ensures
        votes_cast(a, b) <= 1,
        votes_cast(a, b) == 1 ==> exists|i: int| 0 <= i < a.len() && casts(#[trigger] a[i], b),
    decreases a.len(),
{
    if a.len() > 0 {
        let front = a.drop_last();
        assert forall|i: int, j: int|
            0 <= i < front.len() && 0 <= j < front.len() && (#[trigger] front[i]) is CastVote && (
            #[trigger] front[j]) is CastVote implies i == j by {
            assert(front[i] == a[i]);
            assert(front[j] == a[j]);
        }
        lemma_cast_once(front, b);
        assert(a.last() == a[a.len() - 1]);
        if casts(a.last(), b) {
            assert forall|i: int| 0 <= i < front.len() implies !casts(#[trigger] front[i], b) by {
                assert(front[i] == a[i]);
                if casts(front[i], b) {
                    assert(a[i] is CastVote);
                    assert(a[a.len() - 1] is CastVote);
                }
            }
            lemma_cast_none(front, b);
        } else if votes_cast(a, b) == 1 {
            let i = choose|i: int| 0 <= i < front.len() && casts(#[trigger] front[i], b);
            assert(a[i] == front[i]);
        }
    }
}

proof fn lemma_cast_add(a: Seq<ActionView>, c: Seq<ActionView>, b: Ballot)
    ensures
        votes_cast(a + c, b) == votes_cast(a, b) + votes_cast(c, b),
    decreases c.len(),
{
    if c.len() == 0 {
        assert(a + c =~= a);
    } else {
        assert((a + c).drop_last() =~= a + c.drop_last());
        assert((a + c).last() == c.last());
        lemma_cast_add(a, c.drop_last(), b);
    }
}

/// What one event does about the votes for one header: at most one is cast;
/// none where the header was voted for before or lies below the
/// garbage-collection round; and a header for which one is cast counts as
/// voted for from then on.
proof fn lemma_event_votes(s: State, e: EventView, b: Ballot)
    ensures
        votes_cast(s.event_step(e).1, b) <= 1,
        s.last_voted.contains(b) || b.height < s.gc_round ==> votes_cast(s.event_step(e).1, b)
            == 0,
        votes_cast(s.event_step(e).1, b) == 1 ==> s.event_step(e).0.last_voted.contains(b),
{
    let a = s.event_step(e).1;
    law_event(s, e);
    match e {
        EventView::Header { header, digest, payload_missing, parent_missing } => {
            law_parent_chain(s, header, digest, payload_missing, parent_missing);
            lemma_cast_once(a, b);
            if s.last_voted.contains(b) || b.height < s.gc_round {
                lemma_cast_none(a, b);
            }
        },
        EventView::OwnHeader { header, digest, payload_missing, parent_missing } => {
            let s0 = State {
                current_header: Some(header),
                votes_aggregator: VotesAggregatorView::fresh(),
                formed: None,
                qcs_formed: 0,
                ..s
            };
            law_parent_chain(s0, header, digest, payload_missing, parent_missing);
            let inner = s0.header_step(header, digest, payload_missing, parent_missing).1;
            let first = seq![ActionView::BroadcastHeader { id: header.id, height: header.height }];
            assert(a == first + inner);
            lemma_cast_add(first, inner, b);
            assert(votes_cast(first, b) == 0) by {
                lemma_cast_none(first, b);
            }
            lemma_cast_once(inner, b);
            if s.last_voted.contains(b) || b.height < s.gc_round {
                lemma_cast_none(inner, b);
            }
        },
        _ => {
            assert(quiet(s.members, a));
            lemma_cast_none(a, b);
        },
    }
}

/// The invariant that carries the law of one vote: so far at most one vote
/// was cast for the header, and if one was, the header counts as voted for
/// or lies below the garbage-collection round.
spec fn voted_at_most_once(s: State, inputs: Seq<Input>, n: int, b: Ballot) -> bool {
    let (t, a) = s.history(inputs, n);
    &&& votes_cast(a, b) <= 1
    &&& votes_cast(a, b) == 1 ==> t.last_voted.contains(b) || b.height < t.gc_round
    &&& s.last_voted.contains(b) || b.height < s.gc_round ==> votes_cast(a, b) == 0 && (
    t.last_voted.contains(b) || b.height < t.gc_round)
}

proof fn lemma_voted_at_most_once(s: State, inputs: Seq<Input>, n: int, b: Ballot)
    requires
        0 <= n <= inputs.len(),
        s.orderly(inputs, n),
    ensures
        voted_at_most_once(s, inputs, n, b),
        s.history(inputs, n).0.gc_depth == s.gc_depth,
    decreases n,
{
    if n > 0 {
        lemma_voted_at_most_once(s, inputs, n - 1, b);
        let (s1, a1) = s.history(inputs, n - 1);
        let (s2, a2) = s1.input_step(inputs[n - 1]);
        lemma_cast_add(a1, a2, b);
        match inputs[n - 1] {
            Input::Event(e) => {
                lemma_event_votes(s1, e, b);
                law_event(s1, e);
            },
            Input::Round(round) => {
                law_gc(
                    s1,
                    round,
                    crate::messages::HeaderView::genesis(b.author),
                    crate::keys::Digest::zero(),
                    false,
                    false,
                );
                lemma_cast_none(a2, b);
            },
        }
    }
}

/// In the whole life of a primary at most one vote is cast for the header
/// of one author at one height, however events and rounds follow each other,
/// as long as the round of consensus does not fall back; and none is cast
/// for a header that counted as voted for, or lay below the
/// garbage-collection round, at the start.
pub proof fn law_one_vote_per_header(s: State, inputs: Seq<Input>, b: Ballot)
    requires
        s.orderly(inputs, inputs.len() as int),
    ensures
        votes_cast(s.history(inputs, inputs.len() as int).1, b) <= 1,
        s.last_voted.contains(b) || b.height < s.gc_round ==> votes_cast(
            s.history(inputs, inputs.len() as int).1,
            b,
        ) == 0,
{
    lemma_voted_at_most_once(s, inputs, inputs.len() as int, b);
}

/// In the whole life of a primary no slot falls back to an earlier view, no
/// view loses the mark that a Prepare was signed in it, the replica stays
/// who it is with the committee it has, and every Prepare for a next slot
/// that goes to the proposer keeps the coverage rule.
pub proof fn law_history(s: State, inputs: Seq<Input>, n: int)
    requires
        0 <= n <= inputs.len(),
    ensures
        ({
            let (t, a) = s.history(inputs, n);
            &&& t.name == s.name
            &&& t.members == s.members
            &&& forall|slot: Slot| t.current_view(slot) >= s.current_view(slot)
            &&& s.last_voted_consensus.subset_of(t.last_voted_consensus)
            &&& forall|i: int| 0 <= i < a.len() ==> gated(s.members, #[trigger] a[i])
        }),
    decreases n,
{
    if n > 0 {
        law_history(s, inputs, n - 1);
        let (s1, a1) = s.history(inputs, n - 1);
        let (s2, a2) = s1.input_step(inputs[n - 1]);
        match inputs[n - 1] {
            Input::Event(e) => {
                law_event(s1, e);
            },
            Input::Round(round) => {
                law_gc(
                    s1,
                    round,
                    crate::messages::HeaderView::genesis(s.name),
                    crate::keys::Digest::zero(),
                    false,
                    false,
                );
            },
        }
        assert forall|slot: Slot| s2.current_view(slot) >= s.current_view(slot) by {
            assert(s1.current_view(slot) >= s.current_view(slot));
            assert(s2.current_view(slot) >= s1.current_view(slot));
        }
        let a = a1 + a2;
        assert forall|i: int| 0 <= i < a.len() implies gated(s.members, #[trigger] a[i]) by {
            if i < a1.len() {
                assert(a[i] == a1[i]);
            } else {
                assert(a[i] == a2[i - a1.len()]);
            }
        }
    }
}

} // verus!
