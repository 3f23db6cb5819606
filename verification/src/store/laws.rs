//! What holds of the store whatever is stored in it, proved from what each
//! operation does to its contents.

use crate::height::Height;
use crate::store::model::{
    at_round, first_position, key_position, lemma_first_position, lemma_first_position_is,
    lemma_first_position_push, of_height, with_key, StoreState,
};
use crate::store::types::{
    CertificateView, ConsensusValueView, DecisionView, ProposalKey, ProposalView, Round,
    StoreError,
};
use vstd::prelude::*;

verus! {

/// The contents after the decisions of `decisions` were stored one after
/// the other, whatever each attempt returned.
pub open spec fn after_decisions(start: StoreState, decisions: Seq<DecisionView>) -> StoreState
    decreases decisions.len(),
{
    if decisions.len() == 0 {
        start
    } else {
        after_decisions(start, decisions.drop_last()).store_decided_value(
            decisions.last().certificate,
            decisions.last().value,
        ).0
    }
}

/// The higher of a height and the greatest height so far.
pub open spec fn higher(max: Option<Height>, height: Height) -> Height {
    match max {
        Some(best) => if best.0 >= height.0 {
            best
        } else {
            height
        },
        None => height,
    }
}

/// A storage without tables fails the table check, and creating the
/// tables makes it pass: it passes exactly when there is nothing left to
/// create.
pub proof fn lemma_table_check(state: StoreState)
    ensures
        StoreState::uninitialized().verify_tables() is Err,
        state.with_tables().verify_tables() is Ok,
        state.verify_tables() is Ok <==> state.with_tables() == state,
{
    if state.verify_tables() is Ok {
        assert(state.with_tables().decided == state.decided);
        assert(state.with_tables().undecided == state.undecided);
    }
}

/// Storing a decided value succeeds exactly when the table exists and the
/// height has no other decided value. It then is the decided value of its
/// height. Whether it succeeds or not, every height that had a decided value
/// keeps it, and no other height gets one.
pub proof fn lemma_decided_value_stands(
    state: StoreState,
    certificate: CertificateView,
    value: ConsensusValueView,
    height: Height,
)
    ensures
        ({
            let (next, r) = state.store_decided_value(certificate, value);
            let decision = DecisionView { value, certificate };
            &&& r is Ok <==> state.decided is Some && (state.decided_at(certificate.height) is None
                || state.decided_at(certificate.height) == Some(decision))
            &&& r is Ok ==> next.decided_at(certificate.height) == Some(decision)
            &&& r is Err ==> next == state
            &&& state.decided_at(height) is Some ==> next.decided_at(height) == state.decided_at(
                height,
            )
            &&& height != certificate.height ==> next.decided_at(height) == state.decided_at(
                height,
            )
            &&& next.undecided == state.undecided
        }),
{
}

/// Storing the same decided value a second time succeeds and changes
/// nothing.
pub proof fn lemma_store_decided_value_idempotent(
    state: StoreState,
    certificate: CertificateView,
    value: ConsensusValueView,
)
    requires
        state.store_decided_value(certificate, value).1 is Ok,
    ensures
        ({
            let once = state.store_decided_value(certificate, value).0;
            once.store_decided_value(certificate, value) == (once, Ok::<(), StoreError>(()))
        }),
{
}

/// After any sequence of attempts to store decided values, a height has at
/// most one decided value, and it is the first that was stored for it: the
/// one that the store had at the start, or else, where the table exists,
/// the first in the sequence for that height.
pub proof fn lemma_first_decision_stands(
    start: StoreState,
    decisions: Seq<DecisionView>,
    height: Height,
)
    ensures
        after_decisions(start, decisions).decided_at(height) == if start.decided_at(height)
            is Some {
            start.decided_at(height)
        } else if start.decided is Some && first_position(decisions, of_height(height))
            < decisions.len() {
            Some(decisions[first_position(decisions, of_height(height))])
        } else {
            None
        },
        after_decisions(start, decisions).decided is Some <==> start.decided is Some,
    decreases decisions.len(),
{
    if decisions.len() > 0 {
        let earlier = decisions.drop_last();
        let last = decisions.last();
        lemma_first_decision_stands(start, earlier, height);
        lemma_decided_value_stands(
            after_decisions(start, earlier),
            last.certificate,
            last.value,
            height,
        );
        assert(decisions == earlier.push(last));
        lemma_first_position_push(earlier, last, of_height(height));
        let at = first_position(earlier, of_height(height));
        if at < earlier.len() {
            assert(decisions[at] == earlier[at]);
        }
    }
}

/// Whether the attempt at position `at` of `attempts` succeeded, made
/// after the attempts before it.
pub open spec fn attempt_succeeded(start: StoreState, attempts: Seq<DecisionView>, at: int) -> bool {
    after_decisions(start, attempts.take(at)).store_decided_value(
        attempts[at].certificate,
        attempts[at].value,
    ).1 is Ok
}

/// A height that has a decided value after the first `from` attempts has
/// the same one after the first `upto`.
pub proof fn lemma_decision_persists(
    start: StoreState,
    attempts: Seq<DecisionView>,
    from: int,
    upto: int,
    height: Height,
)
    requires
        0 <= from <= upto <= attempts.len(),
        after_decisions(start, attempts.take(from)).decided_at(height) is Some,
    ensures
        after_decisions(start, attempts.take(upto)).decided_at(height) == after_decisions(
            start,
            attempts.take(from),
        ).decided_at(height),
    decreases upto - from,
{
    if from < upto {
        lemma_decision_persists(start, attempts, from, upto - 1, height);
        let before = attempts.take(upto - 1);
        let now = attempts.take(upto);
        assert(now.drop_last() == before);
        assert(now.last() == attempts[upto - 1]);
        lemma_decided_value_stands(
            after_decisions(start, before),
            attempts[upto - 1].certificate,
            attempts[upto - 1].value,
            height,
        );
    }
}

/// One decided value per height, over any history: where the attempts for
/// a height that succeeded all carried the same decision, and one of them
/// did succeed, the height has this decision afterwards, however many
/// times it was stored and whatever was stored for other heights.
pub proof fn lemma_one_decision_per_height(
    start: StoreState,
    attempts: Seq<DecisionView>,
    height: Height,
    decision: DecisionView,
)
    requires
        exists|i: int|
            0 <= i < attempts.len() && (#[trigger] attempts[i]).certificate.height == height
                && attempt_succeeded(start, attempts, i),
        forall|i: int|
            0 <= i < attempts.len() && (#[trigger] attempts[i]).certificate.height == height
                && attempt_succeeded(start, attempts, i) ==> attempts[i] == decision,
    ensures
        after_decisions(start, attempts).get_decided_value(height) == Ok::<
            Option<DecisionView>,
            StoreError,
        >(Some(decision)),
{
    let at = choose|i: int|
        0 <= i < attempts.len() && (#[trigger] attempts[i]).certificate.height == height
            && attempt_succeeded(start, attempts, i);
    let before = attempts.take(at);
    let now = attempts.take(at + 1);
    assert(now.drop_last() == before);
    assert(now.last() == attempts[at]);
    lemma_decided_value_stands(
        after_decisions(start, before),
        attempts[at].certificate,
        attempts[at].value,
        height,
    );
    assert(after_decisions(start, now).decided_at(height) == Some(decision));
    lemma_decision_persists(start, attempts, at + 1, attempts.len() as int, height);
    assert(attempts.take(attempts.len() as int) == attempts);
}

/// There is one answer to the question of the greatest decided height.
pub proof fn lemma_max_decided_height_unique(
    state: StoreState,
    one: Option<Height>,
    other: Option<Height>,
)
    requires
        state.is_max_decided_height(one),
        state.is_max_decided_height(other),
    ensures
        one == other,
{
    if one is Some {
        assert(state.decided_at(one->0) is Some);
    }
    if other is Some {
        assert(state.decided_at(other->0) is Some);
    }
}

/// No height is decided in a store that holds nothing, and a decided value
/// that is stored raises the greatest decided height to its own height
/// where that is higher.
pub proof fn lemma_max_decided_height_tracks(
    state: StoreState,
    certificate: CertificateView,
    value: ConsensusValueView,
    max: Option<Height>,
)
    requires
        state.is_max_decided_height(max),
        state.store_decided_value(certificate, value).1 is Ok,
    ensures
        StoreState::uninitialized().is_max_decided_height(None),
        StoreState::uninitialized().with_tables().is_max_decided_height(None),
        state.store_decided_value(certificate, value).0.is_max_decided_height(
            Some(higher(max, certificate.height)),
        ),
{
    let next = state.store_decided_value(certificate, value).0;
    let top = higher(max, certificate.height);
    assert forall|other: Height| #[trigger] next.decided_at(other) is Some implies other.0
        <= top.0 by {
        if other != certificate.height {
            assert(state.decided_at(other) is Some);
        }
    }
    if max is Some {
        assert(state.decided_at(max->0) is Some);
    }
    assert forall|other: Height| #[trigger]
        StoreState::uninitialized().with_tables().decided_at(other) is None by {}
}

/// Putting one item in the place of another leaves a filter's result as
/// long as it was, where the two are alike to the filter. Where it lets
/// neither through, the result is the same; where it lets both through, the
/// new item is in the result.
pub proof fn lemma_filter_update<T>(items: Seq<T>, at: int, item: T, pass: spec_fn(T) -> bool)
    requires
        0 <= at < items.len(),
        pass(items[at]) == pass(item),
    ensures
        items.update(at, item).filter(pass).len() == items.filter(pass).len(),
        !pass(item) ==> items.update(at, item).filter(pass) == items.filter(pass),
        pass(item) ==> items.update(at, item).filter(pass).contains(item),
    decreases items.len(),
{
    let earlier = items.drop_last();
    let changed = items.update(at, item);
    assert(items == earlier.push(items.last()));
    earlier.lemma_filter_push(items.last(), pass);
    if at == items.len() - 1 {
        assert(changed == earlier.push(item));
        earlier.lemma_filter_push(item, pass);
        if pass(item) {
            let kept = earlier.filter(pass).push(item);
            assert(kept[kept.len() - 1] == item);
        }
    } else {
        lemma_filter_update(earlier, at, item, pass);
        assert(changed == earlier.update(at, item).push(items.last()));
        earlier.update(at, item).lemma_filter_push(items.last(), pass);
        if pass(item) {
            let kept = earlier.update(at, item).filter(pass);
            let index = choose|index: int| 0 <= index < kept.len() && kept[index] == item;
            if pass(items.last()) {
                assert(kept.push(items.last())[index] == item);
            }
        }
    }
}

/// Two sequences that are alike to a test, item by item, have their first
/// wanted item at the same position.
pub proof fn lemma_first_position_alike<T>(one: Seq<T>, other: Seq<T>, wanted: spec_fn(T) -> bool)
    requires
        one.len() == other.len(),
        forall|j: int| 0 <= j < one.len() ==> wanted(#[trigger] one[j]) == wanted(other[j]),
    ensures
        first_position(one, wanted) == first_position(other, wanted),
{
    lemma_first_position(one, wanted);
    let at = first_position(one, wanted);
    assert forall|j: int| 0 <= j < at implies !wanted(#[trigger] other[j]) by {
        assert(!wanted(one[j]));
    }
    lemma_first_position_is(other, wanted, at);
}

/// Storing a proposal keeps the proposals of every other height and round
/// as they are. For its own height and round, a proposal with a new key is
/// added at the end, and one with a known key leaves the number of
/// proposals as it is. Either way the proposal is then among those of its
/// height and round, all of which are of that height and round.
pub proof fn lemma_round_isolation(
    state: StoreState,
    proposal: ProposalView,
    height: Height,
    round: Round,
)
    requires
        state.undecided is Some,
    ensures
        ({
            let next = state.store_undecided_proposal(proposal).0;
            let known = state.proposal_at(proposal.key()) is Some;
            let own = next.proposals_at(proposal.height, proposal.round);
            &&& (height != proposal.height || round != proposal.round) ==> next.proposals_at(
                height,
                round,
            ) == state.proposals_at(height, round)
            &&& !known ==> own == state.proposals_at(proposal.height, proposal.round).push(
                proposal,
            )
            &&& known ==> own.len() == state.proposals_at(proposal.height, proposal.round).len()
            &&& own.contains(proposal)
            &&& forall|i: int|
                0 <= i < next.proposals_at(height, round).len() ==> (#[trigger] next.proposals_at(
                    height,
                    round,
                )[i]).height == height && next.proposals_at(height, round)[i].round == round
        }),
{
    let proposals = state.undecided->0;
    let next = state.store_undecided_proposal(proposal).0;
    let position = key_position(proposals, proposal.key());
    let pass = at_round(height, round);
    let own = at_round(proposal.height, proposal.round);
    lemma_first_position(proposals, with_key(proposal.key()));
    if position < proposals.len() {
        assert(with_key(proposal.key())(proposals[position]));
        assert(pass(proposals[position]) == pass(proposal));
        assert(own(proposals[position]) == own(proposal));
        lemma_filter_update(proposals, position, proposal, pass);
        lemma_filter_update(proposals, position, proposal, own);
    } else {
        proposals.lemma_filter_push(proposal, pass);
        proposals.lemma_filter_push(proposal, own);
        let added = proposals.filter(own).push(proposal);
        assert(added[added.len() - 1] == proposal);
    }
    let stored = next.undecided->0;
    assert forall|i: int| 0 <= i < stored.filter(pass).len() implies (#[trigger] stored.filter(
        pass,
    )[i]).height == height && stored.filter(pass)[i].round == round by {
        stored.lemma_filter_pred(pass, i);
    }
}

/// A lookup by key finds a proposal that has this key and is in the store,
/// or finds none where no proposal in the store has this key.
pub proof fn lemma_lookup_matches_key(state: StoreState, key: ProposalKey)
    requires
        state.undecided is Some,
    ensures
        match state.proposal_at(key) {
            Some(found) => found.key() == key && state.undecided->0.contains(found),
            None => forall|i: int|
                0 <= i < state.undecided->0.len() ==> (#[trigger] state.undecided->0[i]).key()
                    != key,
        },
{
    let proposals = state.undecided->0;
    lemma_first_position(proposals, with_key(key));
    let position = key_position(proposals, key);
    if position < proposals.len() {
        assert(with_key(key)(proposals[position]));
    } else {
        assert forall|i: int| 0 <= i < proposals.len() implies (#[trigger] proposals[i]).key()
            != key by {
            assert(!with_key(key)(proposals[i]));
        }
    }
}

/// After a proposal is stored, a lookup by its key gives this very
/// proposal, and a lookup by any other key gives what it gave before.
pub proof fn lemma_point_lookup(state: StoreState, proposal: ProposalView, key: ProposalKey)
    requires
        state.undecided is Some,
    ensures
        ({
            let next = state.store_undecided_proposal(proposal).0;
            &&& next.proposal_at(proposal.key()) == Some(proposal)
            &&& key != proposal.key() ==> next.proposal_at(key) == state.proposal_at(key)
            &&& next.decided == state.decided
        }),
{
    let proposals = state.undecided->0;
    let next = state.store_undecided_proposal(proposal).0;
    let stored = next.undecided->0;
    let own = with_key(proposal.key());
    let position = key_position(proposals, proposal.key());
    lemma_first_position(proposals, own);
    assert forall|j: int| 0 <= j < position implies !own(#[trigger] stored[j]) by {
        assert(stored[j] == proposals[j]);
        assert(!own(proposals[j]));
    }
    assert(own(stored[position]));
    lemma_first_position_is(stored, own, position);
    if key != proposal.key() {
        let other = with_key(key);
        lemma_first_position(proposals, other);
        let found = key_position(proposals, key);
        if position < proposals.len() {
            assert(own(proposals[position]));
            assert forall|j: int| 0 <= j < proposals.len() implies other(
                #[trigger] proposals[j],
            ) == other(stored[j]) by {}
            lemma_first_position_alike(proposals, stored, other);
        } else {
            assert forall|j: int| 0 <= j < found implies !other(#[trigger] stored[j]) by {
                assert(stored[j] == proposals[j]);
                assert(!other(proposals[j]));
            }
            if found < proposals.len() {
                assert(stored[found] == proposals[found]);
                lemma_first_position_is(stored, other, found);
            } else {
                assert(!other(stored[found]));
                assert forall|j: int| 0 <= j < stored.len() implies !other(
                    #[trigger] stored[j],
                ) by {
                    if j < found {
                        assert(!other(stored[j]));
                    }
                }
                lemma_first_position_is(stored, other, stored.len() as int);
            }
        }
    }
}

/// Storing a proposal never makes two proposals share a key.
pub proof fn lemma_keys_stay_unique(state: StoreState, proposal: ProposalView)
    requires
        state.wf(),
    ensures
        state.store_undecided_proposal(proposal).0.wf(),
        StoreState::uninitialized().wf(),
        state.with_tables().wf(),
{
    if state.undecided is Some {
        let proposals = state.undecided->0;
        let stored = state.store_undecided_proposal(proposal).0.undecided->0;
        let own = with_key(proposal.key());
        let position = key_position(proposals, proposal.key());
        lemma_first_position(proposals, own);
        assert forall|i: int, j: int| 0 <= i < j < stored.len() implies (#[trigger] stored[i]).key()
            != (#[trigger] stored[j]).key() by {
            if position < proposals.len() {
                assert(own(proposals[position]));
                assert(proposals[i].key() != proposals[j].key());
            } else {
                if j == proposals.len() {
                    assert(!own(proposals[i]));
                } else {
                    assert(proposals[i].key() != proposals[j].key());
                }
            }
        }
    }
}

} // verus!
