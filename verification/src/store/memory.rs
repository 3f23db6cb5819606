//! A backend of the store that keeps everything in memory.

use crate::height::Height;
use crate::store::model::{
    at_round, decided_outcome, decision_views, first_position, key_position, keys_unique,
    lemma_first_position, proposal_outcome, proposals_outcome,
    lemma_first_position_is, lemma_first_position_push, of_height, proposal_views, with_key,
    StoreState,
};
use crate::store::types::{
    CommitCertificate, ConsensusValue, DecidedValue, DecisionView, ProposalKey, ProposalView,
    ProposedValue, Round, StoreError, Table, ValueId,
};
use crate::store::laws::lemma_keys_stay_unique;
use crate::store::wrapper::StoreOps;
use vstd::prelude::*;

verus! {

/// The decided value of each height in `decisions`: the first one that
/// stands there for the height.
pub open spec fn decisions_map(decisions: Seq<DecisionView>) -> Map<Height, DecisionView>
    decreases decisions.len(),
{
    if decisions.len() == 0 {
        Map::empty()
    } else {
        let earlier = decisions_map(decisions.drop_last());
        let last = decisions.last();
        if earlier.contains_key(last.certificate.height) {
            earlier
        } else {
            earlier.insert(last.certificate.height, last)
        }
    }
}

/// A height is in the map exactly if a decision has it, and the map gives
/// the first decision that has it.
pub proof fn lemma_decisions_map(decisions: Seq<DecisionView>, height: Height)
    ensures
        decisions_map(decisions).contains_key(height) <==> first_position(
            decisions,
            of_height(height),
        ) < decisions.len(),
        decisions_map(decisions).contains_key(height) ==> decisions_map(decisions)[height]
            == decisions[first_position(decisions, of_height(height))],
    decreases decisions.len(),
{
    if decisions.len() > 0 {
        let earlier = decisions.drop_last();
        lemma_decisions_map(earlier, height);
        assert(decisions == earlier.push(decisions.last()));
        lemma_first_position_push(earlier, decisions.last(), of_height(height));
        let at = first_position(earlier, of_height(height));
        if at < earlier.len() {
            assert(decisions[at] == earlier[at]);
        }
    }
}

/// Whether `max` is a height, and one that is not below `height`.
pub open spec fn reaches(max: Option<Height>, height: Height) -> bool {
    max matches Some(best) && height.0 <= best.0
}

/// Whether no two of `decisions` are of the same height.
pub open spec fn heights_unique(decisions: Seq<DecisionView>) -> bool {
    forall|i: int, j: int|
        0 <= i < j < decisions.len() ==> (#[trigger] decisions[i]).certificate.height != (
        #[trigger] decisions[j]).certificate.height
}

/// A store in memory. It starts without tables, as a fresh database does,
/// and `create_tables` gives it the tables that the store needs. It never
/// fails as a backend: every operation does what `StoreState` says of it.
pub struct MemoryStore {
    decided: Option<Vec<DecidedValue>>,
    undecided: Option<Vec<ProposedValue>>,
}

impl MemoryStore {
    /// No height has two decided values, and no key has two proposals.
    #[verifier::type_invariant]
    spec fn inv(self) -> bool {
        &&& self.decided matches Some(decisions) ==> heights_unique(decision_views(decisions@))
        &&& self.undecided matches Some(proposals) ==> keys_unique(proposal_views(proposals@))
    }

    /// A store without tables.
    pub fn new() -> (store: MemoryStore)
        ensures
            store.state() == StoreState::uninitialized(),
            store.state().wf(),
    {
        MemoryStore { decided: None, undecided: None }
    }

    /// Creates the tables that are missing, empty. What the store holds
    /// stays.
    pub fn create_tables(&mut self)
        ensures
            final(self).state() == old(self).state().with_tables(),
            final(self).state().wf(),
    {
        proof {
            use_type_invariant(&*self);
        }
        if self.decided.is_none() {
            let decisions: Vec<DecidedValue> = Vec::new();
            assert(decision_views(decisions@) == Seq::<DecisionView>::empty());
            assert(decisions_map(decision_views(decisions@)) == Map::<
                Height,
                DecisionView,
            >::empty());
            self.decided = Some(decisions);
        }
        if self.undecided.is_none() {
            let proposals: Vec<ProposedValue> = Vec::new();
            assert(proposal_views(proposals@) == Seq::<ProposalView>::empty());
            self.undecided = Some(proposals);
        }
    }
}

/// The position of the first decision of height `height` in `decisions`, or
/// their number when there is none.
fn find_height(decisions: &Vec<DecidedValue>, height: Height) -> (at: usize)
    ensures
        at == first_position(decision_views(decisions@), of_height(height)),
        at <= decisions.len(),
{
    let ghost views = decision_views(decisions@);
    let mut i: usize = 0;
    while i < decisions.len()
        invariant
            i <= decisions.len(),
            views == decision_views(decisions@),
            forall|j: int| 0 <= j < i ==> !of_height(height)(#[trigger] views[j]),
        decreases decisions.len() - i,
    {
        if decisions[i].certificate.height == height {
            proof {
                lemma_first_position_is(views, of_height(height), i as int);
            }
            return i;
        }
        i = i + 1;
    }
    proof {
        lemma_first_position_is(views, of_height(height), i as int);
    }
    i
}

/// The position of the first proposal with the given key in `proposals`, or
/// their number when there is none.
fn find_key(proposals: &Vec<ProposedValue>, height: Height, round: Round, value_id: ValueId) -> (at:
    usize)
    ensures
        at == key_position(proposal_views(proposals@), ProposalKey { height, round, value_id }),
        at <= proposals.len(),
{
    let ghost views = proposal_views(proposals@);
    let ghost key = ProposalKey { height, round, value_id };
    let mut i: usize = 0;
    while i < proposals.len()
        invariant
            i <= proposals.len(),
            views == proposal_views(proposals@),
            key == (ProposalKey { height, round, value_id }),
            forall|j: int| 0 <= j < i ==> !with_key(key)(#[trigger] views[j]),
        decreases proposals.len() - i,
    {
        let proposal = &proposals[i];
        if proposal.height == height && proposal.round == round && proposal.value.id == value_id {
            proof {
                lemma_first_position_is(views, with_key(key), i as int);
            }
            return i;
        }
        i = i + 1;
    }
    proof {
        lemma_first_position_is(views, with_key(key), i as int);
    }
    i
}

impl StoreOps for MemoryStore {
    closed spec fn state(&self) -> StoreState {
        StoreState {
            decided: match self.decided {
                Some(decisions) => Some(decisions_map(decision_views(decisions@))),
                None => None,
            },
            undecided: match self.undecided {
                Some(proposals) => Some(proposal_views(proposals@)),
                None => None,
            },
        }
    }

    fn max_decided_value_height(&self) -> (max: Option<Height>)
        ensures
            self.state().is_max_decided_height(max),
    {
        proof {
            use_type_invariant(self);
        }
        let decisions = match &self.decided {
            Some(decisions) => decisions,
            None => { return None; },
        };
        let ghost views = decision_views(decisions@);
        let mut max: Option<Height> = None;
        let mut i: usize = 0;
        while i < decisions.len()
            invariant
                i <= decisions.len(),
                views == decision_views(decisions@),
                max is None <==> i == 0,
                forall|j: int| 0 <= j < i ==> reaches(max, (#[trigger] views[j]).certificate.height),
                max is Some ==> exists|j: int|
                    0 <= j < i && (#[trigger] views[j]).certificate.height == max->0,
            decreases decisions.len() - i,
        {
            let height = decisions[i].certificate.height;
            let ghost previous = max;
            let higher = match max {
                Some(best) => height.0 > best.0,
                None => true,
            };
            if higher {
                max = Some(height);
                assert(views[i as int].certificate.height == max->0);
            } else {
                let ghost witness = choose|j: int|
                    0 <= j < i && (#[trigger] views[j]).certificate.height == previous->0;
                assert(views[witness].certificate.height == max->0);
            }
            i = i + 1;
        }
        proof {
            let state = self.state();
            assert forall|other: Height| #[trigger] state.decided_at(other) is Some implies reaches(max, other) by {
                lemma_decisions_map(views, other);
                lemma_first_position(views, of_height(other));
                let at = first_position(views, of_height(other));
                assert(of_height(other)(views[at]));
            }
            if max is Some {
                let witness = choose|j: int|
                    0 <= j < i && (#[trigger] views[j]).certificate.height == max->0;
                lemma_decisions_map(views, max->0);
                lemma_first_position(views, of_height(max->0));
                if first_position(views, of_height(max->0)) >= views.len() {
                    assert(!of_height(max->0)(views[witness]));
                }
            }
        }
        max
    }

    fn get_decided_value(&self, height: Height) -> (r: Result<Option<DecidedValue>, StoreError>)
        ensures
            decided_outcome(r) == self.state().get_decided_value(height),
    {
        proof {
            use_type_invariant(self);
        }
        let decisions = match &self.decided {
            Some(decisions) => decisions,
            None => { return Err(StoreError::MissingTable(Table::DecidedValues)); },
        };
        let at = find_height(decisions, height);
        proof {
            lemma_decisions_map(decision_views(decisions@), height);
        }
        if at < decisions.len() {
            Ok(Some(decisions[at].clone()))
        } else {
            Ok(None)
        }
    }

    fn store_decided_value(&mut self, certificate: &CommitCertificate, value: ConsensusValue) -> (r:
        Result<(), StoreError>)
        ensures
            (final(self).state(), r) == old(self).state().store_decided_value(
                certificate@,
                value@,
            ),
    {
        proof {
            use_type_invariant(&*self);
        }
        let height = certificate.height;
        let mut taken: Option<Vec<DecidedValue>> = None;
        std::mem::swap(&mut self.decided, &mut taken);
        let mut decisions = match taken {
            Some(decisions) => decisions,
            None => { return Err(StoreError::MissingTable(Table::DecidedValues)); },
        };
        let ghost before = decision_views(decisions@);
        let at = find_height(&decisions, height);
        proof {
            lemma_decisions_map(before, height);
            lemma_first_position(before, of_height(height));
        }
        let r = if at < decisions.len() {
            let present = &decisions[at];
            if present.certificate.same(certificate) && present.value.same(&value) {
                Ok(())
            } else {
                Err(StoreError::ConflictingDecision(height))
            }
        } else {
            let decision = DecidedValue { value, certificate: certificate.clone() };
            decisions.push(decision);
            proof {
                let after = decision_views(decisions@);
                assert(after == before.push(decision@));
                assert(after.drop_last() == before);
                assert forall|i: int, j: int| 0 <= i < j < after.len() implies (
                #[trigger] after[i]).certificate.height != (
                #[trigger] after[j]).certificate.height by {
                    if j == before.len() {
                        assert(!of_height(height)(before[i]));
                    } else {
                        assert(before[i].certificate.height != before[j].certificate.height);
                    }
                }
            }
            Ok(())
        };
        self.decided = Some(decisions);
        r
    }

    fn get_undecided_proposals(&self, height: Height, round: Round) -> (r: Result<
        Vec<ProposedValue>,
        StoreError,
    >)
        ensures
            proposals_outcome(r) == self.state().get_undecided_proposals(height, round),
    {
        proof {
            use_type_invariant(self);
        }
        let proposals = match &self.undecided {
            Some(proposals) => proposals,
            None => { return Err(StoreError::MissingTable(Table::UndecidedProposals)); },
        };
        let ghost views = proposal_views(proposals@);
        let mut found: Vec<ProposedValue> = Vec::new();
        let mut i: usize = 0;
        assert(views.take(0) == Seq::<ProposalView>::empty());
        assert(proposal_views(found@) == Seq::<ProposalView>::empty());
        assert(views.take(0).filter(at_round(height, round)) == Seq::<ProposalView>::empty()) by {
            views.take(0).lemma_filter_len(at_round(height, round));
        }
        while i < proposals.len()
            invariant
                i <= proposals.len(),
                views == proposal_views(proposals@),
                proposal_views(found@) == views.take(i as int).filter(at_round(height, round)),
            decreases proposals.len() - i,
        {
            let proposal = &proposals[i];
            proof {
                assert(views.take(i + 1) == views.take(i as int).push(views[i as int]));
                views.take(i as int).lemma_filter_push(views[i as int], at_round(height, round));
            }
            if proposal.height == height && proposal.round == round {
                let ghost before = found@;
                found.push(proposal.clone());
                assert(proposal_views(found@) == proposal_views(before).push(views[i as int]));
            }
            i = i + 1;
        }
        assert(views.take(proposals.len() as int) == views);
        Ok(found)
    }

    fn store_undecided_proposal(&mut self, proposal: ProposedValue) -> (r: Result<(), StoreError>)
        ensures
            (final(self).state(), r) == old(self).state().store_undecided_proposal(proposal@),
    {
        proof {
            use_type_invariant(&*self);
        }
        let ghost start = self.state();
        let mut taken: Option<Vec<ProposedValue>> = None;
        std::mem::swap(&mut self.undecided, &mut taken);
        let mut proposals = match taken {
            Some(proposals) => proposals,
            None => { return Err(StoreError::MissingTable(Table::UndecidedProposals)); },
        };
        let ghost before = proposal_views(proposals@);
        let at = find_key(&proposals, proposal.height, proposal.round, proposal.value.id);
        if at < proposals.len() {
            proposals.set(at, proposal);
            assert(proposal_views(proposals@) == before.update(at as int, proposal@));
        } else {
            proposals.push(proposal);
            assert(proposal_views(proposals@) == before.push(proposal@));
        }
        proof {
            lemma_keys_stay_unique(start, proposal@);
        }
        self.undecided = Some(proposals);
        Ok(())
    }

    fn get_undecided_proposal(&self, height: Height, round: Round, value_id: ValueId) -> (r:
        Result<Option<ProposedValue>, StoreError>)
        ensures
            proposal_outcome(r) == self.state().get_undecided_proposal(
                ProposalKey { height, round, value_id },
            ),
    {
        proof {
            use_type_invariant(self);
        }
        let proposals = match &self.undecided {
            Some(proposals) => proposals,
            None => { return Err(StoreError::MissingTable(Table::UndecidedProposals)); },
        };
        let at = find_key(proposals, height, round, value_id);
        if at < proposals.len() {
            Ok(Some(proposals[at].clone()))
        } else {
            Ok(None)
        }
    }

    fn verify_tables(&self) -> (r: Result<(), StoreError>)
        ensures
            r == self.state().verify_tables(),
    {
        proof {
            use_type_invariant(self);
        }
        if self.decided.is_none() {
            Err(StoreError::MissingTable(Table::DecidedValues))
        } else if self.undecided.is_none() {
            Err(StoreError::MissingTable(Table::UndecidedProposals))
        } else {
            Ok(())
        }
    }
}

} // verus!
