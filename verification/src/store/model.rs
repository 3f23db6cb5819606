//! What the store holds, as a mathematical value, and what each of its
//! operations does to it.

use crate::height::Height;
use crate::store::types::{
    CertificateView, ConsensusValueView, DecidedValue, DecisionView, ProposalKey, ProposalView,
    ProposedValue, Round, StoreError, Table,
};
use vstd::prelude::*;

verus! {

/// The contents of a store. A table that the storage lacks is `None`.
pub struct StoreState {
    /// The decided value of each height that has one.
    pub decided: Option<Map<Height, DecisionView>>,
    /// The undecided proposals, in the order in which their keys were first
    /// stored.
    pub undecided: Option<Seq<ProposalView>>,
}

/// The position of the first of `items` that is `wanted`, or the length of
/// `items` when none is.
pub open spec fn first_position<T>(items: Seq<T>, wanted: spec_fn(T) -> bool) -> int
    decreases items.len(),
{
    if items.len() == 0 || wanted(items.first()) {
        0
    } else {
        1 + first_position(items.drop_first(), wanted)
    }
}

/// The test that a decision is one of height `height`.
pub open spec fn of_height(height: Height) -> spec_fn(DecisionView) -> bool {
    |decision: DecisionView| decision.certificate.height == height
}

/// The test that a proposal has the key `key`.
pub open spec fn with_key(key: ProposalKey) -> spec_fn(ProposalView) -> bool {
    |proposal: ProposalView| proposal.key() == key
}

/// The position of the first of `proposals` that has the key `key`, or the
/// length of `proposals` when none has it.
pub open spec fn key_position(proposals: Seq<ProposalView>, key: ProposalKey) -> int {
    first_position(proposals, with_key(key))
}

/// Whether no two of `proposals` have the same key.
pub open spec fn keys_unique(proposals: Seq<ProposalView>) -> bool {
    forall|i: int, j: int|
        0 <= i < j < proposals.len() ==> (#[trigger] proposals[i]).key() != (
        #[trigger] proposals[j]).key()
}

/// The test that a proposal is one of height `height` and round `round`.
pub open spec fn at_round(height: Height, round: Round) -> spec_fn(ProposalView) -> bool {
    |proposal: ProposalView| proposal.height == height && proposal.round == round
}

impl StoreState {
    /// A storage in which no table was created yet.
    pub open spec fn uninitialized() -> StoreState {
        StoreState { decided: None, undecided: None }
    }

    /// The same contents after the tables that were missing have been
    /// created, empty.
    pub open spec fn with_tables(self) -> StoreState {
        StoreState {
            decided: Some(
                match self.decided {
                    Some(decided) => decided,
                    None => Map::empty(),
                },
            ),
            undecided: Some(
                match self.undecided {
                    Some(undecided) => undecided,
                    None => Seq::empty(),
                },
            ),
        }
    }

    /// Whether the undecided proposals have a key each.
    pub open spec fn wf(self) -> bool {
        self.undecided matches Some(proposals) ==> keys_unique(proposals)
    }

    /// The outcome of the table check: the first table that is missing, if
    /// one is.
    pub open spec fn verify_tables(self) -> Result<(), StoreError> {
        if self.decided is None {
            Err(StoreError::MissingTable(Table::DecidedValues))
        } else if self.undecided is None {
            Err(StoreError::MissingTable(Table::UndecidedProposals))
        } else {
            Ok(())
        }
    }

    /// The decided value of `height`, if it has one.
    pub open spec fn decided_at(self, height: Height) -> Option<DecisionView> {
        if self.decided is Some && self.decided->0.contains_key(height) {
            Some(self.decided->0[height])
        } else {
            None
        }
    }

    /// Whether `max` is the greatest height that has a decided value, or
    /// `None` while no height has one.
    pub open spec fn is_max_decided_height(self, max: Option<Height>) -> bool {
        match max {
            Some(height) => {
                &&& self.decided_at(height) is Some
                &&& forall|other: Height| #[trigger]
                    self.decided_at(other) is Some ==> other.0 <= height.0
            },
            None => forall|other: Height| #[trigger] self.decided_at(other) is None,
        }
    }

    /// What looking up the decided value of `height` gives.
    pub open spec fn get_decided_value(self, height: Height) -> Result<
        Option<DecisionView>,
        StoreError,
    > {
        if self.decided is None {
            Err(StoreError::MissingTable(Table::DecidedValues))
        } else {
            Ok(self.decided_at(height))
        }
    }

    /// What storing `value` with `certificate` as the decided value of the
    /// certificate's height gives, and the contents afterwards. A height
    /// without a decided value gets this one. A height that has this very
    /// one keeps it. A height that has another one keeps that, and the
    /// store reports the conflict.
    pub open spec fn store_decided_value(
        self,
        certificate: CertificateView,
        value: ConsensusValueView,
    ) -> (StoreState, Result<(), StoreError>) {
        let decision = DecisionView { value, certificate };
        let height = certificate.height;
        match self.decided {
            None => (self, Err(StoreError::MissingTable(Table::DecidedValues))),
            Some(decided) => if !decided.contains_key(height) {
                (StoreState { decided: Some(decided.insert(height, decision)), ..self }, Ok(()))
            } else if decided[height] == decision {
                (self, Ok(()))
            } else {
                (self, Err(StoreError::ConflictingDecision(height)))
            },
        }
    }

    /// The proposals of `height` and `round`, in the order in which they
    /// were stored. Gives the empty sequence while the table is missing.
    pub open spec fn proposals_at(self, height: Height, round: Round) -> Seq<ProposalView> {
        match self.undecided {
            Some(proposals) => proposals.filter(at_round(height, round)),
            None => Seq::empty(),
        }
    }

    /// What looking up the proposals of `height` and `round` gives.
    pub open spec fn get_undecided_proposals(self, height: Height, round: Round) -> Result<
        Seq<ProposalView>,
        StoreError,
    > {
        if self.undecided is None {
            Err(StoreError::MissingTable(Table::UndecidedProposals))
        } else {
            Ok(self.proposals_at(height, round))
        }
    }

    /// The proposal with the key `key`, if the store has one.
    pub open spec fn proposal_at(self, key: ProposalKey) -> Option<ProposalView> {
        match self.undecided {
            Some(proposals) => {
                let position = key_position(proposals, key);
                if position < proposals.len() {
                    Some(proposals[position])
                } else {
                    None
                }
            },
            None => None,
        }
    }

    /// What looking up the proposal with the key `key` gives.
    pub open spec fn get_undecided_proposal(self, key: ProposalKey) -> Result<
        Option<ProposalView>,
        StoreError,
    > {
        if self.undecided is None {
            Err(StoreError::MissingTable(Table::UndecidedProposals))
        } else {
            Ok(self.proposal_at(key))
        }
    }

    /// What storing `proposal` gives, and the contents afterwards. A
    /// proposal with a new key goes to the end. A proposal whose key the
    /// store has takes the place of the one that had it.
    pub open spec fn store_undecided_proposal(self, proposal: ProposalView) -> (
        StoreState,
        Result<(), StoreError>,
    ) {
        match self.undecided {
            None => (self, Err(StoreError::MissingTable(Table::UndecidedProposals))),
            Some(proposals) => {
                let position = key_position(proposals, proposal.key());
                let stored = if position < proposals.len() {
                    proposals.update(position, proposal)
                } else {
                    proposals.push(proposal)
                };
                (StoreState { undecided: Some(stored), ..self }, Ok(()))
            },
        }
    }
}

/// Whether `r` reports that the backend failed.
pub open spec fn backend_failed<T>(r: Result<T, StoreError>) -> bool {
    r matches Err(StoreError::Backend(_))
}

/// The view of each of `decisions`.
pub open spec fn decision_views(decisions: Seq<DecidedValue>) -> Seq<DecisionView> {
    decisions.map_values(|decision: DecidedValue| decision@)
}

/// The view of each of `proposals`.
pub open spec fn proposal_views(proposals: Seq<ProposedValue>) -> Seq<ProposalView> {
    proposals.map_values(|proposal: ProposedValue| proposal@)
}

/// What a lookup of a decided value returned, over views.
pub open spec fn decided_outcome(r: Result<Option<DecidedValue>, StoreError>) -> Result<
    Option<DecisionView>,
    StoreError,
> {
    match r {
        Ok(Some(decision)) => Ok(Some(decision@)),
        Ok(None) => Ok(None),
        Err(error) => Err(error),
    }
}

/// What a lookup of one proposal returned, over views.
pub open spec fn proposal_outcome(r: Result<Option<ProposedValue>, StoreError>) -> Result<
    Option<ProposalView>,
    StoreError,
> {
    match r {
        Ok(Some(proposal)) => Ok(Some(proposal@)),
        Ok(None) => Ok(None),
        Err(error) => Err(error),
    }
}

/// What a lookup of the proposals of a round returned, over views.
pub open spec fn proposals_outcome(r: Result<Vec<ProposedValue>, StoreError>) -> Result<
    Seq<ProposalView>,
    StoreError,
> {
    match r {
        Ok(proposals) => Ok(proposal_views(proposals@)),
        Err(error) => Err(error),
    }
}

/// `first_position` by what it finds: a position within `items` is the
/// first one that is wanted, and the length says that none is.
pub proof fn lemma_first_position<T>(items: Seq<T>, wanted: spec_fn(T) -> bool)
    ensures
        0 <= first_position(items, wanted) <= items.len(),
        forall|j: int| 0 <= j < first_position(items, wanted) ==> !wanted(#[trigger] items[j]),
        first_position(items, wanted) < items.len() ==> wanted(
            items[first_position(items, wanted)],
        ),
    decreases items.len(),
{
    if items.len() == 0 || wanted(items.first()) {
    } else {
        let rest = items.drop_first();
        lemma_first_position(rest, wanted);
        assert forall|j: int| 0 <= j < first_position(items, wanted) implies !wanted(
            #[trigger] items[j],
        ) by {
            if j > 0 {
                assert(items[j] == rest[j - 1]);
            }
        }
    }
}

/// A position before which nothing is wanted, and which is wanted itself or
/// is the length, is the first position.
pub proof fn lemma_first_position_is<T>(items: Seq<T>, wanted: spec_fn(T) -> bool, at: int)
    requires
        0 <= at <= items.len(),
        forall|j: int| 0 <= j < at ==> !wanted(#[trigger] items[j]),
        at < items.len() ==> wanted(items[at]),
    ensures
        first_position(items, wanted) == at,
{
    lemma_first_position(items, wanted);
    let found = first_position(items, wanted);
    if found < at {
        assert(!wanted(items[found]));
    }
}

/// Where the first wanted item is after one more item was added at the
/// end: where it was, or else at the new item if that is wanted.
pub proof fn lemma_first_position_push<T>(items: Seq<T>, item: T, wanted: spec_fn(T) -> bool)
    ensures
        first_position(items.push(item), wanted) == if first_position(items, wanted)
            < items.len() || wanted(item) {
            first_position(items, wanted)
        } else {
            (items.len() + 1) as int
        },
        0 <= first_position(items, wanted) <= items.len(),
{
    let longer = items.push(item);
    let before = first_position(items, wanted);
    lemma_first_position(items, wanted);
    assert forall|j: int| 0 <= j < before implies !wanted(#[trigger] longer[j]) by {
        assert(longer[j] == items[j]);
    }
    if before < items.len() {
        assert(longer[before] == items[before]);
        lemma_first_position_is(longer, wanted, before);
    } else if wanted(item) {
        lemma_first_position_is(longer, wanted, before);
    } else {
        lemma_first_position_is(longer, wanted, longer.len() as int);
    }
}

} // verus!
