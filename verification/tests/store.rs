use reth_malachite::store::types::BackendFailure;
use reth_malachite::store::{
    CommitCertificate, ConsensusValue, DecidedValue, MemoryStore, ProposedValue, Round, Store,
    StoreError, StoreOps, StoreState, Table, ValueId,
};
use reth_malachite::store::types::{copy_bytes, same_bytes};
use reth_malachite::Height;

fn value(id: u64) -> ConsensusValue {
    ConsensusValue { id: ValueId(id), payload: vec![id as u8, 1, 2] }
}

fn certificate(height: u64, id: u64) -> CommitCertificate {
    CommitCertificate {
        height: Height(height),
        round: Round(0),
        value_id: ValueId(id),
        signatures: vec![9, 9],
    }
}

fn proposal(height: u64, round: u32, id: u64) -> ProposedValue {
    ProposedValue {
        height: Height(height),
        round: Round(round),
        valid_round: None,
        proposer: vec![7],
        value: value(id),
        valid: true,
    }
}

fn ready_store() -> Store {
    let mut backend = MemoryStore::new();
    backend.create_tables();
    Store::new(Box::new(backend))
}

#[test]
fn verify_tables_fails_until_the_tables_exist() {
    let fresh = Store::new(Box::new(MemoryStore::new()));
    assert_eq!(fresh.verify_tables(), Err(StoreError::MissingTable(Table::DecidedValues)));
    assert_eq!(ready_store().verify_tables(), Ok(()));
}

#[test]
fn a_store_without_tables_reports_the_missing_table() {
    let mut store = Store::new(Box::new(MemoryStore::new()));
    assert_eq!(store.max_decided_value_height(), None);
    assert_eq!(
        store.get_decided_value(Height(1)),
        Err(StoreError::MissingTable(Table::DecidedValues))
    );
    assert_eq!(
        store.store_decided_value(&certificate(1, 1), value(1)),
        Err(StoreError::MissingTable(Table::DecidedValues))
    );
    assert_eq!(
        store.get_undecided_proposals(Height(1), Round(0)),
        Err(StoreError::MissingTable(Table::UndecidedProposals))
    );
    assert_eq!(
        store.store_undecided_proposal(proposal(1, 0, 1)),
        Err(StoreError::MissingTable(Table::UndecidedProposals))
    );
    assert_eq!(
        store.get_undecided_proposal(Height(1), Round(0), ValueId(1)),
        Err(StoreError::MissingTable(Table::UndecidedProposals))
    );
}

#[test]
fn create_tables_keeps_what_is_stored() {
    let mut backend = MemoryStore::new();
    backend.create_tables();
    assert_eq!(backend.store_decided_value(&certificate(4, 1), value(1)), Ok(()));
    assert_eq!(backend.store_undecided_proposal(proposal(4, 0, 1)), Ok(()));
    backend.create_tables();
    assert_eq!(backend.verify_tables(), Ok(()));
    assert_eq!(backend.max_decided_value_height(), Some(Height(4)));
    assert_eq!(
        backend.get_undecided_proposal(Height(4), Round(0), ValueId(1)),
        Ok(Some(proposal(4, 0, 1)))
    );
}

#[test]
fn max_decided_value_height_is_the_greatest_height() {
    let mut store = ready_store();
    assert_eq!(store.max_decided_value_height(), None);
    assert_eq!(store.store_decided_value(&certificate(3, 30), value(30)), Ok(()));
    assert_eq!(store.max_decided_value_height(), Some(Height(3)));
    assert_eq!(store.store_decided_value(&certificate(1, 10), value(10)), Ok(()));
    assert_eq!(store.max_decided_value_height(), Some(Height(3)));
    assert_eq!(store.store_decided_value(&certificate(5, 50), value(50)), Ok(()));
    assert_eq!(store.max_decided_value_height(), Some(Height(5)));
}

#[test]
fn get_decided_value_returns_what_was_stored() {
    let mut store = ready_store();
    assert_eq!(store.get_decided_value(Height(2)), Ok(None));
    assert_eq!(store.store_decided_value(&certificate(2, 20), value(20)), Ok(()));
    assert_eq!(
        store.get_decided_value(Height(2)),
        Ok(Some(DecidedValue { value: value(20), certificate: certificate(2, 20) }))
    );
    assert_eq!(store.get_decided_value(Height(3)), Ok(None));
}

#[test]
fn storing_the_same_decided_value_again_changes_nothing() {
    let mut store = ready_store();
    assert_eq!(store.store_decided_value(&certificate(2, 20), value(20)), Ok(()));
    assert_eq!(store.store_decided_value(&certificate(2, 20), value(20)), Ok(()));
    assert_eq!(
        store.get_decided_value(Height(2)),
        Ok(Some(DecidedValue { value: value(20), certificate: certificate(2, 20) }))
    );
    assert_eq!(store.max_decided_value_height(), Some(Height(2)));
}

#[test]
fn storing_another_decided_value_for_a_height_fails() {
    let mut store = ready_store();
    assert_eq!(store.store_decided_value(&certificate(2, 20), value(20)), Ok(()));
    assert_eq!(
        store.store_decided_value(&certificate(2, 21), value(21)),
        Err(StoreError::ConflictingDecision(Height(2)))
    );
    let mut other_signatures = certificate(2, 20);
    other_signatures.signatures = vec![8];
    assert_eq!(
        store.store_decided_value(&other_signatures, value(20)),
        Err(StoreError::ConflictingDecision(Height(2)))
    );
    let mut other_payload = value(20);
    other_payload.payload = vec![];
    assert_eq!(
        store.store_decided_value(&certificate(2, 20), other_payload),
        Err(StoreError::ConflictingDecision(Height(2)))
    );
    assert_eq!(
        store.get_decided_value(Height(2)),
        Ok(Some(DecidedValue { value: value(20), certificate: certificate(2, 20) }))
    );
}

#[test]
fn proposals_of_different_rounds_are_kept_apart() {
    let mut store = ready_store();
    let a = proposal(10, 0, 0xa);
    let b = proposal(10, 1, 0xb);
    assert_eq!(store.store_undecided_proposal(a.clone()), Ok(()));
    assert_eq!(store.store_undecided_proposal(b.clone()), Ok(()));
    assert_eq!(store.get_undecided_proposals(Height(10), Round(0)), Ok(vec![a]));
    assert_eq!(store.get_undecided_proposals(Height(10), Round(1)), Ok(vec![b]));
    assert_eq!(store.get_undecided_proposals(Height(10), Round(2)), Ok(vec![]));
    assert_eq!(store.get_undecided_proposals(Height(11), Round(0)), Ok(vec![]));
}

#[test]
fn proposals_of_a_round_come_in_the_order_they_were_stored() {
    let mut store = ready_store();
    for id in [5u64, 3, 9] {
        assert_eq!(store.store_undecided_proposal(proposal(1, 0, id)), Ok(()));
    }
    assert_eq!(store.store_undecided_proposal(proposal(1, 1, 4)), Ok(()));
    assert_eq!(
        store.get_undecided_proposals(Height(1), Round(0)),
        Ok(vec![proposal(1, 0, 5), proposal(1, 0, 3), proposal(1, 0, 9)])
    );
}

#[test]
fn storing_a_proposal_again_replaces_it_in_place() {
    let mut store = ready_store();
    for id in [5u64, 3, 9] {
        assert_eq!(store.store_undecided_proposal(proposal(1, 0, id)), Ok(()));
    }
    assert_eq!(store.store_undecided_proposal(proposal(1, 0, 3)), Ok(()));
    assert_eq!(
        store.get_undecided_proposals(Height(1), Round(0)),
        Ok(vec![proposal(1, 0, 5), proposal(1, 0, 3), proposal(1, 0, 9)])
    );
    let mut changed = proposal(1, 0, 3);
    changed.valid = false;
    changed.valid_round = Some(Round(0));
    assert_eq!(store.store_undecided_proposal(changed.clone()), Ok(()));
    assert_eq!(
        store.get_undecided_proposals(Height(1), Round(0)),
        Ok(vec![proposal(1, 0, 5), changed.clone(), proposal(1, 0, 9)])
    );
    assert_eq!(store.get_undecided_proposal(Height(1), Round(0), ValueId(3)), Ok(Some(changed)));
}

#[test]
fn a_lookup_by_key_finds_the_proposal_or_nothing() {
    let mut store = ready_store();
    assert_eq!(store.store_undecided_proposal(proposal(10, 0, 1)), Ok(()));
    assert_eq!(store.store_undecided_proposal(proposal(10, 1, 2)), Ok(()));
    assert_eq!(
        store.get_undecided_proposal(Height(10), Round(0), ValueId(1)),
        Ok(Some(proposal(10, 0, 1)))
    );
    assert_eq!(
        store.get_undecided_proposal(Height(10), Round(1), ValueId(2)),
        Ok(Some(proposal(10, 1, 2)))
    );
    assert_eq!(store.get_undecided_proposal(Height(10), Round(0), ValueId(2)), Ok(None));
    assert_eq!(store.get_undecided_proposal(Height(10), Round(1), ValueId(1)), Ok(None));
    assert_eq!(store.get_undecided_proposal(Height(11), Round(0), ValueId(1)), Ok(None));
}

#[test]
fn decided_values_and_proposals_do_not_touch_each_other() {
    let mut store = ready_store();
    assert_eq!(store.store_undecided_proposal(proposal(3, 0, 1)), Ok(()));
    assert_eq!(store.get_decided_value(Height(3)), Ok(None));
    assert_eq!(store.max_decided_value_height(), None);
    assert_eq!(store.store_decided_value(&certificate(3, 1), value(1)), Ok(()));
    assert_eq!(store.get_undecided_proposals(Height(3), Round(0)), Ok(vec![proposal(3, 0, 1)]));
}

#[test]
fn same_bytes_compares_what_is_held() {
    assert!(same_bytes(&vec![], &vec![]));
    assert!(same_bytes(&vec![1, 2, 3], &vec![1, 2, 3]));
    assert!(!same_bytes(&vec![1, 2, 3], &vec![1, 2]));
    assert!(!same_bytes(&vec![1, 2, 3], &vec![1, 2, 4]));
    assert!(!same_bytes(&vec![0, 2, 3], &vec![1, 2, 3]));
}

#[test]
fn copies_hold_what_was_copied() {
    assert_eq!(copy_bytes(&vec![4, 5, 6]), vec![4, 5, 6]);
    assert_eq!(value(3).clone(), value(3));
    assert_eq!(certificate(3, 4).clone(), certificate(3, 4));
    assert_eq!(proposal(1, 2, 3).clone(), proposal(1, 2, 3));
    let decided = DecidedValue { value: value(1), certificate: certificate(1, 1) };
    assert_eq!(decided.clone(), decided);
}

#[test]
fn values_and_certificates_are_told_apart() {
    assert!(value(1).same(&value(1)));
    assert!(!value(1).same(&value(2)));
    let mut other = value(1);
    other.payload.push(0);
    assert!(!value(1).same(&other));
    assert!(certificate(1, 1).same(&certificate(1, 1)));
    assert!(!certificate(1, 1).same(&certificate(2, 1)));
    assert!(!certificate(1, 1).same(&certificate(1, 2)));
    let mut other = certificate(1, 1);
    other.round = Round(1);
    assert!(!certificate(1, 1).same(&other));
    let mut other = certificate(1, 1);
    other.signatures = vec![];
    assert!(!certificate(1, 1).same(&other));
}

#[test]
fn the_backend_can_be_used_without_the_handle() {
    let mut backend = MemoryStore::new();
    assert_eq!(backend.verify_tables(), Err(StoreError::MissingTable(Table::DecidedValues)));
    backend.create_tables();
    assert_eq!(backend.store_decided_value(&certificate(9, 1), value(1)), Ok(()));
    assert_eq!(backend.store_decided_value(&certificate(2, 2), value(2)), Ok(()));
    assert_eq!(backend.max_decided_value_height(), Some(Height(9)));
    assert_eq!(backend.get_undecided_proposals(Height(9), Round(0)), Ok(vec![]));
}

struct Unreachable;

impl StoreOps for Unreachable {
    fn state(&self) -> StoreState {
        StoreState { decided: None, undecided: None }
    }

    fn max_decided_value_height(&self) -> Option<Height> {
        None
    }

    fn get_decided_value(&self, _height: Height) -> Result<Option<DecidedValue>, StoreError> {
        Err(StoreError::Backend(BackendFailure::Corrupted))
    }

    fn store_decided_value(
        &mut self,
        _certificate: &CommitCertificate,
        _value: ConsensusValue,
    ) -> Result<(), StoreError> {
        Err(StoreError::Backend(BackendFailure::TransactionFailed))
    }

    fn get_undecided_proposals(
        &self,
        _height: Height,
        _round: Round,
    ) -> Result<Vec<ProposedValue>, StoreError> {
        Err(StoreError::Backend(BackendFailure::Unreachable))
    }

    fn store_undecided_proposal(&mut self, _proposal: ProposedValue) -> Result<(), StoreError> {
        Err(StoreError::Backend(BackendFailure::TransactionFailed))
    }

    fn get_undecided_proposal(
        &self,
        _height: Height,
        _round: Round,
        _value_id: ValueId,
    ) -> Result<Option<ProposedValue>, StoreError> {
        Err(StoreError::Backend(BackendFailure::Unreachable))
    }

    fn verify_tables(&self) -> Result<(), StoreError> {
        Err(StoreError::Backend(BackendFailure::Unreachable))
    }
}

#[test]
fn the_handle_passes_on_a_failure_of_the_backend() {
    let mut store = Store::new(Box::new(Unreachable));
    assert_eq!(store.max_decided_value_height(), None);
    assert_eq!(
        store.get_decided_value(Height(1)),
        Err(StoreError::Backend(BackendFailure::Corrupted))
    );
    assert_eq!(
        store.store_decided_value(&certificate(1, 1), value(1)),
        Err(StoreError::Backend(BackendFailure::TransactionFailed))
    );
    assert_eq!(
        store.get_undecided_proposals(Height(1), Round(0)),
        Err(StoreError::Backend(BackendFailure::Unreachable))
    );
    assert_eq!(
        store.store_undecided_proposal(proposal(1, 0, 1)),
        Err(StoreError::Backend(BackendFailure::TransactionFailed))
    );
    assert_eq!(
        store.get_undecided_proposal(Height(1), Round(0), ValueId(1)),
        Err(StoreError::Backend(BackendFailure::Unreachable))
    );
    assert_eq!(store.verify_tables(), Err(StoreError::Backend(BackendFailure::Unreachable)));
}

#[test]
fn a_store_is_opened_on_a_storage_with_tables_only() {
    let fresh = Store::open(Box::new(MemoryStore::new()));
    assert!(matches!(fresh, Err(StoreError::MissingTable(Table::DecidedValues))));
    let mut backend = MemoryStore::new();
    backend.create_tables();
    assert_eq!(backend.store_decided_value(&certificate(6, 1), value(1)), Ok(()));
    let store = Store::open(Box::new(backend)).ok().unwrap();
    assert_eq!(store.max_decided_value_height(), Some(Height(6)));
    assert_eq!(store.verify_tables(), Ok(()));
    let failing = Store::open(Box::new(Unreachable));
    assert!(matches!(failing, Err(StoreError::Backend(BackendFailure::Unreachable))));
}

#[test]
fn the_greatest_height_never_falls() {
    let mut store = ready_store();
    let mut greatest = None;
    for height in [4u64, 2, 4, 9, 1, 9, 3] {
        assert_eq!(store.store_decided_value(&certificate(height, height), value(height)), Ok(()));
        let now = store.max_decided_value_height();
        assert!(now >= greatest);
        assert_eq!(now, std::cmp::max(greatest, Some(Height(height))));
        greatest = now;
    }
    assert_eq!(greatest, Some(Height(9)));
}
