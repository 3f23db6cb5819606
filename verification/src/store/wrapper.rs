//! The store as its users see it: one handle type over any backend.

use crate::height::Height;
use crate::store::model::{
    backend_failed, decided_outcome, proposal_outcome, proposals_outcome, StoreState,
};
use crate::store::types::{
    CommitCertificate, ConsensusValue, DecidedValue, ProposalKey, ProposedValue, Round,
    StoreError, ValueId,
};
use vstd::prelude::*;

verus! {

/// What a backend of the store can do. An operation that returns a
/// `Result` either fails because the backend failed, and then leaves what
/// the backend holds as it was, or does what `StoreState` says of it. The
/// greatest decided height has no error to return and is always owed. What
/// a backend holds is well-formed at all times: no two proposals have the
/// same key.
pub trait StoreOps: Send + Sync {
    /// What the backend holds.
    spec fn state(&self) -> StoreState;

    /// The greatest height that has a decided value, or `None` while no
    /// height has one.
    fn max_decided_value_height(&self) -> (max: Option<Height>)
        ensures
            self.state().is_max_decided_height(max),
            self.state().wf(),
    ;

    /// The decided value of `height`.
    fn get_decided_value(&self, height: Height) -> (r: Result<Option<DecidedValue>, StoreError>)
        ensures
            backend_failed(r) || decided_outcome(r) == self.state().get_decided_value(height),
            self.state().wf(),
    ;

    /// Stores `value` as the decided value of the height of `certificate`.
    fn store_decided_value(&mut self, certificate: &CommitCertificate, value: ConsensusValue) -> (r:
        Result<(), StoreError>)
        ensures
            (backend_failed(r) && final(self).state() == old(self).state()) || (
            final(self).state(),
            r,
        ) == old(self).state().store_decided_value(certificate@, value@),
            final(self).state().wf(),
    ;

    /// The proposals of `height` and `round`.
    fn get_undecided_proposals(&self, height: Height, round: Round) -> (r: Result<
        Vec<ProposedValue>,
        StoreError,
    >)
        ensures
            backend_failed(r) || proposals_outcome(r) == self.state().get_undecided_proposals(
                height,
                round,
            ),
            self.state().wf(),
    ;

    /// Stores `proposal` under its key.
    fn store_undecided_proposal(&mut self, proposal: ProposedValue) -> (r: Result<(), StoreError>)
        ensures
            (backend_failed(r) && final(self).state() == old(self).state()) || (
            final(self).state(),
            r,
        ) == old(self).state().store_undecided_proposal(proposal@),
            final(self).state().wf(),
    ;

    /// The proposal of `height` and `round` for the value `value_id`.
    fn get_undecided_proposal(&self, height: Height, round: Round, value_id: ValueId) -> (r:
        Result<Option<ProposedValue>, StoreError>)
        ensures
            backend_failed(r) || proposal_outcome(r) == self.state().get_undecided_proposal(
                ProposalKey { height, round, value_id },
            ),
            self.state().wf(),
    ;

    /// Checks that the storage has every table that the store needs.
    fn verify_tables(&self) -> (r: Result<(), StoreError>)
        ensures
            backend_failed(r) || r == self.state().verify_tables(),
            self.state().wf(),
    ;
}

/// A handle on a store. `Store`, without a parameter, is the handle whose
/// type does not depend on the backend behind it; `Store<B>` names the
/// backend for a caller that wants to. The handle passes on what the
/// backend returns, a failure of the backend included, and changes nothing
/// of it.
pub struct Store<B: ?Sized = dyn StoreOps> {
    inner: Box<B>,
}

impl<B: ?Sized + StoreOps> View for Store<B> {
    type V = StoreState;

    closed spec fn view(&self) -> StoreState {
        self.inner.state()
    }
}

impl Store {
    /// A handle on `backend` once its tables are checked: a store is not
    /// opened on a storage that lacks a table.
    pub fn open(backend: Box<dyn StoreOps>) -> (r: Result<Store, StoreError>)
        ensures
            match r {
                Ok(store) => store@ == backend.state() && store@.verify_tables() is Ok
                    && store@.wf(),
                Err(error) => backend_failed(r) || backend.state().verify_tables() == Err::<
                    (),
                    StoreError,
                >(error),
            },
    {
        let store = Store::new(backend);
        match store.verify_tables() {
            Ok(()) => Ok(store),
            Err(error) => Err(error),
        }
    }
}

impl<B: ?Sized + StoreOps> Store<B> {
    /// A handle on `backend`.
    pub fn new(backend: Box<B>) -> (store: Store<B>)
        ensures
            store@ == backend.state(),
    {
        Store { inner: backend }
    }

    /// The greatest height that has a decided value, or `None` while no
    /// height has one.
    pub fn max_decided_value_height(&self) -> (max: Option<Height>)
        ensures
            self@.is_max_decided_height(max),
            self@.wf(),
    {
        self.inner.max_decided_value_height()
    }

    /// The decided value of `height`, or `None` while it has none.
    pub fn get_decided_value(&self, height: Height) -> (r: Result<
        Option<DecidedValue>,
        StoreError,
    >)
        ensures
            backend_failed(r) || decided_outcome(r) == self@.get_decided_value(height),
            self@.wf(),
    {
        self.inner.get_decided_value(height)
    }

    /// Stores `value` as the decided value of the height of `certificate`.
    /// Storing what the height already has changes nothing and succeeds;
    /// storing something else for a decided height changes nothing and
    /// fails, and so does a failure of the backend.
    pub fn store_decided_value(
        &mut self,
        certificate: &CommitCertificate,
        value: ConsensusValue,
    ) -> (r: Result<(), StoreError>)
        ensures
            (backend_failed(r) && final(self)@ == old(self)@) || (final(self)@, r) == old(
                self,
            )@.store_decided_value(certificate@, value@),
            final(self)@.wf(),
    {
        self.inner.store_decided_value(certificate, value)
    }

    /// The proposals of `height` and `round`, in the order in which they
    /// were stored.
    pub fn get_undecided_proposals(&self, height: Height, round: Round) -> (r: Result<
        Vec<ProposedValue>,
        StoreError,
    >)
        ensures
            backend_failed(r) || proposals_outcome(r) == self@.get_undecided_proposals(
                height,
                round,
            ),
            self@.wf(),
    {
        self.inner.get_undecided_proposals(height, round)
    }

    /// Stores `proposal` under its height, its round and the identifier of
    /// its value. A proposal that has the key of a stored one replaces it.
    pub fn store_undecided_proposal(&mut self, proposal: ProposedValue) -> (r: Result<
        (),
        StoreError,
    >)
        ensures
            (backend_failed(r) && final(self)@ == old(self)@) || (final(self)@, r) == old(
                self,
            )@.store_undecided_proposal(proposal@),
            final(self)@.wf(),
    {
        self.inner.store_undecided_proposal(proposal)
    }

    /// The proposal of `height` and `round` for the value `value_id`, or
    /// `None` where the store has none.
    pub fn get_undecided_proposal(&self, height: Height, round: Round, value_id: ValueId) -> (r:
        Result<Option<ProposedValue>, StoreError>)
        ensures
            backend_failed(r) || proposal_outcome(r) == self@.get_undecided_proposal(
                ProposalKey { height, round, value_id },
            ),
            self@.wf(),
    {
        self.inner.get_undecided_proposal(height, round, value_id)
    }

    /// Checks that the storage has every table that the store needs, and
    /// names the first that is missing.
    pub fn verify_tables(&self) -> (r: Result<(), StoreError>)
        ensures
            backend_failed(r) || r == self@.verify_tables(),
            self@.wf(),
    {
        self.inner.verify_tables()
    }
}

} // verus!
