//! The values that the store keeps, and how it keys them.

use crate::height::Height;
use vstd::prelude::*;

verus! {

/// An attempt to agree within a height. Rounds start at zero at each height.
#[derive(Clone, Copy, Debug, PartialEq, Eq, Structural, PartialOrd, Ord, Hash)]
pub struct Round(pub u32);

/// The identifier of a value, derived from what the value holds.
#[derive(Clone, Copy, Debug, PartialEq, Eq, Structural, PartialOrd, Ord, Hash)]
pub struct ValueId(pub u64);

/// What consensus agrees on. The store does not look into the payload.
#[derive(Debug, PartialEq, Eq)]
pub struct ConsensusValue {
    /// The identifier of the value.
    pub id: ValueId,
    /// The value itself, encoded.
    pub payload: Vec<u8>,
}

/// A `ConsensusValue` with its payload as a sequence of bytes.
pub struct ConsensusValueView {
    pub id: ValueId,
    pub payload: Seq<u8>,
}

impl View for ConsensusValue {
    type V = ConsensusValueView;

    open spec fn view(&self) -> ConsensusValueView {
        ConsensusValueView { id: self.id, payload: self.payload@ }
    }
}

/// The proof that a quorum agreed on a value at a height, in some round.
#[derive(Debug, PartialEq, Eq)]
pub struct CommitCertificate {
    /// The height that was decided.
    pub height: Height,
    /// The round in which the quorum agreed.
    pub round: Round,
    /// The value that the quorum agreed on.
    pub value_id: ValueId,
    /// The signatures of the quorum, encoded.
    pub signatures: Vec<u8>,
}

/// A `CommitCertificate` with its signatures as a sequence of bytes.
pub struct CertificateView {
    pub height: Height,
    pub round: Round,
    pub value_id: ValueId,
    pub signatures: Seq<u8>,
}

impl View for CommitCertificate {
    type V = CertificateView;

    open spec fn view(&self) -> CertificateView {
        CertificateView {
            height: self.height,
            round: self.round,
            value_id: self.value_id,
            signatures: self.signatures@,
        }
    }
}

/// A value that was proposed at a height and round.
#[derive(Debug, PartialEq, Eq)]
pub struct ProposedValue {
    /// The height of the proposal.
    pub height: Height,
    /// The round of the proposal.
    pub round: Round,
    /// The round in which the value was first seen as valid, if it was.
    pub valid_round: Option<Round>,
    /// The address of the proposer, encoded.
    pub proposer: Vec<u8>,
    /// The proposed value.
    pub value: ConsensusValue,
    /// Whether the application found the value valid.
    pub valid: bool,
}

/// A `ProposedValue` with its encoded parts as sequences of bytes.
pub struct ProposalView {
    pub height: Height,
    pub round: Round,
    pub valid_round: Option<Round>,
    pub proposer: Seq<u8>,
    pub value: ConsensusValueView,
    pub valid: bool,
}

impl View for ProposedValue {
    type V = ProposalView;

    open spec fn view(&self) -> ProposalView {
        ProposalView {
            height: self.height,
            round: self.round,
            valid_round: self.valid_round,
            proposer: self.proposer@,
            value: self.value@,
            valid: self.valid,
        }
    }
}

/// The key of a proposal: its height, its round and the value it proposes.
pub struct ProposalKey {
    pub height: Height,
    pub round: Round,
    pub value_id: ValueId,
}

impl ProposalView {
    /// The key under which the store keeps this proposal.
    pub open spec fn key(self) -> ProposalKey {
        ProposalKey { height: self.height, round: self.round, value_id: self.value.id }
    }
}

/// The value that a height decided, with the certificate that proves it.
#[derive(Debug, PartialEq, Eq)]
pub struct DecidedValue {
    /// The decided value.
    pub value: ConsensusValue,
    /// The proof of the decision.
    pub certificate: CommitCertificate,
}

/// A `DecidedValue` over the views of its parts.
pub struct DecisionView {
    pub value: ConsensusValueView,
    pub certificate: CertificateView,
}

impl View for DecidedValue {
    type V = DecisionView;

    open spec fn view(&self) -> DecisionView {
        DecisionView { value: self.value@, certificate: self.certificate@ }
    }
}

/// The tables that the store keeps its data in.
#[derive(Clone, Copy, Debug, PartialEq, Eq, Structural)]
pub enum Table {
    /// The decided value of each height.
    DecidedValues,
    /// The proposals that were not decided on.
    UndecidedProposals,
}

/// Why a backend could not carry out an operation at all.
#[derive(Clone, Copy, Debug, PartialEq, Eq, Structural)]
pub enum BackendFailure {
    /// The storage could not be reached.
    Unreachable,
    /// The transaction on the storage failed.
    TransactionFailed,
    /// What the storage holds could not be read back.
    Corrupted,
}

/// Why the store could not do what it was asked.
#[derive(Clone, Copy, Debug, PartialEq, Eq, Structural)]
pub enum StoreError {
    /// The storage lacks a table that the store needs.
    MissingTable(Table),
    /// The height already has a decided value, and it is another one.
    ConflictingDecision(Height),
    /// The backend failed, and the store holds what it held before.
    Backend(BackendFailure),
}

/// Whether two byte strings hold the same bytes.
pub fn same_bytes(a: &Vec<u8>, b: &Vec<u8>) -> (same: bool)
    ensures
        same == (a@ == b@),
{
    if a.len() != b.len() {
        return false;
    }
    let mut i: usize = 0;
    while i < a.len()
        invariant
            a.len() == b.len(),
            i <= a.len(),
            a@.take(i as int) == b@.take(i as int),
        decreases a.len() - i,
    {
        if a[i] != b[i] {
            return false;
        }
        assert(a@.take(i + 1) == a@.take(i as int).push(a@[i as int]));
        assert(b@.take(i + 1) == b@.take(i as int).push(b@[i as int]));
        i = i + 1;
    }
    assert(a@.take(a.len() as int) == a@);
    assert(b@.take(b.len() as int) == b@);
    true
}

/// A copy of a byte string.
pub fn copy_bytes(bytes: &Vec<u8>) -> (copy: Vec<u8>)
    ensures
        copy@ == bytes@,
{
    let copy = bytes.clone();
    assert(copy@ =~= bytes@);
    copy
}

impl Clone for ConsensusValue {
    fn clone(&self) -> (copy: ConsensusValue)
        ensures
            copy@ == self@,
    {
        ConsensusValue { id: self.id, payload: copy_bytes(&self.payload) }
    }
}

impl ConsensusValue {
    /// Whether this value and `other` are the same value.
    pub fn same(&self, other: &ConsensusValue) -> (same: bool)
        ensures
            same == (self@ == other@),
    {
        self.id == other.id && same_bytes(&self.payload, &other.payload)
    }
}

impl Clone for CommitCertificate {
    fn clone(&self) -> (copy: CommitCertificate)
        ensures
            copy@ == self@,
    {
        CommitCertificate {
            height: self.height,
            round: self.round,
            value_id: self.value_id,
            signatures: copy_bytes(&self.signatures),
        }
    }
}

impl CommitCertificate {
    /// Whether this certificate and `other` are the same certificate.
    pub fn same(&self, other: &CommitCertificate) -> (same: bool)
        ensures
            same == (self@ == other@),
    {
        self.height == other.height && self.round == other.round && self.value_id
            == other.value_id && same_bytes(&self.signatures, &other.signatures)
    }
}

impl Clone for ProposedValue {
    fn clone(&self) -> (copy: ProposedValue)
        ensures
            copy@ == self@,
    {
        ProposedValue {
            height: self.height,
            round: self.round,
            valid_round: self.valid_round,
            proposer: copy_bytes(&self.proposer),
            value: self.value.clone(),
            valid: self.valid,
        }
    }
}

impl Clone for DecidedValue {
    fn clone(&self) -> (copy: DecidedValue)
        ensures
            copy@ == self@,
    {
        DecidedValue { value: self.value.clone(), certificate: self.certificate.clone() }
    }
}

} // verus!
