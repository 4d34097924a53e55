use vstd::prelude::*;

verus! {

/// An account identity known to the host ledger.
#[derive(PartialEq, Eq, Structural, Clone, Copy, Debug)]
pub struct Address {
    pub id: u64,
}

impl Address {
    pub fn from_id(id: u64) -> (r: Address)
        ensures
            r.id == id,
    {
        Address { id }
    }
}

/// Failures of a registry call. A failed call leaves the registry unchanged.
#[derive(PartialEq, Eq, Structural, Clone, Copy, Debug)]
pub enum Error {
    /// The entry is absent, or its time to live has run out.
    NotFound,
    /// The caller's capability does not prove the identity the call needs.
    NotAuthorized,
    /// An administrator is already recorded.
    AlreadyInitialized,
    /// Minting would take the supply counter past the largest token id.
    SupplyExhausted,
}

/// Key of a blanket approval: `operator` may move every token of `owner`.
#[derive(PartialEq, Eq, Structural, Clone, Copy, Debug)]
pub struct ApprovalAll {
    pub operator: Address,
    pub owner: Address,
}

#[derive(PartialEq, Eq, Structural, Clone, Copy, Debug)]
pub enum ApprovalKey {
    ID(i128),
    All(ApprovalAll),
}

/// The discriminated keys under which the registry keeps its state.
#[derive(PartialEq, Eq, Structural, Clone, Copy, Debug)]
pub enum DataKey {
    Admin,
    Supply,
    Owner(i128),
    Owned(Address),
    Approval(ApprovalKey),
}

/// A stored value.
#[derive(Debug, PartialEq, Eq)]
pub enum Value {
    Account(Address),
    MaybeAccount(Option<Address>),
    Flag(bool),
    Count(i128),
    Ids(Vec<i128>),
}

} // verus!
