//! A token registry run by a ledger-style host: ownership of uniquely numbered
//! tokens, single-token and blanket approvals, and an administrator, all kept
//! in a key-value store whose entries expire unless renewed.
//!
//! Each state-changing call takes a `Capability`, the host's evidence of the
//! caller's identity. A call either succeeds or fails with an `Error` and
//! leaves the registry unchanged. `Config` chooses between a configuration
//! that keeps three known defects and one that corrects them.
//!
//! `calculator` holds a small pair-of-integers calculator.
mod admin;
mod approval;
mod calculator;
mod contract;
mod guarantees;
mod model;
mod owner;
mod storage;
mod types;

pub use admin::{has_administrator, read_administrator, stored_admin, write_administrator};
pub use approval::{
    all_key, approval_all_of, approval_of, read_approval, read_approval_all, single_key, stored_approval, stored_approval_all, write_approval, write_approval_all,
    BALANCE_BUMP_AMOUNT, BALANCE_LIFETIME_THRESHOLD,
};
pub use calculator::{
    fits_i32, quotient, AdditiveOperations, BinaryOperations, Calculator,
    MultiplicativeOperations, Report,
};
pub use contract::{
    Capability, Config, Event, NFToken, INSTANCE_BUMP_AMOUNT, INSTANCE_LIFETIME_THRESHOLD,
};
pub use guarantees::{
    appr_all_round_trip, appr_round_trip, burn_then_not_found, initialize_at_most_once,
    mint_takes_fresh_id, new_entry_expiry, owner_is_recipient_until_moved, readable_until_expiry,
    renewal_reaches_bump, supply_never_decreases, transfer_needs_owner_and_caller, Call,
};
pub use model::{registry_of, Registry};
pub use owner::{
    check_owner, increment_supply, owned_after, ownership_key, read_all_owned, read_owner,
    read_supply, stored_owned, stored_owner, stored_supply, without, write_owner,
};
pub use storage::{find, renewed, same_values, unique_keys, Entry, LedgerInfo, Storage, Tier, TierStore};
pub use types::{Address, ApprovalAll, ApprovalKey, DataKey, Error, Value};
