use vstd::prelude::*;
use crate::storage::{same_values, Storage, Tier};
use crate::types::{Address, ApprovalAll, ApprovalKey, DataKey, Error, Value};

verus! {

/// Remaining time to live below which an approval read renews it.
pub const BALANCE_LIFETIME_THRESHOLD: u32 = 518400 - 17280;
/// How long a renewed approval stays live.
pub const BALANCE_BUMP_AMOUNT: u32 = 518400;

pub open spec fn single_key(id: i128) -> DataKey {
    DataKey::Approval(ApprovalKey::ID(id))
}

pub open spec fn all_key(owner: Address, operator: Address) -> DataKey {
    DataKey::Approval(ApprovalKey::All(ApprovalAll { operator, owner }))
}

/// The operator approved for token `id`, if one is readable now.
pub open spec fn stored_approval(s: &Storage, id: i128) -> Option<Address> {
    match s.value_at(Tier::Persistent, single_key(id)) {
        Some(Value::MaybeAccount(Some(a))) => Some(a),
        _ => None,
    }
}

/// Whether `operator` holds a readable blanket approval from `owner`.
pub open spec fn stored_approval_all(s: &Storage, owner: Address, operator: Address) -> bool {
    match s.value_at(Tier::Persistent, all_key(owner, operator)) {
        Some(Value::Flag(b)) => b,
        _ => false,
    }
}

/// The operator approved for token `id`, without renewing anything.
pub fn approval_of(s: &Storage, id: i128) -> (r: Option<Address>)
    requires
        s.wf(),
    ensures
        r == stored_approval(s, id),
{
    match s.get(Tier::Persistent, &DataKey::Approval(ApprovalKey::ID(id))) {
        Some(Value::MaybeAccount(Some(a))) => Some(*a),
        _ => None,
    }
}

/// Whether `operator` holds a blanket approval from `owner`, without
/// renewing anything.
pub fn approval_all_of(s: &Storage, owner: Address, operator: Address) -> (r: bool)
    requires
        s.wf(),
    ensures
        r == stored_approval_all(s, owner, operator),
{
    match s.get(Tier::Persistent, &DataKey::Approval(ApprovalKey::All(ApprovalAll { operator, owner }))) {
        Some(Value::Flag(b)) => *b,
        _ => false,
    }
}

/// The operator approved for token `id`; `NotFound` if none is. A hit
/// renews the entry's time to live.
pub fn read_approval(s: &mut Storage, id: i128) -> (r: Result<Address, Error>)
    requires
        old(s).wf(),
    ensures
        match r {
            Ok(a) => stored_approval(old(s), id) == Some(a) && same_values(old(s), final(s)),
            Err(e) => e == Error::NotFound && stored_approval(old(s), id) is None && *final(s)
                == *old(s),
        },
        r is Ok ==> final(s).tier(Tier::Persistent)[single_key(id)].live_until == crate::storage::renewed(
            old(s).tier(Tier::Persistent)[single_key(id)].live_until,
            old(s).now(),
            BALANCE_LIFETIME_THRESHOLD,
            BALANCE_BUMP_AMOUNT,
        ),
{
    let key = DataKey::Approval(ApprovalKey::ID(id));
    match approval_of(s, id) {
        Some(a) => {
            s.extend_ttl(Tier::Persistent, &key, BALANCE_LIFETIME_THRESHOLD, BALANCE_BUMP_AMOUNT);
            Ok(a)
        },
        None => Err(Error::NotFound),
    }
}

/// Whether `operator` may move every token of `owner`; `false` when unset.
/// A hit renews the entry's time to live.
pub fn read_approval_all(s: &mut Storage, owner: Address, operator: Address) -> (r: bool)
    requires
        old(s).wf(),
    ensures
        r == stored_approval_all(old(s), owner, operator),
        same_values(old(s), final(s)),
        old(s).value_at(Tier::Persistent, all_key(owner, operator)) is None ==> *final(s) == *old(s),
{
    let key = DataKey::Approval(ApprovalKey::All(ApprovalAll { operator, owner }));
    let approved = approval_all_of(s, owner, operator);
    if s.has(Tier::Persistent, &key) {
        s.extend_ttl(Tier::Persistent, &key, BALANCE_LIFETIME_THRESHOLD, BALANCE_BUMP_AMOUNT);
    }
    approved
}

/// Approves `operator` for token `id`, or revokes with `None`, and renews
/// the entry. No authorization happens here: callers check ownership first.
pub fn write_approval(s: &mut Storage, id: i128, operator: Option<Address>)
    requires
        old(s).wf(),
    ensures
        final(s).wf(),
        final(s).ledger() == old(s).ledger(),
        final(s).instance_live() == old(s).instance_live(),
        final(s).value_at(Tier::Persistent, single_key(id)) == Some(Value::MaybeAccount(operator)),
        stored_approval(final(s), id) == operator,
        forall|u: Tier, q: DataKey|
            !(u == Tier::Persistent && q == single_key(id)) ==> #[trigger] final(s).value_at(u, q)
                == old(s).value_at(u, q),
{
    let key = DataKey::Approval(ApprovalKey::ID(id));
    s.set(Tier::Persistent, key, Value::MaybeAccount(operator));
    s.extend_ttl(Tier::Persistent, &key, BALANCE_LIFETIME_THRESHOLD, BALANCE_BUMP_AMOUNT);
}

/// Grants (`true`) or revokes (`false`) `operator`'s blanket approval from
/// `owner`, and renews the entry. No authorization happens here.
pub fn write_approval_all(s: &mut Storage, owner: Address, operator: Address, approved: bool)
    requires
        old(s).wf(),
    ensures
        final(s).wf(),
        final(s).ledger() == old(s).ledger(),
        final(s).instance_live() == old(s).instance_live(),
        final(s).value_at(Tier::Persistent, all_key(owner, operator)) == Some(Value::Flag(approved)),
        stored_approval_all(final(s), owner, operator) == approved,
        forall|u: Tier, q: DataKey|
            !(u == Tier::Persistent && q == all_key(owner, operator)) ==> #[trigger] final(s).value_at(u, q)
                == old(s).value_at(u, q),
{
    let key = DataKey::Approval(ApprovalKey::All(ApprovalAll { operator, owner }));
    s.set(Tier::Persistent, key, Value::Flag(approved));
    s.extend_ttl(Tier::Persistent, &key, BALANCE_LIFETIME_THRESHOLD, BALANCE_BUMP_AMOUNT);
}

} // verus!
