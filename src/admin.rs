use vstd::prelude::*;
use crate::storage::{Storage, Tier};
use crate::types::{Address, DataKey, Error, Value};

verus! {

/// The administrator readable in tier `tier` now.
pub open spec fn stored_admin(s: &Storage, tier: Tier) -> Option<Address> {
    match s.value_at(tier, DataKey::Admin) {
        Some(Value::Account(a)) => Some(a),
        _ => None,
    }
}

/// Whether an administrator entry is readable in tier `tier`.
pub fn has_administrator(s: &Storage, tier: Tier) -> (r: bool)
    requires
        s.wf(),
    ensures
        r == stored_admin(s, tier) is Some,
{
    read_administrator(s, tier).is_ok()
}

/// The administrator; `NotFound` if it is absent or expired.
pub fn read_administrator(s: &Storage, tier: Tier) -> (r: Result<Address, Error>)
    requires
        s.wf(),
    ensures
        match r {
            Ok(a) => stored_admin(s, tier) == Some(a),
            Err(e) => e == Error::NotFound && stored_admin(s, tier) is None,
        },
{
    match s.get(tier, &DataKey::Admin) {
        Some(Value::Account(a)) => Ok(*a),
        _ => Err(Error::NotFound),
    }
}

/// Records `id` as administrator. No authorization happens here: callers
/// gate access.
pub fn write_administrator(s: &mut Storage, tier: Tier, id: &Address)
    requires
        old(s).wf(),
    ensures
        final(s).wf(),
        final(s).ledger() == old(s).ledger(),
        final(s).instance_live() == old(s).instance_live(),
        tier != Tier::Instance || old(s).instance_live() ==> stored_admin(final(s), tier) == Some(*id),
        forall|u: Tier, q: DataKey|
            !(u == tier && q == DataKey::Admin) ==> #[trigger] final(s).value_at(u, q) == old(s).value_at(u, q),
{
    s.set(tier, DataKey::Admin, Value::Account(*id));
}

} // verus!
