use vstd::prelude::*;
use crate::storage::{Storage, Tier};
use crate::types::{Address, DataKey, Error, Value};

verus! {

/// The owner of token `id`, if one is readable now. Never-minted, burned
/// and expired tokens have none.
pub open spec fn stored_owner(s: &Storage, id: i128) -> Option<Address> {
    match s.value_at(Tier::Persistent, DataKey::Owner(id)) {
        Some(Value::MaybeAccount(Some(a))) => Some(a),
        _ => None,
    }
}

/// The reverse index: the ids recorded for `owner`, in order of arrival.
pub open spec fn stored_owned(s: &Storage, owner: Address) -> Seq<i128> {
    match s.value_at(Tier::Persistent, DataKey::Owned(owner)) {
        Some(Value::Ids(v)) => v@,
        _ => Seq::empty(),
    }
}

/// The supply counter: the id the next mint takes.
pub open spec fn stored_supply(s: &Storage) -> i128 {
    match s.value_at(Tier::Instance, DataKey::Supply) {
        Some(Value::Count(n)) => n,
        _ => 0,
    }
}

/// `s` without any occurrence of `id`, order kept.
pub open spec fn without(s: Seq<i128>, id: i128) -> Seq<i128>
    decreases s.len(),
{
    if s.len() == 0 {
        Seq::empty()
    } else if s.last() == id {
        without(s.drop_last(), id)
    } else {
        without(s.drop_last(), id).push(s.last())
    }
}

/// The reverse index of `a` once token `id` passes to `next`.
pub open spec fn owned_after(s: &Storage, id: i128, next: Option<Address>, a: Address) -> Seq<i128> {
    let base = if stored_owner(s, id) == Some(a) {
        without(stored_owned(s, a), id)
    } else {
        stored_owned(s, a)
    };
    if next == Some(a) {
        base.push(id)
    } else {
        base
    }
}

/// The keys that `write_owner` may change.
pub open spec fn ownership_key(q: DataKey, id: i128) -> bool {
    q == DataKey::Owner(id) || q is Owned
}

/// The owner of token `id`; `NotFound` if none is recorded.
pub fn read_owner(s: &Storage, id: i128) -> (r: Result<Address, Error>)
    requires
        s.wf(),
    ensures
        match r {
            Ok(a) => stored_owner(s, id) == Some(a),
            Err(e) => e == Error::NotFound && stored_owner(s, id) is None,
        },
{
    match s.get(Tier::Persistent, &DataKey::Owner(id)) {
        Some(Value::MaybeAccount(Some(a))) => Ok(*a),
        _ => Err(Error::NotFound),
    }
}

/// Succeeds when `caller` owns token `id`: `NotFound` if it has no owner,
/// `NotAuthorized` if someone else owns it.
pub fn check_owner(s: &Storage, caller: &Address, id: i128) -> (r: Result<(), Error>)
    requires
        s.wf(),
    ensures
        r is Ok <==> stored_owner(s, id) == Some(*caller),
        r == Err::<(), Error>(Error::NotFound) <==> stored_owner(s, id) is None,
        r == Err::<(), Error>(Error::NotAuthorized) <==> (stored_owner(s, id) is Some && stored_owner(
            s,
            id,
        ) != Some(*caller)),
{
    let owner = read_owner(s, id)?;
    if owner == *caller {
        Ok(())
    } else {
        Err(Error::NotAuthorized)
    }
}

/// The ids recorded for `owner` in the reverse index.
pub fn read_all_owned(s: &Storage, owner: Address) -> (r: Vec<i128>)
    requires
        s.wf(),
    ensures
        r@ == stored_owned(s, owner),
{
    match s.get(Tier::Persistent, &DataKey::Owned(owner)) {
        Some(Value::Ids(v)) => {
            let mut out: Vec<i128> = Vec::new();
            let mut i: usize = 0;
            while i < v.len()
                invariant
                    i <= v@.len(),
                    out@ == v@.subrange(0, i as int),
                decreases v@.len() - i,
            {
                out.push(v[i]);
                i = i + 1;
                assert(out@ =~= v@.subrange(0, i as int));
            }
            assert(out@ =~= v@);
            out
        },
        _ => Vec::new(),
    }
}

fn remove_id(v: &Vec<i128>, id: i128) -> (r: Vec<i128>)
    ensures
        r@ == without(v@, id),
{
    let mut out: Vec<i128> = Vec::new();
    let mut i: usize = 0;
    while i < v.len()
        invariant
            i <= v@.len(),
            out@ == without(v@.subrange(0, i as int), id),
        decreases v@.len() - i,
    {
        assert(v@.subrange(0, i + 1).drop_last() =~= v@.subrange(0, i as int));
        if v[i] != id {
            out.push(v[i]);
        }
        i = i + 1;
    }
    assert(v@.subrange(0, v@.len() as int) =~= v@);
    out
}

/// Records `owner` for token `id` (`None` burns it) and keeps the reverse
/// index in step: `id` leaves the previous owner's list and joins the end
/// of the new owner's.
pub fn write_owner(s: &mut Storage, id: i128, owner: Option<Address>)
    requires
        old(s).wf(),
        old(s).instance_live(),
    ensures
        final(s).wf(),
        final(s).ledger() == old(s).ledger(),
        final(s).instance_live(),
        stored_owner(final(s), id) == owner,
        forall|j: i128| j != id ==> #[trigger] stored_owner(final(s), j) == stored_owner(old(s), j),
        forall|a: Address| #[trigger] stored_owned(final(s), a) == owned_after(old(s), id, owner, a),
        forall|u: Tier, q: DataKey|
            !(u == Tier::Persistent && ownership_key(q, id)) ==> #[trigger] final(s).value_at(u, q)
                == old(s).value_at(u, q),
{
    let ghost s0 = *old(s);
    let key = DataKey::Owner(id);
    let prev = match s.get(Tier::Persistent, &key) {
        Some(Value::MaybeAccount(Some(a))) => Some(*a),
        _ => None,
    };
    if let Some(p) = prev {
        let list = read_all_owned(s, p);
        let kept = remove_id(&list, id);
        s.set(Tier::Persistent, DataKey::Owned(p), Value::Ids(kept));
    }
    let ghost s1 = *s;
    s.set(Tier::Persistent, key, Value::MaybeAccount(owner));
    let ghost s2 = *s;
    if let Some(n) = owner {
        let mut list = read_all_owned(s, n);
        list.push(id);
        s.set(Tier::Persistent, DataKey::Owned(n), Value::Ids(list));
    }
    proof {
        assert forall|a: Address| #[trigger] stored_owned(s, a) == owned_after(&s0, id, owner, a) by {
            assert(stored_owned(&s1, a) == if prev == Some(a) {
                without(stored_owned(&s0, a), id)
            } else {
                stored_owned(&s0, a)
            });
            assert(stored_owned(&s2, a) == stored_owned(&s1, a));
        }
    }
}

/// The supply counter.
pub fn read_supply(s: &Storage) -> (r: i128)
    requires
        s.wf(),
    ensures
        r == stored_supply(s),
{
    match s.get(Tier::Instance, &DataKey::Supply) {
        Some(Value::Count(n)) => *n,
        _ => 0,
    }
}

/// Advances the supply counter by one.
pub fn increment_supply(s: &mut Storage)
    requires
        old(s).wf(),
        old(s).instance_live(),
        stored_supply(old(s)) < i128::MAX,
    ensures
        final(s).wf(),
        final(s).ledger() == old(s).ledger(),
        final(s).instance_live(),
        stored_supply(final(s)) == stored_supply(old(s)) + 1,
        forall|u: Tier, q: DataKey|
            !(u == Tier::Instance && q == DataKey::Supply) ==> #[trigger] final(s).value_at(u, q)
                == old(s).value_at(u, q),
{
    let n = read_supply(s);
    s.set(Tier::Instance, DataKey::Supply, Value::Count(n + 1));
}

} // verus!
