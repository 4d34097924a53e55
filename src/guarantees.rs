use vstd::prelude::*;
use crate::contract::Config;
use crate::model::Registry;
use crate::storage::{renewed, Storage, Tier};
use crate::types::{Address, DataKey, Error};

verus! {

/// A state-changing call, with the identity its caller proved.
pub enum Call {
    Initialize { admin: Address },
    SetAdmin { caller: Address, new_admin: Address },
    MintNew { caller: Address, to: Address },
    Burn { caller: Address, id: i128 },
    Appr { caller: Address, owner: Address, operator: Address, id: i128 },
    ApprAll { caller: Address, owner: Address, operator: Address, approved: bool },
    Transfer { caller: Address, from: Address, to: Address, id: i128 },
    TransferFrom { caller: Address, spender: Address, from: Address, to: Address, id: i128 },
}

impl Call {
    /// The call can change who owns token `id`, other than by minting it.
    pub open spec fn moves(self, id: i128) -> bool {
        match self {
            Call::Burn { id: i, .. } => i == id,
            Call::Transfer { id: i, .. } => i == id,
            Call::TransferFrom { id: i, .. } => i == id,
            _ => false,
        }
    }
}

impl Registry {
    pub open spec fn apply(self, c: Call, config: Config) -> Result<Registry, Error> {
        match c {
            Call::Initialize { admin } => self.initialize(admin),
            Call::SetAdmin { caller, new_admin } => self.set_admin(caller, new_admin),
            Call::MintNew { caller, to } => self.mint_new(caller, to),
            Call::Burn { caller, id } => self.burn(caller, id, config.burn_requires_owner),
            Call::Appr { caller, owner, operator, id } => self.appr(caller, owner, operator, id),
            Call::ApprAll { caller, owner, operator, approved } => self.appr_all(
                caller,
                owner,
                operator,
                approved,
            ),
            Call::Transfer { caller, from, to, id } => self.transfer(
                caller,
                from,
                to,
                id,
                config.clear_approval_on_transfer,
            ),
            Call::TransferFrom { caller, spender, from, to, id } => self.transfer_from(
                caller,
                spender,
                from,
                to,
                id,
                config.clear_approval_on_transfer,
            ),
        }
    }

    /// The registry after `calls`, in order, within one ledger sequence; a
    /// call that fails changes nothing.
    pub open spec fn run(self, calls: Seq<Call>, config: Config) -> Registry
        decreases calls.len(),
    {
        if calls.len() == 0 {
            self
        } else {
            let prev = self.run(calls.drop_last(), config);
            match prev.apply(calls.last(), config) {
                Ok(next) => next,
                Err(_) => prev,
            }
        }
    }
}

/// Once an administrator is recorded, no call removes it.
proof fn lemma_admin_kept(r: Registry, c: Call, config: Config)
    requires
        r.admin is Some,
    ensures
        r.apply(c, config) is Ok ==> r.apply(c, config)->Ok_0.admin is Some,
{
}

/// `initialize` succeeds at most once: after it succeeded, any sequence of
/// further calls leaves a second `initialize` failing with
/// `AlreadyInitialized`.
pub proof fn initialize_at_most_once(
    r: Registry,
    first: Address,
    calls: Seq<Call>,
    second: Address,
    config: Config,
)
    requires
        r.initialize(first) is Ok,
    ensures
        r.initialize(first)->Ok_0.run(calls, config).initialize(second) == Err::<Registry, Error>(
            Error::AlreadyInitialized,
        ),
    decreases calls.len(),
{
    let start = r.initialize(first)->Ok_0;
    if calls.len() > 0 {
        initialize_at_most_once(r, first, calls.drop_last(), second, config);
        lemma_admin_kept(start.run(calls.drop_last(), config), calls.last(), config);
    }
}

/// A minted token is owned by its recipient: right after the mint, and
/// after any calls that neither burn nor transfer it.
pub proof fn owner_is_recipient_until_moved(
    r: Registry,
    caller: Address,
    to: Address,
    calls: Seq<Call>,
    config: Config,
)
    requires
        r.mint_new(caller, to) is Ok,
        forall|i: int| 0 <= i < calls.len() ==> !(#[trigger] calls[i]).moves(r.supply),
    ensures
        r.mint_new(caller, to)->Ok_0.run(calls, config).owner_of(r.supply) == Some(to),
    decreases calls.len(),
{
    let start = r.mint_new(caller, to)->Ok_0;
    if calls.len() > 0 {
        let prefix = calls.drop_last();
        assert forall|i: int| 0 <= i < prefix.len() implies !(#[trigger] prefix[i]).moves(r.supply) by {
            assert(prefix[i] == calls[i]);
        }
        owner_is_recipient_until_moved(r, caller, to, prefix, config);
        lemma_supply_grows(r, caller, to, prefix, config);
        assert(!calls[calls.len() - 1].moves(r.supply));
    }
}

proof fn lemma_supply_grows(r: Registry, caller: Address, to: Address, calls: Seq<Call>, config: Config)
    requires
        r.mint_new(caller, to) is Ok,
    ensures
        r.mint_new(caller, to)->Ok_0.run(calls, config).supply > r.supply,
    decreases calls.len(),
{
    if calls.len() > 0 {
        lemma_supply_grows(r, caller, to, calls.drop_last(), config);
    }
}

/// `transfer` of an owned token fails with `NotAuthorized` whenever `from`
/// is not its current owner or the caller cannot prove to be `from`.
pub proof fn transfer_needs_owner_and_caller(
    r: Registry,
    caller: Address,
    from: Address,
    to: Address,
    id: i128,
    clear: bool,
)
    requires
        r.live,
        r.owner_of(id) is Some,
        r.owner_of(id) != Some(from) || caller != from,
    ensures
        r.transfer(caller, from, to, id, clear) == Err::<Registry, Error>(Error::NotAuthorized),
{
}

/// After a burn, the token has no owner.
pub proof fn burn_then_not_found(r: Registry, caller: Address, id: i128, owner_checked: bool)
    requires
        r.burn(caller, id, owner_checked) is Ok,
    ensures
        r.burn(caller, id, owner_checked)->Ok_0.owner(id) == Err::<Address, Error>(Error::NotFound),
{
}

/// The supply counter never decreases, whatever the calls.
pub proof fn supply_never_decreases(r: Registry, calls: Seq<Call>, config: Config)
    ensures
        r.run(calls, config).supply >= r.supply,
    decreases calls.len(),
{
    if calls.len() > 0 {
        supply_never_decreases(r, calls.drop_last(), config);
    }
}

/// Ids are never reused: a mint hands out the current supply value and
/// advances the counter, and at the top of the id range it fails instead of
/// wrapping.
pub proof fn mint_takes_fresh_id(r: Registry, caller: Address, to: Address)
    ensures
        r.mint_new(caller, to) is Ok ==> {
            &&& r.mint_new(caller, to)->Ok_0.supply == r.supply + 1
            &&& r.mint_new(caller, to)->Ok_0.owner_of(r.supply) == Some(to)
        },
        r.live && r.admin == Some(caller) && r.supply == i128::MAX ==> r.mint_new(caller, to)
            == Err::<Registry, Error>(Error::SupplyExhausted),
{
}

/// Approving an operator for a token makes it the token's approval.
pub proof fn appr_round_trip(r: Registry, owner: Address, operator: Address, id: i128)
    requires
        r.appr(owner, owner, operator, id) is Ok,
    ensures
        r.appr(owner, owner, operator, id)->Ok_0.get_appr(id) == Ok::<Address, Error>(operator),
{
}

/// Granting a blanket approval makes `is_appr` true; revoking it makes
/// `is_appr` false again, as when it was never set.
pub proof fn appr_all_round_trip(r: Registry, owner: Address, operator: Address, approved: bool)
    requires
        r.appr_all(owner, owner, operator, approved) is Ok,
    ensures
        r.appr_all(owner, owner, operator, approved)->Ok_0.is_appr(owner, operator) == approved,
{
}

/// Lazy expiry: an entry of a per-key tier is readable exactly while the
/// ledger sequence has not passed its expiry, whenever it is read.
pub proof fn readable_until_expiry(s: Storage, later: Storage, t: Tier, k: DataKey)
    requires
        t != Tier::Instance,
        s.tier(t).contains_key(k),
        later.tier(t) == s.tier(t),
    ensures
        later.value_at(t, k) is Some <==> later.now() <= s.tier(t)[k].live_until,
{
}

/// A new entry set at sequence S is readable through S plus its tier's
/// default time to live.
pub proof fn new_entry_expiry(s: Storage, t: Tier, k: DataKey)
    requires
        s.live_entry(t, k) is None,
    ensures
        s.expiry_on_set(t, k) == s.now() + s.default_ttl(t),
{
}

/// A renewal whose threshold exceeds the remaining time to live moves the
/// expiry to the current sequence plus the bump, as long as the bump is at
/// least the threshold.
pub proof fn renewal_reaches_bump(live_until: u64, now: u32, threshold: u32, bump: u32)
    requires
        now <= live_until,
        live_until - now < threshold,
        threshold <= bump,
    ensures
        renewed(live_until, now, threshold, bump) == now + bump,
{
}

} // verus!
