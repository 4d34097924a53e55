use vstd::prelude::*;
use crate::admin::{has_administrator, read_administrator, write_administrator};
use crate::approval::{
    approval_all_of, approval_of, read_approval, read_approval_all, write_approval,
    write_approval_all, BALANCE_BUMP_AMOUNT, BALANCE_LIFETIME_THRESHOLD,
};
use crate::model::{registry_of, Registry};
use crate::owner::{check_owner, read_all_owned, read_owner, read_supply, increment_supply, write_owner};
use crate::storage::{same_values, LedgerInfo, Storage, Tier};
use crate::types::{Address, DataKey, Error};

verus! {

/// Remaining time to live below which a call renews the registry instance.
pub const INSTANCE_LIFETIME_THRESHOLD: u32 = 120960 - 17280;
/// How long a renewed registry instance stays live.
pub const INSTANCE_BUMP_AMOUNT: u32 = 120960;

/// Evidence, handed over by the host, that the caller controls `holder`.
pub struct Capability {
    holder: Address,
}

impl Capability {
    pub closed spec fn holder(&self) -> Address {
        self.holder
    }

    /// The host's proof that the caller controls `holder`.
    pub fn new(holder: Address) -> (r: Capability)
        ensures
            r.holder() == holder,
    {
        Capability { holder }
    }

    pub fn identity(&self) -> (r: Address)
        ensures
            r == self.holder(),
    {
        self.holder
    }
}

/// The choices left open by the registry's design; each one keeps or fixes
/// a known defect.
#[derive(PartialEq, Eq, Structural, Clone, Copy, Debug)]
pub struct Config {
    /// Where the administrator is kept. Outside the temporary tier it is
    /// renewed on every administrative access; in the temporary tier it is
    /// never renewed and becomes unreadable once its time to live runs out.
    pub admin_tier: Tier,
    /// Whether a transfer drops the token's single-token approval. When it
    /// does not, the previous operator can still move the token.
    pub clear_approval_on_transfer: bool,
    /// Whether `burn` checks that the caller owns the token. When it does
    /// not, anyone can burn any token.
    pub burn_requires_owner: bool,
}

impl Config {
    /// Keeps the known defects: a temporary, never renewed administrator,
    /// approvals that survive transfers, and burns that anyone may make.
    pub fn vulnerable() -> (r: Config)
        ensures
            r == (Config {
                admin_tier: Tier::Temporary,
                clear_approval_on_transfer: false,
                burn_requires_owner: false,
            }),
    {
        Config { admin_tier: Tier::Temporary, clear_approval_on_transfer: false, burn_requires_owner: false }
    }

    /// Corrects all three defects.
    pub fn hardened() -> (r: Config)
        ensures
            r == (Config {
                admin_tier: Tier::Persistent,
                clear_approval_on_transfer: true,
                burn_requires_owner: true,
            }),
    {
        Config { admin_tier: Tier::Persistent, clear_approval_on_transfer: true, burn_requires_owner: true }
    }
}

/// Notifications emitted by successful calls.
#[derive(PartialEq, Eq, Structural, Clone, Copy, Debug)]
pub enum Event {
    SetAdmin { admin: Address, new_admin: Address },
    Mint { to: Address, id: i128 },
    Burn { from: Address, id: i128 },
    Approve { operator: Address, id: i128 },
    ApproveAll { operator: Address, owner: Address, approved: bool },
    Transfer { from: Address, to: Address, id: i128 },
}

/// The token registry. Every call either succeeds, or fails and leaves the
/// registry exactly as it was.
pub struct NFToken {
    storage: Storage,
    config: Config,
    events: Vec<Event>,
}

proof fn lemma_same_view(a: &Storage, b: &Storage, t: Tier)
    requires
        same_values(a, b),
    ensures
        registry_of(b, t) == registry_of(a, t),
{
    assert(registry_of(b, t) =~= registry_of(a, t));
}

impl NFToken {
    pub closed spec fn wf(&self) -> bool {
        self.storage.wf()
    }

    pub closed spec fn storage(&self) -> Storage {
        self.storage
    }

    pub closed spec fn config(&self) -> Config {
        self.config
    }

    pub closed spec fn event_log(&self) -> Seq<Event> {
        self.events@
    }

    pub closed spec fn view(&self) -> Registry {
        registry_of(&self.storage, self.config.admin_tier)
    }

    /// `self` is a later state of `prev` within the same ledger sequence.
    pub open spec fn follows(&self, prev: &NFToken) -> bool {
        &&& self.wf()
        &&& self.config() == prev.config()
        &&& self.storage().ledger() == prev.storage().ledger()
    }

    /// A fresh registry; its instance lives for the persistent default time
    /// to live.
    pub fn new(ledger: LedgerInfo, config: Config) -> (r: NFToken)
        ensures
            r.wf(),
            r.config() == config,
            r.storage().ledger() == ledger,
            r.event_log() == Seq::<Event>::empty(),
            r@ == (Registry {
                live: true,
                admin: None,
                supply: 0,
                owners: Map::empty(),
                owned: Map::new(|a: Address| true, |a: Address| Seq::<i128>::empty()),
                approvals: Map::empty(),
                operators: Set::empty(),
            }),
    {
        let r = NFToken { storage: Storage::new(ledger), config, events: Vec::new() };
        assert(r@ =~= Registry {
            live: true,
            admin: None,
            supply: 0,
            owners: Map::empty(),
            owned: Map::new(|a: Address| true, |a: Address| Seq::<i128>::empty()),
            approvals: Map::empty(),
            operators: Set::empty(),
        });
        r
    }

    /// A registry over persisted storage.
    pub fn load(storage: Storage, config: Config) -> (r: NFToken)
        requires
            storage.wf(),
        ensures
            r.wf(),
            r.storage() == storage,
            r.config() == config,
            r.event_log() == Seq::<Event>::empty(),
            r@ == registry_of(&storage, config.admin_tier),
    {
        NFToken { storage, config, events: Vec::new() }
    }

    pub fn ledger_info(&self) -> (r: LedgerInfo)
        ensures
            r == self.storage().ledger(),
    {
        self.storage.ledger_info()
    }

    /// Moves the ledger to sequence `seq`; entries whose expiry it passes
    /// become unreadable.
    pub fn set_sequence(&mut self, seq: u32)
        requires
            old(self).wf(),
            old(self).storage().now() <= seq,
        ensures
            final(self).wf(),
            final(self).config() == old(self).config(),
            final(self).event_log() == old(self).event_log(),
            final(self).storage().ledger() == (LedgerInfo { sequence: seq, ..old(self).storage().ledger() }),
            forall|t: Tier| #[trigger] final(self).storage().tier(t) == old(self).storage().tier(t),
            final(self).storage().instance_live_until() == old(self).storage().instance_live_until(),
    {
        self.storage.set_sequence(seq);
    }

    pub fn events(&self) -> (r: &Vec<Event>)
        ensures
            r@ == self.event_log(),
    {
        &self.events
    }

    fn renew_instance(&mut self)
        requires
            old(self).wf(),
        ensures
            final(self).follows(old(self)),
            final(self).events == old(self).events,
            same_values(&old(self).storage, &final(self).storage),
            final(self)@ == old(self)@,
    {
        self.storage.extend_ttl(Tier::Instance, &DataKey::Supply, INSTANCE_LIFETIME_THRESHOLD, INSTANCE_BUMP_AMOUNT);
        proof {
            lemma_same_view(&old(self).storage, &self.storage, self.config.admin_tier);
        }
    }

    fn renew_admin(&mut self)
        requires
            old(self).wf(),
        ensures
            final(self).follows(old(self)),
            final(self).events == old(self).events,
            same_values(&old(self).storage, &final(self).storage),
            final(self)@ == old(self)@,
    {
        if self.config.admin_tier != Tier::Temporary {
            self.storage.extend_ttl(self.config.admin_tier, &DataKey::Admin, BALANCE_LIFETIME_THRESHOLD, BALANCE_BUMP_AMOUNT);
        }
        proof {
            lemma_same_view(&old(self).storage, &self.storage, self.config.admin_tier);
        }
    }

    /// Records the first administrator; `AlreadyInitialized` once one is
    /// recorded.
    pub fn initialize(&mut self, admin: Address) -> (r: Result<(), Error>)
        requires
            old(self).wf(),
        ensures
            final(self).follows(old(self)),
            match old(self)@.initialize(admin) {
                Ok(next) => r is Ok && final(self)@ == next && final(self).event_log() == old(
                    self,
                ).event_log(),
                Err(e) => r == Err::<(), Error>(e) && *final(self) == *old(self),
            },
    {
        if !self.storage.instance_is_live() {
            return Err(Error::NotFound);
        }
        if has_administrator(&self.storage, self.config.admin_tier) {
            return Err(Error::AlreadyInitialized);
        }
        self.renew_instance();
        write_administrator(&mut self.storage, self.config.admin_tier, &admin);
        proof {
            assert(self@ =~= old(self)@.initialize(admin)->Ok_0);
        }
        self.renew_admin();
        Ok(())
    }

    /// The administrator; `NotFound` if it is absent or expired.
    pub fn admin(&mut self) -> (r: Result<Address, Error>)
        requires
            old(self).wf(),
        ensures
            final(self).follows(old(self)),
            r == old(self)@.admin(),
            final(self)@ == old(self)@,
            final(self).event_log() == old(self).event_log(),
            r is Err ==> *final(self) == *old(self),
    {
        if !self.storage.instance_is_live() {
            return Err(Error::NotFound);
        }
        let a = read_administrator(&self.storage, self.config.admin_tier)?;
        self.renew_instance();
        self.renew_admin();
        Ok(a)
    }

    /// Replaces the administrator; the caller must prove to be the current one.
    pub fn set_admin(&mut self, auth: &Capability, new_admin: Address) -> (r: Result<(), Error>)
        requires
            old(self).wf(),
        ensures
            final(self).follows(old(self)),
            match old(self)@.set_admin(auth.holder(), new_admin) {
                Ok(next) => r is Ok && final(self)@ == next && final(self).event_log() == old(
                    self,
                ).event_log().push(Event::SetAdmin { admin: old(self)@.admin->0, new_admin }),
                Err(e) => r == Err::<(), Error>(e) && *final(self) == *old(self),
            },
    {
        if !self.storage.instance_is_live() {
            return Err(Error::NotFound);
        }
        let admin = read_administrator(&self.storage, self.config.admin_tier)?;
        if auth.identity() != admin {
            return Err(Error::NotAuthorized);
        }
        self.renew_instance();
        write_administrator(&mut self.storage, self.config.admin_tier, &new_admin);
        proof {
            assert(self@ =~= old(self)@.set_admin(auth.holder(), new_admin)->Ok_0);
        }
        self.renew_admin();
        self.events.push(Event::SetAdmin { admin, new_admin });
        Ok(())
    }

    /// Mints the next token to `to`: its id is the supply counter, which then
    /// advances. The caller must prove to be the administrator. Once the
    /// counter reaches the largest id, minting fails with `SupplyExhausted`
    /// instead of wrapping, so ids are never reused.
    pub fn mint_new(&mut self, auth: &Capability, to: Address) -> (r: Result<(), Error>)
        requires
            old(self).wf(),
        ensures
            final(self).follows(old(self)),
            match old(self)@.mint_new(auth.holder(), to) {
                Ok(next) => r is Ok && final(self)@ == next && final(self).event_log() == old(
                    self,
                ).event_log().push(Event::Mint { to, id: old(self)@.supply }),
                Err(e) => r == Err::<(), Error>(e) && *final(self) == *old(self),
            },
    {
        if !self.storage.instance_is_live() {
            return Err(Error::NotFound);
        }
        let admin = read_administrator(&self.storage, self.config.admin_tier)?;
        if auth.identity() != admin {
            return Err(Error::NotAuthorized);
        }
        let id = read_supply(&self.storage);
        if id == i128::MAX {
            return Err(Error::SupplyExhausted);
        }
        self.renew_instance();
        self.renew_admin();
        let ghost s0 = self.storage;
        write_owner(&mut self.storage, id, Some(to));
        let ghost s1 = self.storage;
        increment_supply(&mut self.storage);
        proof {
            let before = old(self)@;
            let after = before.reassign(id, Some(to));
            assert forall|a: Address| #[trigger] self@.owned[a] == after.owned[a] by {
                assert(self@.owned[a] == crate::owner::stored_owned(&self.storage, a));
                assert(crate::owner::stored_owned(&s1, a) == crate::owner::owned_after(&s0, id, Some(to), a));
                assert(crate::owner::stored_owned(&self.storage, a) == crate::owner::stored_owned(&s1, a));
                assert(crate::owner::stored_owned(&s0, a) == crate::owner::stored_owned(&old(self).storage, a));
                assert(crate::owner::stored_owner(&s0, id) == crate::owner::stored_owner(&old(self).storage, id));
                assert(before.owned[a] == crate::owner::stored_owned(&old(self).storage, a));
                assert(before.owner_of(id) == crate::owner::stored_owner(&old(self).storage, id));
            }
            assert(self@.owned =~= after.owned);
            assert(self@.owners =~= after.owners);
            assert(self@ =~= old(self)@.mint_new(auth.holder(), to)->Ok_0);
        }
        self.events.push(Event::Mint { to, id });
        Ok(())
    }

    /// Burns token `id`. With `burn_requires_owner` the caller must prove to
    /// own it; without, the check is skipped and anyone can burn the token.
    pub fn burn(&mut self, auth: &Capability, id: i128) -> (r: Result<(), Error>)
        requires
            old(self).wf(),
        ensures
            final(self).follows(old(self)),
            match old(self)@.burn(auth.holder(), id, old(self).config().burn_requires_owner) {
                Ok(next) => r is Ok && final(self)@ == next && final(self).event_log() == old(
                    self,
                ).event_log().push(Event::Burn { from: old(self)@.owner_of(id)->0, id }),
                Err(e) => r == Err::<(), Error>(e) && *final(self) == *old(self),
            },
    {
        if !self.storage.instance_is_live() {
            return Err(Error::NotFound);
        }
        let from = read_owner(&self.storage, id)?;
        if self.config.burn_requires_owner && auth.identity() != from {
            return Err(Error::NotAuthorized);
        }
        self.renew_instance();
        write_owner(&mut self.storage, id, None);
        proof {
            assert(self@ =~= old(self)@.burn(auth.holder(), id, self.config.burn_requires_owner)->Ok_0);
        }
        self.events.push(Event::Burn { from, id });
        Ok(())
    }

    /// The operator approved for token `id`; a hit renews the approval.
    pub fn get_appr(&mut self, id: i128) -> (r: Result<Address, Error>)
        requires
            old(self).wf(),
        ensures
            final(self).follows(old(self)),
            r == old(self)@.get_appr(id),
            final(self)@ == old(self)@,
            final(self).event_log() == old(self).event_log(),
            r is Err ==> *final(self) == *old(self),
    {
        if !self.storage.instance_is_live() {
            return Err(Error::NotFound);
        }
        if approval_of(&self.storage, id).is_none() {
            return Err(Error::NotFound);
        }
        self.renew_instance();
        let r = read_approval(&mut self.storage, id);
        proof {
            lemma_same_view(&old(self).storage, &self.storage, self.config.admin_tier);
        }
        r
    }

    /// Whether `operator` may move every token of `owner`; `false` when unset.
    pub fn is_appr(&mut self, owner: Address, operator: Address) -> (r: bool)
        requires
            old(self).wf(),
        ensures
            final(self).follows(old(self)),
            r == old(self)@.is_appr(owner, operator),
            final(self)@ == old(self)@,
            final(self).event_log() == old(self).event_log(),
    {
        if !self.storage.instance_is_live() {
            return false;
        }
        self.renew_instance();
        let r = read_approval_all(&mut self.storage, owner, operator);
        proof {
            lemma_same_view(&old(self).storage, &self.storage, self.config.admin_tier);
        }
        r
    }

    /// The owner of token `id`; `NotFound` if it was never minted or is burned.
    pub fn owner(&mut self, id: i128) -> (r: Result<Address, Error>)
        requires
            old(self).wf(),
        ensures
            final(self).follows(old(self)),
            r == old(self)@.owner(id),
            final(self)@ == old(self)@,
            final(self).event_log() == old(self).event_log(),
            r is Err ==> *final(self) == *old(self),
    {
        if !self.storage.instance_is_live() {
            return Err(Error::NotFound);
        }
        let a = read_owner(&self.storage, id)?;
        self.renew_instance();
        Ok(a)
    }

    /// The ids recorded for `owner`, from the reverse index.
    pub fn get_all_owned(&mut self, owner: Address) -> (r: Vec<i128>)
        requires
            old(self).wf(),
        ensures
            final(self).follows(old(self)),
            r@ == old(self)@.get_all_owned(owner),
            final(self)@ == old(self)@,
            final(self).event_log() == old(self).event_log(),
    {
        if !self.storage.instance_is_live() {
            return Vec::new();
        }
        self.renew_instance();
        read_all_owned(&self.storage, owner)
    }

    /// Approves `operator` for token `id`; the caller must prove to be
    /// `owner`, and `owner` must own the token.
    pub fn appr(&mut self, auth: &Capability, owner: Address, operator: Address, id: i128) -> (r: Result<(), Error>)
        requires
            old(self).wf(),
        ensures
            final(self).follows(old(self)),
            match old(self)@.appr(auth.holder(), owner, operator, id) {
                Ok(next) => r is Ok && final(self)@ == next && final(self).event_log() == old(
                    self,
                ).event_log().push(Event::Approve { operator, id }),
                Err(e) => r == Err::<(), Error>(e) && *final(self) == *old(self),
            },
    {
        if !self.storage.instance_is_live() {
            return Err(Error::NotFound);
        }
        if auth.identity() != owner {
            return Err(Error::NotAuthorized);
        }
        check_owner(&self.storage, &owner, id)?;
        self.renew_instance();
        write_approval(&mut self.storage, id, Some(operator));
        proof {
            assert(self@ =~= old(self)@.appr(auth.holder(), owner, operator, id)->Ok_0);
        }
        self.events.push(Event::Approve { operator, id });
        Ok(())
    }

    /// Grants or revokes `operator`'s approval for every token of `owner`;
    /// the caller must prove to be `owner`.
    pub fn appr_all(&mut self, auth: &Capability, owner: Address, operator: Address, approved: bool) -> (r: Result<(), Error>)
        requires
            old(self).wf(),
        ensures
            final(self).follows(old(self)),
            match old(self)@.appr_all(auth.holder(), owner, operator, approved) {
                Ok(next) => r is Ok && final(self)@ == next && final(self).event_log() == old(
                    self,
                ).event_log().push(Event::ApproveAll { operator, owner, approved }),
                Err(e) => r == Err::<(), Error>(e) && *final(self) == *old(self),
            },
    {
        if !self.storage.instance_is_live() {
            return Err(Error::NotFound);
        }
        if auth.identity() != owner {
            return Err(Error::NotAuthorized);
        }
        self.renew_instance();
        write_approval_all(&mut self.storage, owner, operator, approved);
        proof {
            assert(self@ =~= old(self)@.appr_all(auth.holder(), owner, operator, approved)->Ok_0);
        }
        self.events.push(Event::ApproveAll { operator, owner, approved });
        Ok(())
    }

    fn move_token(&mut self, id: i128, to: Address)
        requires
            old(self).wf(),
            old(self).storage.instance_live(),
        ensures
            final(self).follows(old(self)),
            final(self).events == old(self).events,
            final(self)@ == old(self)@.moved(id, to, old(self).config.clear_approval_on_transfer),
    {
        write_owner(&mut self.storage, id, Some(to));
        let ghost s1 = self.storage;
        if self.config.clear_approval_on_transfer {
            write_approval(&mut self.storage, id, None);
        }
        proof {
            let before = old(self)@;
            let after = before.reassign(id, Some(to));
            assert forall|a: Address| #[trigger] self@.owned[a] == after.owned[a] by {
                assert(self@.owned[a] == crate::owner::stored_owned(&self.storage, a));
                assert(crate::owner::stored_owned(&s1, a) == crate::owner::owned_after(&old(self).storage, id, Some(to), a));
                assert(crate::owner::stored_owned(&self.storage, a) == crate::owner::stored_owned(&s1, a));
                assert(before.owned[a] == crate::owner::stored_owned(&old(self).storage, a));
                assert(before.owner_of(id) == crate::owner::stored_owner(&old(self).storage, id));
            }
            assert(self@.owned =~= after.owned);
            assert(self@.owners =~= after.owners);
            assert(self@ =~= old(self)@.moved(id, to, self.config.clear_approval_on_transfer));
        }
    }

    /// Moves token `id` from `from` to `to`; the caller must prove to be
    /// `from`, and `from` must own the token. Whether the token's approval
    /// survives is `clear_approval_on_transfer`'s choice.
    pub fn transfer(&mut self, auth: &Capability, from: Address, to: Address, id: i128) -> (r: Result<(), Error>)
        requires
            old(self).wf(),
        ensures
            final(self).follows(old(self)),
            match old(self)@.transfer(auth.holder(), from, to, id, old(self).config().clear_approval_on_transfer) {
                Ok(next) => r is Ok && final(self)@ == next && final(self).event_log() == old(
                    self,
                ).event_log().push(Event::Transfer { from, to, id }),
                Err(e) => r == Err::<(), Error>(e) && *final(self) == *old(self),
            },
    {
        if !self.storage.instance_is_live() {
            return Err(Error::NotFound);
        }
        check_owner(&self.storage, &from, id)?;
        if auth.identity() != from {
            return Err(Error::NotAuthorized);
        }
        self.renew_instance();
        self.move_token(id, to);
        self.events.push(Event::Transfer { from, to, id });
        Ok(())
    }

    /// `spender` moves token `id` from `from` to `to`. The caller must prove
    /// to be `spender`, `from` must own the token, and `spender` must hold a
    /// blanket approval from `from` or the token's single-token approval.
    /// The approvals read on the way are renewed.
    pub fn transfer_from(
        &mut self,
        auth: &Capability,
        spender: Address,
        from: Address,
        to: Address,
        id: i128,
    ) -> (r: Result<(), Error>)
        requires
            old(self).wf(),
        ensures
            final(self).follows(old(self)),
            match old(self)@.transfer_from(
                auth.holder(),
                spender,
                from,
                to,
                id,
                old(self).config().clear_approval_on_transfer,
            ) {
                Ok(next) => r is Ok && final(self)@ == next && final(self).event_log() == old(
                    self,
                ).event_log().push(Event::Transfer { from, to, id }),
                Err(e) => r == Err::<(), Error>(e) && *final(self) == *old(self),
            },
    {
        if !self.storage.instance_is_live() {
            return Err(Error::NotFound);
        }
        check_owner(&self.storage, &from, id)?;
        if auth.identity() != spender {
            return Err(Error::NotAuthorized);
        }
        let blanket = approval_all_of(&self.storage, from, spender);
        let single = approval_of(&self.storage, id);
        if !(blanket || single == Some(spender)) {
            return Err(Error::NotAuthorized);
        }
        self.renew_instance();
        let ghost s1 = self.storage;
        if !read_approval_all(&mut self.storage, from, spender) {
            let _ = read_approval(&mut self.storage, id);
        }
        proof {
            lemma_same_view(&s1, &self.storage, self.config.admin_tier);
        }
        self.move_token(id, to);
        self.events.push(Event::Transfer { from, to, id });
        Ok(())
    }
}

} // verus!
