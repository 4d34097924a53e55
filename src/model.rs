use vstd::prelude::*;
use crate::admin::stored_admin;
use crate::approval::{stored_approval, stored_approval_all};
use crate::owner::{stored_owned, stored_owner, stored_supply, without};
use crate::storage::{Storage, Tier};
use crate::types::{Address, ApprovalAll, Error};

verus! {

/// The registry as its callers see it at the current ledger sequence.
#[verifier::ext_equal]
pub struct Registry {
    /// The registry instance has not expired; an expired one refuses every
    /// change and reads as empty.
    pub live: bool,
    pub admin: Option<Address>,
    /// The id the next mint takes.
    pub supply: i128,
    pub owners: Map<i128, Address>,
    /// The reverse index, for every account.
    pub owned: Map<Address, Seq<i128>>,
    /// Single-token approvals.
    pub approvals: Map<i128, Address>,
    /// Blanket approvals.
    pub operators: Set<ApprovalAll>,
}

/// What `s` shows now, with the administrator kept in tier `admin_tier`.
pub open spec fn registry_of(s: &Storage, admin_tier: Tier) -> Registry {
    Registry {
        live: s.instance_live(),
        admin: stored_admin(s, admin_tier),
        supply: stored_supply(s),
        owners: Map::new(|id: i128| stored_owner(s, id) is Some, |id: i128| stored_owner(s, id)->0),
        owned: Map::new(|a: Address| true, |a: Address| stored_owned(s, a)),
        approvals: Map::new(
            |id: i128| stored_approval(s, id) is Some,
            |id: i128| stored_approval(s, id)->0,
        ),
        operators: Set::new(|k: ApprovalAll| stored_approval_all(s, k.owner, k.operator)),
    }
}

impl Registry {
    pub open spec fn owner_of(self, id: i128) -> Option<Address> {
        if self.owners.contains_key(id) {
            Some(self.owners[id])
        } else {
            None
        }
    }

    pub open spec fn approval_of(self, id: i128) -> Option<Address> {
        if self.approvals.contains_key(id) {
            Some(self.approvals[id])
        } else {
            None
        }
    }

    /// Token `id` passes to `next` (`None` burns it); the reverse index
    /// follows.
    pub open spec fn reassign(self, id: i128, next: Option<Address>) -> Registry {
        Registry {
            owners: match next {
                Some(a) => self.owners.insert(id, a),
                None => self.owners.remove(id),
            },
            owned: Map::new(
                |a: Address| true,
                |a: Address|
                    {
                        let base = if self.owner_of(id) == Some(a) {
                            without(self.owned[a], id)
                        } else {
                            self.owned[a]
                        };
                        if next == Some(a) {
                            base.push(id)
                        } else {
                            base
                        }
                    },
            ),
            ..self
        }
    }

    /// Token `id` moves to `to`; with `clear`, its single-token approval is
    /// dropped.
    pub open spec fn moved(self, id: i128, to: Address, clear: bool) -> Registry {
        let r = self.reassign(id, Some(to));
        if clear {
            Registry { approvals: r.approvals.remove(id), ..r }
        } else {
            r
        }
    }

    pub open spec fn admin(self) -> Result<Address, Error> {
        if self.live && self.admin is Some {
            Ok(self.admin->0)
        } else {
            Err(Error::NotFound)
        }
    }

    pub open spec fn owner(self, id: i128) -> Result<Address, Error> {
        if self.live && self.owner_of(id) is Some {
            Ok(self.owner_of(id)->0)
        } else {
            Err(Error::NotFound)
        }
    }

    pub open spec fn get_appr(self, id: i128) -> Result<Address, Error> {
        if self.live && self.approval_of(id) is Some {
            Ok(self.approval_of(id)->0)
        } else {
            Err(Error::NotFound)
        }
    }

    pub open spec fn is_appr(self, owner: Address, operator: Address) -> bool {
        self.live && self.operators.contains(ApprovalAll { operator, owner })
    }

    pub open spec fn get_all_owned(self, owner: Address) -> Seq<i128> {
        if self.live {
            self.owned[owner]
        } else {
            Seq::empty()
        }
    }

    pub open spec fn initialize(self, admin: Address) -> Result<Registry, Error> {
        if !self.live {
            Err(Error::NotFound)
        } else if self.admin is Some {
            Err(Error::AlreadyInitialized)
        } else {
            Ok(Registry { admin: Some(admin), ..self })
        }
    }

    pub open spec fn set_admin(self, caller: Address, new_admin: Address) -> Result<Registry, Error> {
        if !self.live || self.admin is None {
            Err(Error::NotFound)
        } else if caller != self.admin->0 {
            Err(Error::NotAuthorized)
        } else {
            Ok(Registry { admin: Some(new_admin), ..self })
        }
    }

    pub open spec fn mint_new(self, caller: Address, to: Address) -> Result<Registry, Error> {
        if !self.live || self.admin is None {
            Err(Error::NotFound)
        } else if caller != self.admin->0 {
            Err(Error::NotAuthorized)
        } else if self.supply == i128::MAX {
            Err(Error::SupplyExhausted)
        } else {
            Ok(Registry { supply: (self.supply + 1) as i128, ..self.reassign(self.supply, Some(to)) })
        }
    }

    /// With `owner_checked` false the caller is not checked at all: anyone
    /// can burn any token.
    pub open spec fn burn(self, caller: Address, id: i128, owner_checked: bool) -> Result<
        Registry,
        Error,
    > {
        if !self.live || self.owner_of(id) is None {
            Err(Error::NotFound)
        } else if owner_checked && caller != self.owner_of(id)->0 {
            Err(Error::NotAuthorized)
        } else {
            Ok(self.reassign(id, None))
        }
    }

    pub open spec fn appr(self, caller: Address, owner: Address, operator: Address, id: i128) -> Result<
        Registry,
        Error,
    > {
        if !self.live {
            Err(Error::NotFound)
        } else if caller != owner {
            Err(Error::NotAuthorized)
        } else if self.owner_of(id) is None {
            Err(Error::NotFound)
        } else if self.owner_of(id) != Some(owner) {
            Err(Error::NotAuthorized)
        } else {
            Ok(Registry { approvals: self.approvals.insert(id, operator), ..self })
        }
    }

    pub open spec fn appr_all(self, caller: Address, owner: Address, operator: Address, approved: bool) -> Result<
        Registry,
        Error,
    > {
        let k = ApprovalAll { operator, owner };
        if !self.live {
            Err(Error::NotFound)
        } else if caller != owner {
            Err(Error::NotAuthorized)
        } else {
            Ok(
                Registry {
                    operators: if approved {
                        self.operators.insert(k)
                    } else {
                        self.operators.remove(k)
                    },
                    ..self
                },
            )
        }
    }

    pub open spec fn transfer(self, caller: Address, from: Address, to: Address, id: i128, clear: bool) -> Result<
        Registry,
        Error,
    > {
        if !self.live || self.owner_of(id) is None {
            Err(Error::NotFound)
        } else if self.owner_of(id) != Some(from) || caller != from {
            Err(Error::NotAuthorized)
        } else {
            Ok(self.moved(id, to, clear))
        }
    }

    /// `spender` moves the token of `from`, holding either a blanket
    /// approval from `from` or the token's single-token approval.
    pub open spec fn transfer_from(
        self,
        caller: Address,
        spender: Address,
        from: Address,
        to: Address,
        id: i128,
        clear: bool,
    ) -> Result<Registry, Error> {
        if !self.live || self.owner_of(id) is None {
            Err(Error::NotFound)
        } else if self.owner_of(id) != Some(from) || caller != spender {
            Err(Error::NotAuthorized)
        } else if !(self.operators.contains(ApprovalAll { operator: spender, owner: from })
            || self.approval_of(id) == Some(spender)) {
            Err(Error::NotAuthorized)
        } else {
            Ok(self.moved(id, to, clear))
        }
    }
}

} // verus!
