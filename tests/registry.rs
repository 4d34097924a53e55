use nftoken::{
    Address, Capability, Config, DataKey, Error, Event, LedgerInfo, NFToken, Storage, Tier, Value,
};

fn default_ledger() -> LedgerInfo {
    LedgerInfo { sequence: 0, temporary_ttl: 16, persistent_ttl: 4096 }
}

fn setup_test_token(ledger: LedgerInfo, config: Config, admin: Address) -> NFToken {
    let mut token = NFToken::new(ledger, config);
    token.initialize(admin).unwrap();
    token
}

fn account(n: u64) -> Address {
    Address::from_id(n)
}

#[test]
fn test_initialize() {
    let mut token = NFToken::new(default_ledger(), Config::vulnerable());
    let admin = account(1);
    token.initialize(admin).unwrap();
    assert_eq!(admin, token.admin().unwrap());
}

#[test]
fn test_mint_new() {
    let admin = account(1);
    let mut token = setup_test_token(default_ledger(), Config::vulnerable(), admin);
    let to = account(2);
    token.mint_new(&Capability::new(admin), to).unwrap();
    assert_eq!(to, token.owner(0).unwrap());
}

#[test]
fn test_unauthorized_burn_exploit() {
    let admin = account(1);
    let mut token = setup_test_token(default_ledger(), Config::vulnerable(), admin);
    let user_1 = account(2);
    token.mint_new(&Capability::new(admin), user_1).unwrap();
    assert_eq!(user_1, token.owner(0).unwrap());
    // anyone may burn: the vulnerable configuration skips the owner check
    let stranger = Capability::new(account(9));
    token.burn(&stranger, 0).unwrap();
    assert_eq!(token.owner(0), Err(Error::NotFound));
}

#[test]
#[should_panic]
fn test_temporary_admin_exploit() {
    let ledger = LedgerInfo { sequence: 100_000, temporary_ttl: 100, persistent_ttl: 500 };
    let admin = account(1);
    let mut token = setup_test_token(ledger, Config::vulnerable(), admin);
    assert_eq!(admin, token.admin().unwrap());
    token.set_sequence(100_000 + 101);
    let _admin_address = token.admin().unwrap();
}

#[test]
fn test_approve_exploit() {
    let admin = account(1);
    let mut token = setup_test_token(default_ledger(), Config::vulnerable(), admin);
    let user_1 = account(2);
    let user_2 = account(3);
    let user_3 = account(4);

    token.mint_new(&Capability::new(admin), user_1).unwrap();
    assert_eq!(user_1, token.owner(0).unwrap());

    token.appr(&Capability::new(user_1), user_1, user_2, 0).unwrap();
    assert_eq!(false, token.is_appr(user_1, user_2));
    assert_eq!(user_2, token.get_appr(0).unwrap());

    token.transfer(&Capability::new(user_1), user_1, user_3, 0).unwrap();
    // the approval survives the transfer
    assert_eq!(user_2, token.get_appr(0).unwrap());

    token.transfer_from(&Capability::new(user_2), user_2, user_3, user_1, 0).unwrap();
    assert_eq!(user_1, token.owner(0).unwrap());
}

#[test]
fn hardened_transfer_clears_approval() {
    let admin = account(1);
    let mut token = setup_test_token(default_ledger(), Config::hardened(), admin);
    let (a, b, c, d) = (account(2), account(3), account(4), account(5));
    token.mint_new(&Capability::new(admin), a).unwrap();
    token.appr(&Capability::new(a), a, b, 0).unwrap();
    assert_eq!(token.get_appr(0), Ok(b));
    token.transfer(&Capability::new(a), a, c, 0).unwrap();
    assert_eq!(token.get_appr(0), Err(Error::NotFound));
    assert_eq!(
        token.transfer_from(&Capability::new(b), b, c, d, 0),
        Err(Error::NotAuthorized)
    );
    assert_eq!(token.owner(0), Ok(c));
}

#[test]
fn scenario_mint_approve_transfer_both_policies() {
    for config in [Config::vulnerable(), Config::hardened()] {
        let admin = account(1);
        let mut token = setup_test_token(default_ledger(), config, admin);
        let (a, b, c, d) = (account(2), account(3), account(4), account(5));
        token.mint_new(&Capability::new(admin), a).unwrap();
        assert_eq!(token.owner(0), Ok(a));
        token.appr(&Capability::new(a), a, b, 0).unwrap();
        assert_eq!(token.get_appr(0), Ok(b));
        token.transfer(&Capability::new(a), a, c, 0).unwrap();
        let moved = token.transfer_from(&Capability::new(b), b, c, d, 0);
        if config.clear_approval_on_transfer {
            assert_eq!(token.get_appr(0), Err(Error::NotFound));
            assert_eq!(moved, Err(Error::NotAuthorized));
            assert_eq!(token.owner(0), Ok(c));
        } else {
            assert_eq!(token.get_appr(0), Ok(b));
            assert_eq!(moved, Ok(()));
            assert_eq!(token.owner(0), Ok(d));
        }
    }
}

#[test]
fn initialize_twice_fails() {
    let mut token = setup_test_token(default_ledger(), Config::hardened(), account(1));
    assert_eq!(token.initialize(account(2)), Err(Error::AlreadyInitialized));
    assert_eq!(token.admin(), Ok(account(1)));
}

#[test]
fn admin_missing_is_not_found() {
    let mut token = NFToken::new(default_ledger(), Config::vulnerable());
    assert_eq!(token.admin(), Err(Error::NotFound));
    assert_eq!(token.mint_new(&Capability::new(account(1)), account(2)), Err(Error::NotFound));
}

#[test]
fn temporary_admin_expires_but_persistent_one_does_not() {
    let ledger = LedgerInfo { sequence: 100_000, temporary_ttl: 100, persistent_ttl: 500 };
    let mut weak = setup_test_token(ledger, Config::vulnerable(), account(1));
    let mut strong = setup_test_token(ledger, Config::hardened(), account(1));
    weak.set_sequence(100_100);
    assert_eq!(weak.admin(), Ok(account(1)));
    weak.set_sequence(100_101);
    assert_eq!(weak.admin(), Err(Error::NotFound));
    // with the administrator gone, anyone can initialize again
    assert_eq!(weak.initialize(account(7)), Ok(()));
    strong.set_sequence(100_101);
    assert_eq!(strong.admin(), Ok(account(1)));
    assert_eq!(strong.initialize(account(7)), Err(Error::AlreadyInitialized));
}

#[test]
fn set_admin_requires_current_admin() {
    let mut token = setup_test_token(default_ledger(), Config::hardened(), account(1));
    assert_eq!(
        token.set_admin(&Capability::new(account(2)), account(2)),
        Err(Error::NotAuthorized)
    );
    token.set_admin(&Capability::new(account(1)), account(2)).unwrap();
    assert_eq!(token.admin(), Ok(account(2)));
    assert_eq!(
        token.events().last(),
        Some(&Event::SetAdmin { admin: account(1), new_admin: account(2) })
    );
    assert_eq!(
        token.mint_new(&Capability::new(account(1)), account(3)),
        Err(Error::NotAuthorized)
    );
}

#[test]
fn mints_take_consecutive_ids() {
    let admin = account(1);
    let mut token = setup_test_token(default_ledger(), Config::hardened(), admin);
    let cap = Capability::new(admin);
    for n in 0..5u64 {
        token.mint_new(&cap, account(10 + n)).unwrap();
    }
    for n in 0..5u64 {
        assert_eq!(token.owner(n as i128), Ok(account(10 + n)));
    }
    assert_eq!(token.owner(5), Err(Error::NotFound));
    assert_eq!(
        token.events()[2],
        Event::Mint { to: account(12), id: 2 }
    );
}

#[test]
fn transfer_rejects_wrong_owner_or_caller() {
    let admin = account(1);
    let mut token = setup_test_token(default_ledger(), Config::vulnerable(), admin);
    let (a, b, c) = (account(2), account(3), account(4));
    token.mint_new(&Capability::new(admin), a).unwrap();
    // `from` is not the owner
    assert_eq!(token.transfer(&Capability::new(b), b, c, 0), Err(Error::NotAuthorized));
    // the caller cannot prove to be `from`
    assert_eq!(token.transfer(&Capability::new(b), a, c, 0), Err(Error::NotAuthorized));
    // no such token
    assert_eq!(token.transfer(&Capability::new(a), a, c, 7), Err(Error::NotFound));
    assert_eq!(token.owner(0), Ok(a));
    token.transfer(&Capability::new(a), a, c, 0).unwrap();
    assert_eq!(token.owner(0), Ok(c));
}

#[test]
fn burn_then_owner_not_found_and_ids_not_reused() {
    let admin = account(1);
    let mut token = setup_test_token(default_ledger(), Config::hardened(), admin);
    let a = account(2);
    token.mint_new(&Capability::new(admin), a).unwrap();
    assert_eq!(token.burn(&Capability::new(account(3)), 0), Err(Error::NotAuthorized));
    token.burn(&Capability::new(a), 0).unwrap();
    assert_eq!(token.owner(0), Err(Error::NotFound));
    assert_eq!(token.burn(&Capability::new(a), 0), Err(Error::NotFound));
    token.mint_new(&Capability::new(admin), a).unwrap();
    assert_eq!(token.owner(0), Err(Error::NotFound));
    assert_eq!(token.owner(1), Ok(a));
    assert_eq!(token.get_all_owned(a), vec![1]);
}

#[test]
fn approval_round_trips() {
    let admin = account(1);
    let mut token = setup_test_token(default_ledger(), Config::vulnerable(), admin);
    let (a, b) = (account(2), account(3));
    token.mint_new(&Capability::new(admin), a).unwrap();
    assert_eq!(token.get_appr(0), Err(Error::NotFound));
    token.appr(&Capability::new(a), a, b, 0).unwrap();
    assert_eq!(token.get_appr(0), Ok(b));
    assert!(!token.is_appr(a, b));
    token.appr_all(&Capability::new(a), a, b, true).unwrap();
    assert!(token.is_appr(a, b));
    assert!(!token.is_appr(b, a));
    token.appr_all(&Capability::new(a), a, b, false).unwrap();
    assert!(!token.is_appr(a, b));
    assert_eq!(
        token.appr_all(&Capability::new(b), a, b, true),
        Err(Error::NotAuthorized)
    );
    assert_eq!(token.appr(&Capability::new(b), a, b, 0), Err(Error::NotAuthorized));
    assert_eq!(token.appr(&Capability::new(b), b, a, 0), Err(Error::NotAuthorized));
    assert_eq!(token.appr(&Capability::new(a), a, b, 4), Err(Error::NotFound));
}

#[test]
fn blanket_approval_allows_transfer_from() {
    let admin = account(1);
    let mut token = setup_test_token(default_ledger(), Config::hardened(), admin);
    let (a, op, c) = (account(2), account(3), account(4));
    token.mint_new(&Capability::new(admin), a).unwrap();
    token.mint_new(&Capability::new(admin), a).unwrap();
    assert_eq!(token.transfer_from(&Capability::new(op), op, a, c, 1), Err(Error::NotAuthorized));
    token.appr_all(&Capability::new(a), a, op, true).unwrap();
    assert_eq!(token.transfer_from(&Capability::new(a), op, a, c, 1), Err(Error::NotAuthorized));
    token.transfer_from(&Capability::new(op), op, a, c, 1).unwrap();
    assert_eq!(token.owner(1), Ok(c));
    assert_eq!(token.transfer_from(&Capability::new(op), op, a, c, 9), Err(Error::NotFound));
    assert_eq!(
        token.events().last(),
        Some(&Event::Transfer { from: a, to: c, id: 1 })
    );
}

#[test]
fn reverse_index_follows_ownership() {
    let admin = account(1);
    let mut token = setup_test_token(default_ledger(), Config::vulnerable(), admin);
    let (a, b) = (account(2), account(3));
    let cap = Capability::new(admin);
    token.mint_new(&cap, a).unwrap();
    token.mint_new(&cap, a).unwrap();
    token.mint_new(&cap, b).unwrap();
    assert_eq!(token.get_all_owned(a), vec![0, 1]);
    assert_eq!(token.get_all_owned(b), vec![2]);
    token.transfer(&Capability::new(a), a, b, 0).unwrap();
    assert_eq!(token.get_all_owned(a), vec![1]);
    assert_eq!(token.get_all_owned(b), vec![2, 0]);
    token.burn(&cap, 2).unwrap();
    assert_eq!(token.get_all_owned(b), vec![0]);
    assert_eq!(token.get_all_owned(account(8)), Vec::<i128>::new());
}

#[test]
fn failed_call_changes_nothing() {
    let admin = account(1);
    let mut token = setup_test_token(default_ledger(), Config::vulnerable(), admin);
    token.mint_new(&Capability::new(admin), account(2)).unwrap();
    let before = token.events().len();
    assert_eq!(token.transfer(&Capability::new(account(3)), account(3), account(4), 0), Err(Error::NotAuthorized));
    assert_eq!(token.events().len(), before);
    assert_eq!(token.owner(0), Ok(account(2)));
}

#[test]
fn expired_instance_refuses_changes() {
    let ledger = LedgerInfo { sequence: 10, temporary_ttl: 5, persistent_ttl: 50 };
    let admin = account(1);
    let mut token = setup_test_token(ledger, Config::hardened(), admin);
    token.mint_new(&Capability::new(admin), account(2)).unwrap();
    // created live until 60; the mint at 10 renewed it to 10 + INSTANCE_BUMP_AMOUNT
    let renewed_until = 10 + nftoken::INSTANCE_BUMP_AMOUNT;
    token.set_sequence(renewed_until + 1);
    assert_eq!(token.admin(), Err(Error::NotFound));
    assert_eq!(token.owner(0), Err(Error::NotFound));
    assert!(!token.is_appr(account(2), account(3)));
    assert_eq!(token.get_all_owned(account(2)), Vec::<i128>::new());
    assert_eq!(token.initialize(account(5)), Err(Error::NotFound));
}

#[test]
fn mint_at_top_of_id_range_is_refused() {
    let admin = account(1);
    let mut storage = Storage::new(default_ledger());
    storage.set(Tier::Temporary, DataKey::Admin, Value::Account(admin));
    storage.set(Tier::Instance, DataKey::Supply, Value::Count(i128::MAX - 1));
    let mut token = NFToken::load(storage, Config::vulnerable());
    assert_eq!(token.admin(), Ok(admin));
    token.mint_new(&Capability::new(admin), account(2)).unwrap();
    assert_eq!(token.owner(i128::MAX - 1), Ok(account(2)));
    assert_eq!(
        token.mint_new(&Capability::new(admin), account(2)),
        Err(Error::SupplyExhausted)
    );
    assert_eq!(token.owner(i128::MAX), Err(Error::NotFound));
}
