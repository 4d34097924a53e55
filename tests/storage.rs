use nftoken::{
    read_approval, read_approval_all, write_approval, write_approval_all, Address, DataKey, Error,
    LedgerInfo, Storage, Tier, Value, BALANCE_BUMP_AMOUNT,
};

fn ledger_at(sequence: u32) -> LedgerInfo {
    LedgerInfo { sequence, temporary_ttl: 100, persistent_ttl: 500 }
}

#[test]
fn entry_readable_through_its_ttl() {
    let mut s = Storage::new(ledger_at(1000));
    s.set(Tier::Temporary, DataKey::Supply, Value::Count(7));
    assert_eq!(s.tier_expiry(Tier::Temporary, &DataKey::Supply), Some(1100));
    s.set_sequence(1100);
    assert_eq!(s.get(Tier::Temporary, &DataKey::Supply), Some(&Value::Count(7)));
    assert!(s.has(Tier::Temporary, &DataKey::Supply));
    s.set_sequence(1101);
    assert_eq!(s.get(Tier::Temporary, &DataKey::Supply), None);
    assert!(!s.has(Tier::Temporary, &DataKey::Supply));
}

#[test]
fn renewal_below_threshold_moves_expiry_to_now_plus_bump() {
    let mut s = Storage::new(ledger_at(1000));
    s.set(Tier::Persistent, DataKey::Owner(3), Value::Flag(true));
    assert_eq!(s.tier_expiry(Tier::Persistent, &DataKey::Owner(3)), Some(1500));
    s.set_sequence(1499);
    s.extend_ttl(Tier::Persistent, &DataKey::Owner(3), 50, 200);
    assert_eq!(s.tier_expiry(Tier::Persistent, &DataKey::Owner(3)), Some(1699));
    s.set_sequence(1699);
    assert_eq!(s.get(Tier::Persistent, &DataKey::Owner(3)), Some(&Value::Flag(true)));
    s.set_sequence(1700);
    assert_eq!(s.get(Tier::Persistent, &DataKey::Owner(3)), None);
}

#[test]
fn renewal_above_threshold_is_a_no_op() {
    let mut s = Storage::new(ledger_at(1000));
    s.set(Tier::Persistent, DataKey::Owner(3), Value::Flag(true));
    s.extend_ttl(Tier::Persistent, &DataKey::Owner(3), 50, 200);
    assert_eq!(s.tier_expiry(Tier::Persistent, &DataKey::Owner(3)), Some(1500));
}

#[test]
fn expired_entry_is_not_renewed_and_set_restarts_it() {
    let mut s = Storage::new(ledger_at(1000));
    s.set(Tier::Temporary, DataKey::Admin, Value::Count(1));
    s.set_sequence(1200);
    s.extend_ttl(Tier::Temporary, &DataKey::Admin, 50, 200);
    assert_eq!(s.get(Tier::Temporary, &DataKey::Admin), None);
    s.set(Tier::Temporary, DataKey::Admin, Value::Count(2));
    assert_eq!(s.tier_expiry(Tier::Temporary, &DataKey::Admin), Some(1300));
}

#[test]
fn live_entry_keeps_expiry_when_overwritten() {
    let mut s = Storage::new(ledger_at(1000));
    s.set(Tier::Persistent, DataKey::Supply, Value::Count(1));
    s.set_sequence(1100);
    s.set(Tier::Persistent, DataKey::Supply, Value::Count(2));
    assert_eq!(s.tier_expiry(Tier::Persistent, &DataKey::Supply), Some(1500));
    assert_eq!(s.get(Tier::Persistent, &DataKey::Supply), Some(&Value::Count(2)));
}

#[test]
fn tiers_are_separate() {
    let mut s = Storage::new(ledger_at(0));
    s.set(Tier::Temporary, DataKey::Supply, Value::Count(1));
    assert_eq!(s.get(Tier::Persistent, &DataKey::Supply), None);
    assert_eq!(s.get(Tier::Instance, &DataKey::Supply), None);
}

#[test]
fn approval_read_renews_and_revocation_unsets() {
    let mut s = Storage::new(ledger_at(1000));
    let op = Address::from_id(5);
    write_approval(&mut s, 0, Some(op));
    let first = s.tier_expiry(Tier::Persistent, &nftoken::DataKey::Approval(nftoken::ApprovalKey::ID(0)));
    assert_eq!(first, Some(1000 + BALANCE_BUMP_AMOUNT as u64));
    s.set_sequence(1000 + 100_000);
    assert_eq!(read_approval(&mut s, 0), Ok(op));
    let renewed = s.tier_expiry(Tier::Persistent, &nftoken::DataKey::Approval(nftoken::ApprovalKey::ID(0)));
    assert_eq!(renewed, Some(1000 + 100_000 + BALANCE_BUMP_AMOUNT as u64));
    write_approval(&mut s, 0, None);
    assert_eq!(read_approval(&mut s, 0), Err(Error::NotFound));
}

#[test]
fn blanket_approval_defaults_to_false() {
    let mut s = Storage::new(ledger_at(0));
    let (owner, op) = (Address::from_id(1), Address::from_id(2));
    assert!(!read_approval_all(&mut s, owner, op));
    write_approval_all(&mut s, owner, op, true);
    assert!(read_approval_all(&mut s, owner, op));
    assert!(!read_approval_all(&mut s, op, owner));
    write_approval_all(&mut s, owner, op, false);
    assert!(!read_approval_all(&mut s, owner, op));
}
