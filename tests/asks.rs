use ask_network::address::{ask_address, user_address, Address};
use ask_network::error::ErrorCode;
use ask_network::ledger::Ledger;
use ask_network::state::{Ask, Record, User};

const FUNDS: u64 = 1_000_000_000;

fn program() -> Address {
    Address::new([7u8; 32])
}

fn treasury() -> Address {
    Address::new([9u8; 32])
}

fn identity(b: u8) -> Address {
    Address::new([b; 32])
}

fn rent(space: u64) -> u64 {
    (128 + space) * 6960
}

fn setup(owner: &Address) -> Ledger {
    let mut l = Ledger::new(program(), treasury());
    l.credit(owner, FUNDS).unwrap();
    l.initialize_user(owner).unwrap();
    l
}

fn ask_at(l: &Ledger, a: &Address) -> (u64, String, u64, usize, u64) {
    let acct = l.get(a).expect("ask present");
    match &acct.record {
        Record::Ask(ask) => (ask.ordinal, ask.content.clone(), ask.stake, acct.space, acct.lamports),
        _ => panic!("not an ask"),
    }
}

fn user_at(l: &Ledger, owner: &Address) -> User {
    let ua = user_address(&l.program, owner).unwrap();
    match &l.get(&ua).expect("user present").record {
        Record::User(u) => *u,
        _ => panic!("not a user"),
    }
}

#[test]
fn initialize_user_starts_at_zero_and_charges_rent() {
    let a = identity(1);
    let l = setup(&a);
    let u = user_at(&l, &a);
    assert_eq!(u.running_ask_ordinal, 0);
    assert_eq!(u.total_staked, 0);
    assert_eq!(l.balance(&a), FUNDS - rent(24));
}

#[test]
fn initialize_user_twice_is_address_in_use() {
    let a = identity(1);
    let mut l = setup(&a);
    let before = l.balance(&a);
    assert!(matches!(l.initialize_user(&a), Err(ErrorCode::AddressAlreadyInUse)));
    assert_eq!(l.balance(&a), before);
}

#[test]
fn initialize_user_without_funds_fails() {
    let mut l = Ledger::new(program(), treasury());
    let a = identity(3);
    assert!(matches!(l.initialize_user(&a), Err(ErrorCode::InsufficientFunds)));
    assert!(l.accounts.is_empty());
}

#[test]
fn place_ask_without_identity_is_not_found() {
    let mut l = Ledger::new(program(), treasury());
    let a = identity(1);
    l.credit(&a, FUNDS).unwrap();
    assert!(matches!(l.place_ask(&a, "hello".to_string()), Err(ErrorCode::RecordNotFound)));
    assert_eq!(l.accounts.len(), 1);
}

#[test]
fn ask_ordinals_are_consecutive() {
    let a = identity(1);
    let mut l = setup(&a);
    for expected in 0u64..4 {
        let addr = l.place_ask(&a, format!("ask {}", expected)).unwrap();
        assert_eq!(Some(addr.bytes), ask_address(&l.program, &a, expected).map(|x| x.bytes));
        assert_eq!(ask_at(&l, &addr).0, expected);
    }
    assert_eq!(user_at(&l, &a).running_ask_ordinal, 4);
}

#[test]
fn ordinals_are_per_identity() {
    let a = identity(1);
    let b = identity(2);
    let mut l = setup(&a);
    l.credit(&b, FUNDS).unwrap();
    l.initialize_user(&b).unwrap();
    let a0 = l.place_ask(&a, "x".to_string()).unwrap();
    let b0 = l.place_ask(&b, "y".to_string()).unwrap();
    let a1 = l.place_ask(&a, "z".to_string()).unwrap();
    assert_eq!(ask_at(&l, &a0).0, 0);
    assert_eq!(ask_at(&l, &b0).0, 0);
    assert_eq!(ask_at(&l, &a1).0, 1);
    assert_ne!(a0.bytes, b0.bytes);
}

#[test]
fn ask_storage_is_header_prefix_and_content() {
    let a = identity(1);
    let mut l = setup(&a);
    let before = l.balance(&a);
    let addr = l.place_ask(&a, "hello".to_string()).unwrap();
    let (_, content, stake, space, lamports) = ask_at(&l, &addr);
    assert_eq!(content, "hello");
    assert_eq!(stake, 0);
    assert_eq!(space, 24 + 4 + 5);
    assert_eq!(Ask::size(5), 33);
    assert_eq!(lamports, rent(33));
    assert_eq!(l.balance(&a), before - rent(33));
}

#[test]
fn multibyte_content_is_measured_in_bytes() {
    let a = identity(1);
    let mut l = setup(&a);
    let addr = l.place_ask(&a, "héllo".to_string()).unwrap();
    assert_eq!(ask_at(&l, &addr).3, 24 + 4 + 6);
}

#[test]
fn scenario_place_cancel_update() {
    let a = identity(1);
    let mut l = setup(&a);
    let first = l.place_ask(&a, "hello".to_string()).unwrap();
    assert_eq!(ask_at(&l, &first).0, 0);
    assert_eq!(ask_at(&l, &first).1, "hello");
    let second = l.place_ask(&a, "world".to_string()).unwrap();
    assert_eq!(ask_at(&l, &second).0, 1);

    let before = l.balance(&a);
    let backing = l.get(&first).unwrap().lamports;
    let refund = l.cancel_ask(&a, 0).unwrap();
    assert_eq!(refund, backing);
    assert!(l.get(&first).is_none());
    assert_eq!(l.balance(&a), before + backing);

    let before = l.balance(&a);
    l.update_ask(&a, 1, "world!".to_string()).unwrap();
    let (ordinal, content, _, space, lamports) = ask_at(&l, &second);
    assert_eq!(ordinal, 1);
    assert_eq!(content, "world!");
    assert_eq!(space, 24 + 4 + 6);
    assert_eq!(lamports, rent(34));
    assert_eq!(l.balance(&a), before - (rent(34) - rent(33)));
}

#[test]
fn cancelled_ask_is_gone_for_every_operation() {
    let a = identity(1);
    let mut l = setup(&a);
    l.place_ask(&a, "hello".to_string()).unwrap();
    l.cancel_ask(&a, 0).unwrap();
    assert_eq!(l.cancel_ask(&a, 0), Err(ErrorCode::RecordNotFound));
    assert_eq!(l.update_ask(&a, 0, "again".to_string()), Err(ErrorCode::RecordNotFound));
    assert_eq!(l.prioritize_ask(&a, 0, 5), Err(ErrorCode::RecordNotFound));
    let next = l.place_ask(&a, "new".to_string()).unwrap();
    assert_eq!(ask_at(&l, &next).0, 1);
}

#[test]
fn update_shrinks_and_refunds() {
    let a = identity(1);
    let mut l = setup(&a);
    let addr = l.place_ask(&a, "a long piece of text".to_string()).unwrap();
    let before = l.balance(&a);
    l.update_ask(&a, 0, "short".to_string()).unwrap();
    let (_, content, _, space, lamports) = ask_at(&l, &addr);
    assert_eq!(content, "short");
    assert_eq!(space, 33);
    assert_eq!(lamports, rent(33));
    assert_eq!(l.balance(&a), before + (rent(48) - rent(33)));
}

#[test]
fn update_to_same_length_keeps_storage() {
    let a = identity(1);
    let mut l = setup(&a);
    let addr = l.place_ask(&a, "hello".to_string()).unwrap();
    let before = l.balance(&a);
    l.update_ask(&a, 0, "howdy".to_string()).unwrap();
    assert_eq!(ask_at(&l, &addr).1, "howdy");
    assert_eq!(ask_at(&l, &addr).3, 33);
    assert_eq!(l.balance(&a), before);
}

#[test]
fn update_of_unknown_ordinal_is_not_found() {
    let a = identity(1);
    let mut l = setup(&a);
    assert_eq!(l.update_ask(&a, 3, "x".to_string()), Err(ErrorCode::RecordNotFound));
}

#[test]
fn update_growing_beyond_the_resize_limit_is_rejected() {
    let a = identity(1);
    let mut l = setup(&a);
    l.place_ask(&a, "x".to_string()).unwrap();
    let before = l.balance(&a);
    let big = "y".repeat(10_241 + 1);
    assert_eq!(l.update_ask(&a, 0, big), Err(ErrorCode::SizeMismatch));
    assert_eq!(l.balance(&a), before);
}

#[test]
fn update_without_funds_for_growth_changes_nothing() {
    let a = identity(1);
    let mut l = Ledger::new(program(), treasury());
    l.credit(&a, rent(24) + rent(29)).unwrap();
    l.initialize_user(&a).unwrap();
    let addr = l.place_ask(&a, "x".to_string()).unwrap();
    assert_eq!(l.balance(&a), 0);
    assert_eq!(l.update_ask(&a, 0, "xy".to_string()), Err(ErrorCode::InsufficientFunds));
    assert_eq!(ask_at(&l, &addr).1, "x");
}

#[test]
fn prioritize_adds_stake_to_ask_and_user() {
    let a = identity(1);
    let mut l = setup(&a);
    let addr = l.place_ask(&a, "hello".to_string()).unwrap();
    l.prioritize_ask(&a, 0, 40).unwrap();
    l.prioritize_ask(&a, 0, 2).unwrap();
    assert_eq!(ask_at(&l, &addr).2, 42);
    assert_eq!(user_at(&l, &a).total_staked, 42);
    assert_eq!(l.prioritize_ask(&a, 0, u64::MAX), Err(ErrorCode::ArithmeticOverflow));
    assert_eq!(ask_at(&l, &addr).2, 42);
}

#[test]
fn sign_up_user_creates_the_identity_record() {
    let a = identity(4);
    let mut l = Ledger::new(program(), treasury());
    l.credit(&a, FUNDS).unwrap();
    let ua = l.sign_up_user(&a).unwrap();
    assert_eq!(Some(ua.bytes), user_address(&l.program, &a).map(|x| x.bytes));
    assert_eq!(user_at(&l, &a).running_ask_ordinal, 0);
    assert!(matches!(l.initialize_user(&a), Err(ErrorCode::AddressAlreadyInUse)));
}
