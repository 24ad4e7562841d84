use anchor_lang::prelude::Pubkey;
use anchor_lang::solana_program::rent::Rent;
use ask_network::address::{
    ask_address, claim_mint_address, derive_address, le_bytes_of, user_address, Address,
};
use ask_network::error::ErrorCode;
use ask_network::ledger::Ledger;
use ask_network::lifecycle::record_fits;
use ask_network::state::{text_len_of, Ask, Global, Organization, Record, User};

fn program() -> Address {
    Address::new([7u8; 32])
}

#[test]
fn derivation_is_deterministic() {
    let owner = Address::new([1u8; 32]);
    let a = ask_address(&program(), &owner, 3).unwrap();
    let b = ask_address(&program(), &owner, 3).unwrap();
    assert_eq!(a.bytes, b.bytes);
}

#[test]
fn derivation_matches_the_runtime_search() {
    let owner = Address::new([1u8; 32]);
    let pid = Pubkey::new_from_array(program().bytes);
    let (expected, _) = Pubkey::find_program_address(&[&owner.bytes], &pid);
    let got = user_address(&program(), &owner).unwrap();
    assert_eq!(got.bytes, expected.to_bytes());
    assert_ne!(got.bytes, owner.bytes);
    let (expected, _) = Pubkey::find_program_address(&[&owner.bytes, &5u64.to_le_bytes()], &pid);
    assert_eq!(ask_address(&program(), &owner, 5).unwrap().bytes, expected.to_bytes());
    let (expected, _) = Pubkey::find_program_address(&[b"treasury_claim_", &2u64.to_le_bytes()], &pid);
    assert_eq!(claim_mint_address(&program(), 2).unwrap().bytes, expected.to_bytes());
}

#[test]
fn distinct_owner_ordinal_pairs_do_not_collide() {
    let mut seen: Vec<[u8; 32]> = Vec::new();
    for owner in 0u8..4 {
        let o = Address::new([owner; 32]);
        seen.push(user_address(&program(), &o).unwrap().bytes);
        for ordinal in 0u64..8 {
            seen.push(ask_address(&program(), &o, ordinal).unwrap().bytes);
        }
    }
    let mut sorted = seen.clone();
    sorted.sort();
    sorted.dedup();
    assert_eq!(sorted.len(), seen.len());
}

#[test]
fn too_many_seeds_derive_nothing() {
    let seeds: Vec<Vec<u8>> = (0..16).map(|i| vec![i as u8]).collect();
    assert!(derive_address(&program(), &seeds).is_none());
    let long: Vec<Vec<u8>> = vec![vec![0u8; 33]];
    assert!(derive_address(&program(), &long).is_none());
    let fifteen: Vec<Vec<u8>> = (0..15).map(|i| vec![i as u8]).collect();
    assert!(derive_address(&program(), &fifteen).is_some());
}

#[test]
fn little_endian_bytes() {
    assert_eq!(le_bytes_of(0x0102030405060708), vec![8, 7, 6, 5, 4, 3, 2, 1]);
    assert_eq!(le_bytes_of(0), vec![0u8; 8]);
    assert_eq!(le_bytes_of(u64::MAX), vec![255u8; 8]);
}

#[test]
fn address_equality() {
    let a = Address::new([1u8; 32]);
    let mut bytes = [1u8; 32];
    assert!(a.same(&Address::new(bytes)));
    bytes[31] = 2;
    assert!(!a.same(&Address::new(bytes)));
}

#[test]
fn sizes() {
    assert_eq!(Ask::size(0), 28);
    assert_eq!(Ask::size(10), 38);
    assert_eq!(Organization::size(4), 16);
    assert_eq!(text_len_of(&"über".to_string()), 5);
    let g = Global { running_organization_ordinal: 4 };
    assert_eq!(g.next_account_number(), Some(5));
    let g = Global { running_organization_ordinal: u64::MAX };
    assert_eq!(g.next_account_number(), None);
}

#[test]
fn rent_matches_the_runtime_default() {

    let mut l = Ledger::new(program(), Address::new([9u8; 32]));
    let payer = Address::new([1u8; 32]);
    l.credit(&payer, 1_000_000_000).unwrap();
    let target = Address::new([2u8; 32]);
    l.create_account(&payer, &target, 24, Record::User(User { running_ask_ordinal: 0, total_staked: 0 })).unwrap();
    assert_eq!(l.balance(&target), Rent::default().minimum_balance(24));
    assert_eq!(l.balance(&target), (128 + 24) * 6960);
}

#[test]
fn resize_below_the_fields_is_size_mismatch() {
    let mut l = Ledger::new(program(), Address::new([9u8; 32]));
    let payer = Address::new([1u8; 32]);
    l.credit(&payer, 1_000_000_000).unwrap();
    let target = Address::new([2u8; 32]);
    let record = Record::Ask(Ask { ordinal: 0, content: "hello".to_string(), stake: 0 });
    assert!(record_fits(&record, 33));
    assert!(!record_fits(&record, 32));
    assert_eq!(l.create_account(&payer, &target, 32, Record::Ask(Ask { ordinal: 0, content: "hello".to_string(), stake: 0 })), Err(ErrorCode::SizeMismatch));
    l.create_account(&payer, &target, 40, record).unwrap();
    let before = l.balance(&payer);
    assert_eq!(l.resize_account(&target, &payer, 32), Err(ErrorCode::SizeMismatch));
    assert_eq!(l.balance(&payer), before);
    l.resize_account(&target, &payer, 33).unwrap();
    assert_eq!(l.get(&target).unwrap().space, 33);
    assert_eq!(l.balance(&payer), before + 7 * 6960);
    l.resize_account(&target, &payer, 100).unwrap();
    assert_eq!(l.balance(&payer), before + 7 * 6960 - 67 * 6960);
    assert_eq!(l.resize_account(&Address::new([3u8; 32]), &payer, 100), Err(ErrorCode::RecordNotFound));
}

#[test]
fn create_at_an_occupied_address_fails() {
    let mut l = Ledger::new(program(), Address::new([9u8; 32]));
    let payer = Address::new([1u8; 32]);
    l.credit(&payer, 1_000_000_000).unwrap();
    let target = Address::new([2u8; 32]);
    l.create_account(&payer, &target, 8, Record::Membership).unwrap();
    assert_eq!(l.create_account(&payer, &target, 8, Record::Membership), Err(ErrorCode::AddressAlreadyInUse));
    let refund = l.close_account(&target, &payer).unwrap();
    assert_eq!(refund, (128 + 8) * 6960);
    assert_eq!(l.balance(&payer), 1_000_000_000);
    l.create_account(&payer, &target, 8, Record::Membership).unwrap();
}

#[test]
fn transfers_and_overflow() {
    let mut l = Ledger::new(program(), Address::new([9u8; 32]));
    let a = Address::new([1u8; 32]);
    let b = Address::new([2u8; 32]);
    l.credit(&a, 100).unwrap();
    assert_eq!(l.transfer(&a, &b, 101), Err(ErrorCode::InsufficientFunds));
    l.transfer(&a, &b, 60).unwrap();
    assert_eq!(l.balance(&a), 40);
    assert_eq!(l.balance(&b), 60);
    l.credit(&b, u64::MAX - 60).unwrap();
    assert_eq!(l.credit(&b, 1), Err(ErrorCode::ArithmeticOverflow));
    assert_eq!(l.transfer(&a, &b, 1), Err(ErrorCode::ArithmeticOverflow));
    assert_eq!(l.balance(&a), 40);
}
