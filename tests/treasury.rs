use ask_network::address::{claims_counter_address, Address};
use ask_network::error::ErrorCode;
use ask_network::ledger::Ledger;
use ask_network::state::{Record, TokenMint, TreasuryCurrency};

const FUNDS: u64 = 1_000_000_000;

fn program() -> Address {
    Address::new([7u8; 32])
}

fn treasury() -> Address {
    Address::new([9u8; 32])
}

fn identity(b: u8) -> Address {
    Address::new([b; 32])
}

fn rent(space: u64) -> u64 {
    (128 + space) * 6960
}

fn bootstrapped() -> Ledger {
    let mut l = Ledger::new(program(), treasury());
    let admin = identity(100);
    l.credit(&admin, FUNDS).unwrap();
    l.initialize_treasury_claims(&admin).unwrap();
    l
}

fn claims_issued(l: &Ledger) -> u64 {
    let ck = claims_counter_address(&l.program).unwrap();
    match &l.get(&ck).unwrap().record {
        Record::TreasuryClaimsOrdinal(c) => c.claims_issued,
        _ => panic!("not the counter"),
    }
}

#[test]
fn initialize_treasury_claims_starts_at_zero() {
    let l = bootstrapped();
    assert_eq!(claims_issued(&l), 0);
    assert_eq!(l.balance(&identity(100)), FUNDS - rent(16) - rent(8));
}

#[test]
fn initialize_treasury_claims_twice_is_address_in_use() {
    let mut l = bootstrapped();
    assert!(matches!(l.initialize_treasury_claims(&identity(100)), Err(ErrorCode::AddressAlreadyInUse)));
}

#[test]
fn deposit_issues_claim_one_then_two() {
    let mut l = bootstrapped();
    let a = identity(1);
    let b = identity(2);
    l.credit(&a, FUNDS).unwrap();
    l.credit(&b, FUNDS).unwrap();

    let first = l.deposit_sol(&a, &treasury(), 5_000, 1_700_000_000).unwrap();
    assert_eq!(first.ordinal, 1);
    assert_eq!(claims_issued(&l), 1);
    assert_eq!(l.balance(&treasury()), 5_000);
    assert_eq!(l.balance(&a), FUNDS - 5_000 - rent(82) - rent(165) - rent(34));
    match &l.get(&first.holding).unwrap().record {
        Record::TokenAccount(h) => {
            assert_eq!(h.amount, 1);
            assert_eq!(h.owner.bytes, a.bytes);
            assert_eq!(h.mint.bytes, first.mint.bytes);
        },
        _ => panic!("not a holding"),
    }
    match &l.get(&first.mint).unwrap().record {
        Record::Mint(TokenMint { supply, decimals, authority }) => {
            assert_eq!(*supply, 1);
            assert_eq!(*decimals, 0);
            assert_eq!(authority.bytes, first.authority.bytes);
        },
        _ => panic!("not a mint"),
    }
    match &l.get(&first.record).unwrap().record {
        Record::TreasuryClaim(c) => {
            assert_eq!(c.ordinal, 1);
            assert_eq!(c.unit_of_value, TreasuryCurrency::SOL);
            assert_eq!(c.deposit_amount, 5_000);
            assert_eq!(c.deposit_timestamp, 1_700_000_000);
        },
        _ => panic!("not a claim"),
    }

    let second = l.deposit_sol(&b, &treasury(), 7, 1_700_000_001).unwrap();
    assert_eq!(second.ordinal, 2);
    assert_eq!(claims_issued(&l), 2);
    assert_ne!(first.mint.bytes, second.mint.bytes);
    assert_eq!(l.balance(&treasury()), 5_007);
}

#[test]
fn deposits_number_claims_without_gaps() {
    let mut l = bootstrapped();
    let a = identity(1);
    l.credit(&a, FUNDS).unwrap();
    for n in 1u64..=4 {
        let c = l.deposit_sol(&a, &treasury(), 10, 0).unwrap();
        assert_eq!(c.ordinal, n);
    }
    assert_eq!(claims_issued(&l), 4);
}

#[test]
fn deposit_to_wrong_destination_changes_nothing() {
    let mut l = bootstrapped();
    let a = identity(1);
    l.credit(&a, FUNDS).unwrap();
    let accounts = l.accounts.len();
    assert!(matches!(l.deposit_sol(&a, &identity(55), 5_000, 0), Err(ErrorCode::InvalidDestination)));
    assert_eq!(claims_issued(&l), 0);
    assert_eq!(l.accounts.len(), accounts);
    assert_eq!(l.balance(&a), FUNDS);
    assert_eq!(l.balance(&identity(55)), 0);
}

#[test]
fn deposit_beyond_balance_is_insufficient() {
    let mut l = bootstrapped();
    let a = identity(1);
    l.credit(&a, 1_000).unwrap();
    assert!(matches!(l.deposit_sol(&a, &treasury(), 2_000, 0), Err(ErrorCode::InsufficientFunds)));
    assert!(matches!(l.deposit_sol(&a, &treasury(), 1_000, 0), Err(ErrorCode::InsufficientFunds)));
    assert_eq!(claims_issued(&l), 0);
    assert_eq!(l.balance(&a), 1_000);
}

#[test]
fn deposit_before_bootstrap_is_not_found() {
    let mut l = Ledger::new(program(), treasury());
    let a = identity(1);
    l.credit(&a, FUNDS).unwrap();
    assert!(matches!(l.deposit_sol(&a, &treasury(), 5, 0), Err(ErrorCode::RecordNotFound)));
}

#[test]
fn token_purchase_mints_one_per_lamport() {
    let mut l = Ledger::new(program(), treasury());
    let admin = identity(100);
    let a = identity(1);
    l.credit(&admin, FUNDS).unwrap();
    l.credit(&a, FUNDS).unwrap();
    let (mint, _authority) = l.initialize_token(&admin).unwrap();
    let p = l.acquire_token(&a, &treasury(), 250).unwrap();
    assert_eq!(p.mint.bytes, mint.bytes);
    assert_eq!(l.balance(&a), FUNDS - 250 - rent(165));
    let q = l.acquire_token(&a, &treasury(), 50).unwrap();
    assert_eq!(q.holding.bytes, p.holding.bytes);
    assert_eq!(l.balance(&a), FUNDS - 300 - rent(165));
    assert_eq!(l.balance(&treasury()), 300);
    match &l.get(&p.holding).unwrap().record {
        Record::TokenAccount(h) => assert_eq!(h.amount, 300),
        _ => panic!("not a holding"),
    }
    match &l.get(&mint).unwrap().record {
        Record::Mint(t) => {
            assert_eq!(t.supply, 300);
            assert_eq!(t.decimals, 6);
        },
        _ => panic!("not a mint"),
    }
    assert!(matches!(l.acquire_token(&a, &identity(3), 1), Err(ErrorCode::InvalidDestination)));
}

#[test]
fn mint_with_another_authority_is_unauthorized() {
    let mut l = Ledger::new(program(), treasury());
    let admin = identity(100);
    let a = identity(1);
    l.credit(&admin, FUNDS).unwrap();
    l.credit(&a, FUNDS).unwrap();
    let (mint, authority) = l.initialize_token(&admin).unwrap();
    // a second mint at another address, governed by someone else
    let rogue = identity(77);
    let record = Record::Mint(TokenMint { authority: identity(66), supply: 0, decimals: 6 });
    l.create_account(&admin, &rogue, 82, record).unwrap();
    assert_ne!(rogue.bytes, mint.bytes);
    assert_ne!(authority.bytes, identity(66).bytes);
    // replace the real mint's authority by closing and recreating it
    l.close_account(&mint, &admin).unwrap();
    let record = Record::Mint(TokenMint { authority: identity(66), supply: 0, decimals: 6 });
    l.create_account(&admin, &mint, 82, record).unwrap();
    assert!(matches!(l.acquire_token(&a, &treasury(), 1), Err(ErrorCode::Unauthorized)));
    assert_eq!(l.balance(&a), FUNDS);
}
