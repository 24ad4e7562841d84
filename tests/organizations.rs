use ask_network::address::{global_address, Address};
use ask_network::error::ErrorCode;
use ask_network::ledger::Ledger;
use ask_network::state::Record;

fn ledger_with(payer: &Address) -> Ledger {
    let mut l = Ledger::new(Address::new([7u8; 32]), Address::new([9u8; 32]));
    l.credit(payer, 1_000_000_000).unwrap();
    l
}

#[test]
fn organizations_take_consecutive_ordinals() {
    let a = Address::new([1u8; 32]);
    let mut l = ledger_with(&a);
    assert!(matches!(l.sign_up_organization(&a, "Acme".to_string()), Err(ErrorCode::RecordNotFound)));
    l.initialize_global(&a).unwrap();
    let (org0, member0) = l.sign_up_organization(&a, "Acme".to_string()).unwrap();
    let (org1, _) = l.sign_up_organization(&a, "Acme".to_string()).unwrap();
    assert_ne!(org0.bytes, org1.bytes);
    let ga = global_address(&l.program).unwrap();
    match &l.get(&ga).unwrap().record {
        Record::Global(g) => assert_eq!(g.running_organization_ordinal, 2),
        _ => panic!("not the counter"),
    }
    let acct = l.get(&org0).unwrap();
    assert_eq!(acct.space, 8 + 4 + 4);
    match &acct.record {
        Record::Organization(o) => assert_eq!(o.alias, "Acme"),
        _ => panic!("not an organization"),
    }
    assert!(matches!(l.get(&member0).unwrap().record, Record::Membership));
    assert!(matches!(l.initialize_global(&a), Err(ErrorCode::AddressAlreadyInUse)));
}
