use breachx::address::Address;
use breachx::error::RegistryError;
use breachx::ledger::{Account, Ledger, Metadata};

fn at(byte: u8) -> Address {
    Address::new([byte; 32])
}

fn description(mint: Address, mint_authority: Address) -> Metadata {
    Metadata {
        mint,
        mint_authority,
        update_authority: mint_authority,
        name: String::from("T"),
        symbol: String::from("S"),
        uri: String::from("u"),
        seller_fee_basis_points: 0,
        creators: None,
        collection: None,
        uses: None,
    }
}

#[test]
fn new_ledger_is_empty() {
    let ledger = Ledger::new();
    assert_eq!(ledger.len(), 0);
    assert!(!ledger.contains(&at(1)));
    assert!(ledger.account(&at(1)).is_none());
    assert!(ledger.read(&at(1)).is_none());
}

#[test]
fn allocate_reserves_an_empty_record() {
    let mut ledger = Ledger::new();
    assert_eq!(ledger.allocate(at(1), 10, at(9)), Ok(()));
    assert_eq!(ledger.len(), 1);
    assert!(ledger.contains(&at(1)));
    assert_eq!(ledger.read(&at(1)), Some(&Vec::new()));
    match ledger.account(&at(1)) {
        Some(Account::Record(record)) => {
            assert_eq!(record.owner, at(9));
            assert_eq!(record.space, 10);
            assert!(record.data.is_empty());
        }
        other => panic!("not a record: {:?}", other),
    }
}

#[test]
fn allocate_gives_an_address_out_once() {
    let mut ledger = Ledger::new();
    assert_eq!(ledger.allocate(at(1), 10, at(9)), Ok(()));
    assert_eq!(ledger.write(&at(1), vec![1, 2, 3]), Ok(()));
    assert_eq!(ledger.allocate(at(1), 20, at(8)), Err(RegistryError::AlreadyExists));
    assert_eq!(ledger.read(&at(1)), Some(&vec![1, 2, 3]));
    assert_eq!(ledger.len(), 1);
}

#[test]
fn allocate_is_refused_where_a_mint_is() {
    let mut ledger = Ledger::new();
    assert_eq!(ledger.create_mint(at(1), 0, at(9)), Ok(()));
    assert_eq!(ledger.allocate(at(1), 20, at(8)), Err(RegistryError::AlreadyExists));
}

#[test]
fn write_replaces_the_bytes() {
    let mut ledger = Ledger::new();
    assert_eq!(ledger.allocate(at(1), 4, at(9)), Ok(()));
    assert_eq!(ledger.write(&at(1), vec![1, 2, 3, 4]), Ok(()));
    assert_eq!(ledger.write(&at(1), vec![5]), Ok(()));
    assert_eq!(ledger.read(&at(1)), Some(&vec![5]));
}

#[test]
fn write_keeps_within_the_space() {
    let mut ledger = Ledger::new();
    assert_eq!(ledger.allocate(at(1), 4, at(9)), Ok(()));
    assert_eq!(ledger.write(&at(1), vec![1, 2, 3, 4]), Ok(()));
    assert_eq!(ledger.write(&at(1), vec![1, 2, 3, 4, 5]), Err(RegistryError::CapacityExceeded));
    assert_eq!(ledger.read(&at(1)), Some(&vec![1, 2, 3, 4]));
}

#[test]
fn write_needs_a_record() {
    let mut ledger = Ledger::new();
    assert_eq!(ledger.write(&at(1), vec![1]), Err(RegistryError::NotFound));
    assert_eq!(ledger.create_mint(at(2), 0, at(9)), Ok(()));
    assert_eq!(ledger.write(&at(2), vec![1]), Err(RegistryError::NotFound));
    assert!(ledger.read(&at(2)).is_none());
    assert_eq!(ledger.len(), 1);
}

#[test]
fn create_mint_starts_with_no_supply() {
    let mut ledger = Ledger::new();
    assert_eq!(ledger.create_mint(at(2), 6, at(9)), Ok(()));
    match ledger.account(&at(2)) {
        Some(Account::Mint(mint)) => {
            assert_eq!(mint.decimals, 6);
            assert_eq!(mint.authority, at(9));
            assert_eq!(mint.supply, 0);
        }
        other => panic!("not a mint: {:?}", other),
    }
    assert_eq!(ledger.create_mint(at(2), 0, at(9)), Err(RegistryError::AlreadyExists));
}

#[test]
fn open_holding_needs_its_mint_and_a_free_address() {
    let mut ledger = Ledger::new();
    assert_eq!(ledger.open_holding(at(3), at(2), at(9)), Err(RegistryError::NotFound));
    assert_eq!(ledger.create_mint(at(2), 0, at(9)), Ok(()));
    assert_eq!(ledger.open_holding(at(2), at(2), at(9)), Err(RegistryError::AlreadyExists));
    assert_eq!(ledger.open_holding(at(3), at(2), at(7)), Ok(()));
    assert_eq!(ledger.open_holding(at(3), at(2), at(7)), Err(RegistryError::AlreadyExists));
    assert_eq!(ledger.open_holding(at(4), at(3), at(7)), Err(RegistryError::NotFound));
    match ledger.account(&at(3)) {
        Some(Account::Holding(holding)) => {
            assert_eq!(holding.mint, at(2));
            assert_eq!(holding.owner, at(7));
            assert_eq!(holding.amount, 0);
        }
        other => panic!("not a holding: {:?}", other),
    }
}

#[test]
fn mint_to_adds_to_supply_and_holding() {
    let mut ledger = Ledger::new();
    assert_eq!(ledger.create_mint(at(2), 0, at(9)), Ok(()));
    assert_eq!(ledger.open_holding(at(3), at(2), at(7)), Ok(()));
    assert_eq!(ledger.mint_to(&at(2), &at(3), 5, &at(9)), Ok(()));
    assert_eq!(ledger.mint_to(&at(2), &at(3), 2, &at(9)), Ok(()));
    match ledger.account(&at(2)) {
        Some(Account::Mint(mint)) => {
            assert_eq!(mint.supply, 7);
            assert_eq!(mint.authority, at(9));
        }
        other => panic!("not a mint: {:?}", other),
    }
    match ledger.account(&at(3)) {
        Some(Account::Holding(holding)) => {
            assert_eq!(holding.amount, 7);
            assert_eq!(holding.owner, at(7));
        }
        other => panic!("not a holding: {:?}", other),
    }
    assert_eq!(ledger.len(), 2);
}

#[test]
fn mint_to_needs_the_mint_authority() {
    let mut ledger = Ledger::new();
    assert_eq!(ledger.create_mint(at(2), 0, at(9)), Ok(()));
    assert_eq!(ledger.open_holding(at(3), at(2), at(7)), Ok(()));
    assert_eq!(ledger.mint_to(&at(2), &at(3), 1, &at(7)), Err(RegistryError::DependencyFailure));
    match ledger.account(&at(2)) {
        Some(Account::Mint(mint)) => assert_eq!(mint.supply, 0),
        other => panic!("not a mint: {:?}", other),
    }
}

#[test]
fn mint_to_needs_mint_and_holding() {
    let mut ledger = Ledger::new();
    assert_eq!(ledger.mint_to(&at(2), &at(3), 1, &at(9)), Err(RegistryError::NotFound));
    assert_eq!(ledger.create_mint(at(2), 0, at(9)), Ok(()));
    assert_eq!(ledger.mint_to(&at(2), &at(3), 1, &at(9)), Err(RegistryError::NotFound));
    assert_eq!(ledger.mint_to(&at(2), &at(2), 1, &at(9)), Err(RegistryError::NotFound));
}

#[test]
fn mint_to_keeps_to_the_holding_of_its_mint() {
    let mut ledger = Ledger::new();
    assert_eq!(ledger.create_mint(at(2), 0, at(9)), Ok(()));
    assert_eq!(ledger.create_mint(at(4), 0, at(9)), Ok(()));
    assert_eq!(ledger.open_holding(at(3), at(2), at(7)), Ok(()));
    assert_eq!(ledger.mint_to(&at(4), &at(3), 1, &at(9)), Err(RegistryError::DependencyFailure));
}

#[test]
fn mint_to_stops_at_the_largest_amount() {
    let mut ledger = Ledger::new();
    assert_eq!(ledger.create_mint(at(2), 0, at(9)), Ok(()));
    assert_eq!(ledger.open_holding(at(3), at(2), at(7)), Ok(()));
    assert_eq!(ledger.mint_to(&at(2), &at(3), u64::MAX, &at(9)), Ok(()));
    assert_eq!(ledger.mint_to(&at(2), &at(3), 1, &at(9)), Err(RegistryError::DependencyFailure));
    match ledger.account(&at(3)) {
        Some(Account::Holding(holding)) => assert_eq!(holding.amount, u64::MAX),
        other => panic!("not a holding: {:?}", other),
    }
}

#[test]
fn create_metadata_records_the_description() {
    let mut ledger = Ledger::new();
    assert_eq!(ledger.create_mint(at(2), 0, at(9)), Ok(()));
    assert_eq!(ledger.create_metadata(at(5), description(at(2), at(9))), Ok(()));
    match ledger.account(&at(5)) {
        Some(Account::Metadata(metadata)) => {
            assert_eq!(metadata.mint, at(2));
            assert_eq!(metadata.name, "T");
            assert_eq!(metadata.symbol, "S");
            assert_eq!(metadata.uri, "u");
            assert_eq!(metadata.seller_fee_basis_points, 0);
            assert!(metadata.creators.is_none());
            assert!(metadata.collection.is_none());
            assert!(metadata.uses.is_none());
        }
        other => panic!("not a description: {:?}", other),
    }
}

#[test]
fn create_metadata_needs_the_mint_authority() {
    let mut ledger = Ledger::new();
    assert_eq!(ledger.create_mint(at(2), 0, at(9)), Ok(()));
    assert_eq!(
        ledger.create_metadata(at(5), description(at(2), at(7))),
        Err(RegistryError::DependencyFailure)
    );
    assert!(!ledger.contains(&at(5)));
}

#[test]
fn create_metadata_needs_a_mint_and_a_free_address() {
    let mut ledger = Ledger::new();
    assert_eq!(
        ledger.create_metadata(at(5), description(at(2), at(9))),
        Err(RegistryError::NotFound)
    );
    assert_eq!(ledger.create_mint(at(2), 0, at(9)), Ok(()));
    assert_eq!(
        ledger.create_metadata(at(2), description(at(2), at(9))),
        Err(RegistryError::AlreadyExists)
    );
    assert_eq!(ledger.len(), 1);
}

#[test]
fn many_accounts_are_kept_apart() {
    let mut ledger = Ledger::new();
    for byte in 0u8..50 {
        assert_eq!(ledger.allocate(at(byte), 1, at(200)), Ok(()));
        assert_eq!(ledger.write(&at(byte), vec![byte]), Ok(()));
    }
    assert_eq!(ledger.len(), 50);
    for byte in 0u8..50 {
        assert_eq!(ledger.read(&at(byte)), Some(&vec![byte]));
    }
    assert!(!ledger.contains(&at(50)));
}
