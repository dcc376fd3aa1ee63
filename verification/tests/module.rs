use sp_runtime::traits::{IdentityLookup, LookupError, StaticLookup};
use stone_index::{Error, Event, Ledger, Module, StoneIndex, StoneIndexComponent};

const TEST_INDEX_ID: u32 = 1;
const TEST_ACCOUNT_ID: u64 = 99999;

fn new_test_ext() -> Module {
    Module::with_indexes(vec![(
        TEST_INDEX_ID,
        StoneIndex {
            id: TEST_INDEX_ID,
            name: "FirstIndex".as_bytes().to_vec(),
            components: vec![
                StoneIndexComponent { asset_id: 10001, weight: 2 },
                StoneIndexComponent { asset_id: 10002, weight: 1 },
            ],
            owner: TEST_ACCOUNT_ID,
        },
    )])
}

/// The index units of `id` that the given accounts hold together.
fn held_together(module: &Module, id: u32, accounts: &[u64]) -> u128 {
    accounts.iter().map(|account| u128::from(module.index_balances((id, *account)))).sum()
}

fn funded() -> Ledger {
    let mut assets = Ledger::new();
    assets.mint(10001, TEST_ACCOUNT_ID, 10000);
    assets.mint(10002, TEST_ACCOUNT_ID, 100);
    assets
}

#[test]
fn add_index() {
    let mut module = new_test_ext();
    let test_index = StoneIndex {
        id: 100,
        name: "test".as_bytes().to_vec(),
        components: vec![
            StoneIndexComponent { asset_id: 10001, weight: 1 },
            StoneIndexComponent { asset_id: 10002, weight: 5 },
        ],
        owner: TEST_ACCOUNT_ID,
    };
    module.add_index(TEST_ACCOUNT_ID, test_index.id, test_index.name, test_index.components);
    let out_index = module.get_index(&100);
    assert_eq!(out_index.id, 100);
    assert_eq!(std::str::from_utf8(&out_index.name).unwrap(), "test");
    assert_eq!(out_index.owner, TEST_ACCOUNT_ID);
    assert_eq!(
        out_index.components,
        vec![
            StoneIndexComponent { asset_id: 10001, weight: 1 },
            StoneIndexComponent { asset_id: 10002, weight: 5 },
        ]
    );
}

#[test]
fn buy_or_sell_non_existing_index() {
    let mut module = new_test_ext();
    let mut assets = funded();
    assert_eq!(
        module.buy_index(&mut assets, TEST_ACCOUNT_ID, 999999999, 1),
        Err(Error::IndexNotExist)
    );
    assert_eq!(
        module.sell_index(&mut assets, TEST_ACCOUNT_ID, 999999999, 1),
        Err(Error::IndexNotExist)
    );
    assert_eq!(assets.balance(10001, TEST_ACCOUNT_ID), 10000);
    assert_eq!(assets.balance(10002, TEST_ACCOUNT_ID), 100);
    assert_eq!(module.index_balances((999999999, TEST_ACCOUNT_ID)), 0);
}

#[test]
fn buy_too_much_index() {
    let mut module = new_test_ext();
    let mut assets = funded();
    assert_eq!(
        module.buy_index(&mut assets, TEST_ACCOUNT_ID, TEST_INDEX_ID, 100),
        Ok(Event::BuyIndex(TEST_INDEX_ID, 100, TEST_ACCOUNT_ID))
    );
    assert_eq!(
        module.buy_index(&mut assets, TEST_ACCOUNT_ID, TEST_INDEX_ID, 5),
        Err(Error::InsufficientAssetBalance)
    );
    assert_eq!(module.index_balances((TEST_INDEX_ID, TEST_ACCOUNT_ID)), 100);
    assert_eq!(assets.balance(10001, TEST_ACCOUNT_ID), 9800);
    assert_eq!(assets.balance(10002, TEST_ACCOUNT_ID), 0);
}

#[test]
fn sell_too_much_index() {
    let mut module = new_test_ext();
    let mut assets = funded();
    assert_eq!(
        module.sell_index(&mut assets, TEST_ACCOUNT_ID, TEST_INDEX_ID, 100000000),
        Err(Error::InsufficientIndexBalance)
    );
    assert_eq!(assets.balance(10001, TEST_ACCOUNT_ID), 10000);
    assert_eq!(assets.balance(10002, TEST_ACCOUNT_ID), 100);
}

#[test]
fn buy_and_sell_index() {
    let mut module = new_test_ext();
    let mut assets = funded();
    assert_eq!(
        module.buy_index(&mut assets, TEST_ACCOUNT_ID, TEST_INDEX_ID, 5),
        Ok(Event::BuyIndex(TEST_INDEX_ID, 5, TEST_ACCOUNT_ID))
    );
    assert_eq!(module.index_balances((TEST_INDEX_ID, TEST_ACCOUNT_ID)), 5);
    assert_eq!(assets.balance(10001, TEST_ACCOUNT_ID), 9990);
    assert_eq!(assets.balance(10002, TEST_ACCOUNT_ID), 95);

    assert_eq!(
        module.sell_index(&mut assets, TEST_ACCOUNT_ID, TEST_INDEX_ID, 1),
        Ok(Event::SellIndex(TEST_INDEX_ID, 1, TEST_ACCOUNT_ID))
    );
    assert_eq!(module.index_balances((TEST_INDEX_ID, TEST_ACCOUNT_ID)), 4);
    assert_eq!(assets.balance(10001, TEST_ACCOUNT_ID), 9992);
    assert_eq!(assets.balance(10002, TEST_ACCOUNT_ID), 96);
}

#[test]
fn buy_then_sell_restores_every_balance() {
    let mut module = new_test_ext();
    let mut assets = funded();
    module._mint(TEST_INDEX_ID, TEST_ACCOUNT_ID, 7);
    assert!(module.buy_index(&mut assets, TEST_ACCOUNT_ID, TEST_INDEX_ID, 50).is_ok());
    assert_eq!(assets.balance(10001, TEST_ACCOUNT_ID), 9900);
    assert_eq!(module.index_balances((TEST_INDEX_ID, TEST_ACCOUNT_ID)), 57);
    assert_eq!(
        module.sell_index(&mut assets, TEST_ACCOUNT_ID, TEST_INDEX_ID, 50),
        Ok(Event::SellIndex(TEST_INDEX_ID, 50, TEST_ACCOUNT_ID))
    );
    assert_eq!(module.index_balances((TEST_INDEX_ID, TEST_ACCOUNT_ID)), 7);
    assert_eq!(assets.balance(10001, TEST_ACCOUNT_ID), 10000);
    assert_eq!(assets.balance(10002, TEST_ACCOUNT_ID), 100);
    assert_eq!(module._mint(TEST_INDEX_ID, TEST_ACCOUNT_ID, 3), ());
    assert_eq!(module.index_balances((TEST_INDEX_ID, TEST_ACCOUNT_ID)), 10);
    assert_eq!(assets.balance(10001, TEST_ACCOUNT_ID), 10000);
    assert_eq!(assets.balance(10002, TEST_ACCOUNT_ID), 100);
}

#[test]
fn buy_short_of_one_asset_changes_nothing() {
    let mut module = new_test_ext();
    let mut assets = Ledger::new();
    assets.mint(10001, TEST_ACCOUNT_ID, 10000);
    assets.mint(10002, TEST_ACCOUNT_ID, 4);
    assert_eq!(
        module.buy_index(&mut assets, TEST_ACCOUNT_ID, TEST_INDEX_ID, 5),
        Err(Error::InsufficientAssetBalance)
    );
    assert_eq!(assets.balance(10001, TEST_ACCOUNT_ID), 10000);
    assert_eq!(assets.balance(10002, TEST_ACCOUNT_ID), 4);
    assert_eq!(module.index_balances((TEST_INDEX_ID, TEST_ACCOUNT_ID)), 0);
    assert_eq!(module.get_index(&TEST_INDEX_ID).name, "FirstIndex".as_bytes().to_vec());
    module._mint(TEST_INDEX_ID, TEST_ACCOUNT_ID, 9);
    assert_eq!(module.index_balances((TEST_INDEX_ID, TEST_ACCOUNT_ID)), 9);
    assert_eq!(assets.balance(10001, TEST_ACCOUNT_ID), 10000);
    assert_eq!(assets.balance(10002, TEST_ACCOUNT_ID), 4);
}

#[test]
fn buy_counts_an_asset_named_twice() {
    let mut module = Module::new();
    module.add_index(
        7,
        3,
        Vec::new(),
        vec![
            StoneIndexComponent { asset_id: 1, weight: 2 },
            StoneIndexComponent { asset_id: 1, weight: 3 },
        ],
    );
    let mut assets = Ledger::new();
    assets.mint(1, 7, 9);
    assert_eq!(module.buy_index(&mut assets, 7, 3, 2), Err(Error::InsufficientAssetBalance));
    assert_eq!(assets.balance(1, 7), 9);
    assert_eq!(module.buy_index(&mut assets, 7, 3, 1), Ok(Event::BuyIndex(3, 1, 7)));
    assert_eq!(assets.balance(1, 7), 4);
    assert_eq!(module.sell_index(&mut assets, 7, 3, 1), Ok(Event::SellIndex(3, 1, 7)));
    assert_eq!(assets.balance(1, 7), 9);
}

#[test]
fn buy_with_zero_weight_takes_nothing() {
    let mut module = Module::new();
    module.add_index(7, 3, Vec::new(), vec![StoneIndexComponent { asset_id: 1, weight: 0 }]);
    let mut assets = Ledger::new();
    assert_eq!(module.buy_index(&mut assets, 7, 3, u64::MAX), Ok(Event::BuyIndex(3, u64::MAX, 7)));
    assert_eq!(module.index_balances((3, 7)), u64::MAX);
    assert_eq!(assets.balance(1, 7), 0);
}

#[test]
fn buy_at_the_largest_amount_and_weight() {
    let mut module = Module::new();
    module.add_index(
        7,
        3,
        Vec::new(),
        vec![StoneIndexComponent { asset_id: 1, weight: u32::MAX }],
    );
    let mut assets = Ledger::new();
    assets.mint(1, 7, u64::MAX);
    assert_eq!(
        module.buy_index(&mut assets, 7, 3, u64::MAX),
        Err(Error::InsufficientAssetBalance)
    );
    assert_eq!(assets.balance(1, 7), u64::MAX);
    // 4294967297 * 4294967295 == u64::MAX
    assert_eq!(module.buy_index(&mut assets, 7, 3, 4294967297), Ok(Event::BuyIndex(3, 4294967297, 7)));
    assert_eq!(assets.balance(1, 7), 0);
    assert_eq!(module.index_balances((3, 7)), 4294967297);
}

#[test]
fn buy_is_not_limited_by_what_others_hold() {
    let mut module = new_test_ext();
    let mut assets = funded();
    module._mint(TEST_INDEX_ID, 5, u64::MAX);
    assert_eq!(
        module.buy_index(&mut assets, TEST_ACCOUNT_ID, TEST_INDEX_ID, 1),
        Ok(Event::BuyIndex(TEST_INDEX_ID, 1, TEST_ACCOUNT_ID))
    );
    assert_eq!(assets.balance(10001, TEST_ACCOUNT_ID), 9998);
    assert_eq!(module.index_balances((TEST_INDEX_ID, TEST_ACCOUNT_ID)), 1);
    assert_eq!(module.index_balances((TEST_INDEX_ID, 5)), u64::MAX);
    assert_eq!(
        held_together(&module, TEST_INDEX_ID, &[5, TEST_ACCOUNT_ID]),
        18446744073709551616u128
    );
}

#[test]
fn buy_refused_when_the_buyers_balance_is_full() {
    let mut module = new_test_ext();
    let mut assets = funded();
    module._mint(TEST_INDEX_ID, TEST_ACCOUNT_ID, u64::MAX - 4);
    assert_eq!(
        module.buy_index(&mut assets, TEST_ACCOUNT_ID, TEST_INDEX_ID, 5),
        Err(Error::Overflow)
    );
    assert_eq!(assets.balance(10001, TEST_ACCOUNT_ID), 10000);
    assert_eq!(assets.balance(10002, TEST_ACCOUNT_ID), 100);
    assert_eq!(module.index_balances((TEST_INDEX_ID, TEST_ACCOUNT_ID)), u64::MAX - 4);
    assert_eq!(
        module.buy_index(&mut assets, TEST_ACCOUNT_ID, TEST_INDEX_ID, 4),
        Ok(Event::BuyIndex(TEST_INDEX_ID, 4, TEST_ACCOUNT_ID))
    );
    assert_eq!(module.index_balances((TEST_INDEX_ID, TEST_ACCOUNT_ID)), u64::MAX);
}

#[test]
fn two_accounts_buy_the_largest_amount_of_a_weightless_index() {
    let mut module = Module::new();
    module.add_index(7, 3, Vec::new(), vec![StoneIndexComponent { asset_id: 1, weight: 0 }]);
    let mut assets = Ledger::new();
    assert_eq!(module.buy_index(&mut assets, 7, 3, u64::MAX), Ok(Event::BuyIndex(3, u64::MAX, 7)));
    assert_eq!(module.buy_index(&mut assets, 8, 3, 1), Ok(Event::BuyIndex(3, 1, 8)));
    assert_eq!(module.index_balances((3, 7)), u64::MAX);
    assert_eq!(module.index_balances((3, 8)), 1);
}

#[test]
fn mint_is_limited_by_the_account_alone() {
    let mut module = Module::new();
    module._mint(3, 7, u64::MAX);
    module._mint(3, 8, 1);
    module._mint(4, 7, 2);
    module._mint(4, 7, 3);
    assert_eq!(module.index_balances((3, 7)), u64::MAX);
    assert_eq!(module.index_balances((3, 8)), 1);
    assert_eq!(module.index_balances((4, 7)), 5);
    assert_eq!(module.index_balances((4, 8)), 0);
}

#[test]
fn sell_is_not_limited_by_what_others_hold() {
    let mut module = new_test_ext();
    let mut assets = Ledger::new();
    assets.mint(10001, 5, u64::MAX - 1);
    module._mint(TEST_INDEX_ID, TEST_ACCOUNT_ID, 3);
    assert_eq!(
        module.sell_index(&mut assets, TEST_ACCOUNT_ID, TEST_INDEX_ID, 1),
        Ok(Event::SellIndex(TEST_INDEX_ID, 1, TEST_ACCOUNT_ID))
    );
    assert_eq!(module.index_balances((TEST_INDEX_ID, TEST_ACCOUNT_ID)), 2);
    assert_eq!(assets.balance(10001, TEST_ACCOUNT_ID), 2);
    assert_eq!(assets.balance(10002, TEST_ACCOUNT_ID), 1);
    assert_eq!(assets.balance(10001, 5), u64::MAX - 1);
}

#[test]
fn sell_refused_when_the_sellers_asset_balance_is_full() {
    let mut module = new_test_ext();
    let mut assets = Ledger::new();
    assets.mint(10001, TEST_ACCOUNT_ID, u64::MAX - 1);
    assets.mint(10002, TEST_ACCOUNT_ID, 7);
    module._mint(TEST_INDEX_ID, TEST_ACCOUNT_ID, 3);
    assert_eq!(
        module.sell_index(&mut assets, TEST_ACCOUNT_ID, TEST_INDEX_ID, 1),
        Err(Error::Overflow)
    );
    assert_eq!(module.index_balances((TEST_INDEX_ID, TEST_ACCOUNT_ID)), 3);
    assert_eq!(assets.balance(10001, TEST_ACCOUNT_ID), u64::MAX - 1);
    assert_eq!(assets.balance(10002, TEST_ACCOUNT_ID), 7);
}

#[test]
fn transfer_refused_when_the_receivers_balance_is_full() {
    let mut module = new_test_ext();
    module._mint(TEST_INDEX_ID, 1, 10);
    module._mint(TEST_INDEX_ID, 2, u64::MAX - 3);
    assert_eq!(module.transfer(1, TEST_INDEX_ID, Ok(2), 4), Err(Error::Overflow));
    assert_eq!(module.index_balances((TEST_INDEX_ID, 1)), 10);
    assert_eq!(module.index_balances((TEST_INDEX_ID, 2)), u64::MAX - 3);
    assert_eq!(module.transfer(1, TEST_INDEX_ID, Ok(2), 3), Ok(Event::TransferIndex(TEST_INDEX_ID, 1, 2, 3)));
    assert_eq!(module.index_balances((TEST_INDEX_ID, 2)), u64::MAX);
    assert_eq!(module.transfer(2, TEST_INDEX_ID, Ok(2), u64::MAX), Ok(Event::TransferIndex(TEST_INDEX_ID, 2, 2, u64::MAX)));
    assert_eq!(module.index_balances((TEST_INDEX_ID, 2)), u64::MAX);
    assert_eq!(module.transfer(1, TEST_INDEX_ID, Err(LookupError), 4), Err(Error::CannotLookup));
}

#[test]
fn transfer_of_nothing_is_refused() {
    let mut module = new_test_ext();
    assert_eq!(module.transfer(1, TEST_INDEX_ID, Ok(2), 0), Err(Error::TransferAmountZero));
    module._mint(TEST_INDEX_ID, 1, 10);
    assert_eq!(module.transfer(1, TEST_INDEX_ID, Ok(2), 0), Err(Error::TransferAmountZero));
    assert_eq!(
        module.transfer(1, TEST_INDEX_ID, Err(LookupError), 0),
        Err(Error::TransferAmountZero)
    );
    assert_eq!(module.index_balances((TEST_INDEX_ID, 1)), 10);
}

#[test]
fn transfer_moves_units_and_keeps_the_supply() {
    let mut module = new_test_ext();
    module._mint(TEST_INDEX_ID, 1, 10);
    module._mint(TEST_INDEX_ID, 2, 5);
    assert_eq!(
        module.transfer(1, TEST_INDEX_ID, IdentityLookup::<u64>::lookup(2), 4),
        Ok(Event::TransferIndex(TEST_INDEX_ID, 1, 2, 4))
    );
    assert_eq!(module.index_balances((TEST_INDEX_ID, 1)), 6);
    assert_eq!(module.index_balances((TEST_INDEX_ID, 2)), 9);
    assert_eq!(held_together(&module, TEST_INDEX_ID, &[1, 2, 3]), 15);
    assert_eq!(module.transfer(1, TEST_INDEX_ID, Ok(1), 6), Ok(Event::TransferIndex(TEST_INDEX_ID, 1, 1, 6)));
    assert_eq!(module.index_balances((TEST_INDEX_ID, 1)), 6);
    assert_eq!(module.transfer(2, TEST_INDEX_ID, Ok(3), 9), Ok(Event::TransferIndex(TEST_INDEX_ID, 2, 3, 9)));
    assert_eq!(module.index_balances((TEST_INDEX_ID, 2)), 0);
    assert_eq!(module.index_balances((TEST_INDEX_ID, 3)), 9);
    assert_eq!(held_together(&module, TEST_INDEX_ID, &[1, 2, 3]), 15);
}

#[test]
fn transfer_refusals() {
    let mut module = new_test_ext();
    module._mint(TEST_INDEX_ID, 1, 10);
    assert_eq!(module.transfer(1, TEST_INDEX_ID, Ok(2), 11), Err(Error::InsufficientIndexBalance));
    assert_eq!(
        module.transfer(1, TEST_INDEX_ID, Err(LookupError), 11),
        Err(Error::InsufficientIndexBalance)
    );
    assert_eq!(module.transfer(1, TEST_INDEX_ID, Err(LookupError), 10), Err(Error::CannotLookup));
    assert_eq!(module.index_balances((TEST_INDEX_ID, 1)), 10);
    assert_eq!(module.index_balances((TEST_INDEX_ID, 2)), 0);
}

#[test]
fn update_index_by_owner_only() {
    let mut module = new_test_ext();
    assert_eq!(
        module.update_index(5, TEST_INDEX_ID, b"other".to_vec(), Vec::new()),
        Err(Error::NotTheOwner)
    );
    let stored = module.get_index(&TEST_INDEX_ID);
    assert_eq!(stored.name, "FirstIndex".as_bytes().to_vec());
    assert_eq!(stored.components.len(), 2);
    assert_eq!(stored.owner, TEST_ACCOUNT_ID);
    assert_eq!(
        module.update_index(TEST_ACCOUNT_ID, 77, b"other".to_vec(), Vec::new()),
        Err(Error::IndexNotExist)
    );
    assert!(!module.contains_index(&77));
    assert_eq!(
        module.update_index(
            TEST_ACCOUNT_ID,
            TEST_INDEX_ID,
            b"other".to_vec(),
            vec![StoneIndexComponent { asset_id: 3, weight: 9 }]
        ),
        Ok(())
    );
    let stored = module.indexes(&TEST_INDEX_ID);
    assert_eq!(stored.id, TEST_INDEX_ID);
    assert_eq!(stored.name, b"other".to_vec());
    assert_eq!(stored.components, vec![StoneIndexComponent { asset_id: 3, weight: 9 }]);
    assert_eq!(stored.owner, TEST_ACCOUNT_ID);
}

#[test]
fn add_index_replaces_without_asking() {
    let mut module = new_test_ext();
    module.add_index(5, TEST_INDEX_ID, b"taken".to_vec(), Vec::new());
    let stored = module.get_index(&TEST_INDEX_ID);
    assert_eq!(stored.owner, 5);
    assert_eq!(stored.name, b"taken".to_vec());
    assert!(stored.components.is_empty());
}

#[test]
fn get_index_of_nothing_is_empty() {
    let module = Module::new();
    assert!(!module.contains_index(&4));
    let empty = module.get_index(&4);
    assert_eq!(empty, StoneIndex::default());
    assert_eq!(empty.id, 0);
    assert_eq!(empty.owner, 0);
    assert!(empty.name.is_empty());
    assert!(empty.components.is_empty());
}

#[test]
fn with_indexes_keeps_the_later_of_two_and_the_key() {
    let module = Module::with_indexes(vec![
        (1, StoneIndex { id: 1, name: b"a".to_vec(), components: Vec::new(), owner: 1 }),
        (1, StoneIndex { id: 9, name: b"b".to_vec(), components: Vec::new(), owner: 2 }),
    ]);
    let stored = module.get_index(&1);
    assert_eq!(stored.id, 1);
    assert_eq!(stored.name, b"b".to_vec());
    assert_eq!(stored.owner, 2);
    assert!(!module.contains_index(&9));
}

#[test]
fn a_copy_is_independent() {
    let mut module = new_test_ext();
    module._mint(TEST_INDEX_ID, 1, 10);
    let mut copy = module.clone();
    assert_eq!(copy.transfer(1, TEST_INDEX_ID, Ok(2), 4), Ok(Event::TransferIndex(TEST_INDEX_ID, 1, 2, 4)));
    copy.add_index(3, 50, Vec::new(), Vec::new());
    assert_eq!(copy.index_balances((TEST_INDEX_ID, 1)), 6);
    assert_eq!(module.index_balances((TEST_INDEX_ID, 1)), 10);
    assert_eq!(module.index_balances((TEST_INDEX_ID, 2)), 0);
    assert!(copy.contains_index(&50));
    assert!(!module.contains_index(&50));
    assert_eq!(module.get_index(&TEST_INDEX_ID), copy.get_index(&TEST_INDEX_ID));
}
