use kitties::{
    combine, combine_dna, last_event, new_test_ext, random_value, AccountData, Balances, Error,
    Event, Kitty, MockRandom, Module, Test,
};

fn store(genesis: Vec<(u64, u128)>, stake: u128) -> Module {
    let config = Test { kitty_reserve_funds: stake, randomness: MockRandom { payload: [7u8; 32] } };
    Module::new(config, &genesis, 5)
}

#[test]
fn combine_dna_takes_selected_bits() {
    assert_eq!(combine_dna(0b1100_1100, 0b1010_1010, 0b1111_0000), 0b1100_1010);
    assert_eq!(combine_dna(0xff, 0x00, 0x0f), 0x0f);
}

#[test]
fn combine_all_ones_and_all_zeros() {
    let a = [1u8, 2, 3, 4, 5, 6, 7, 8, 9, 10, 11, 12, 13, 14, 15, 16];
    let b = [200u8; 16];
    assert_eq!(combine(&a, &b, &[0xff; 16]), a);
    assert_eq!(combine(&a, &b, &[0x00; 16]), b);
    let mixed = combine(&a, &b, &[0xf0; 16]);
    assert_eq!(mixed[0], 0x08);
    assert_eq!(combine(&a, &b, &[0xf0; 16]), mixed);
}

#[test]
fn random_value_hashes_the_encoded_payload() {
    let dna = random_value(&[0u8; 32], 1, Some(0));
    assert_eq!(dna, [39, 140, 77, 194, 163, 1, 154, 220, 108, 18, 30, 32, 100, 223, 46, 1]);
    assert_ne!(random_value(&[0u8; 32], 1, None), dna);
    assert_ne!(random_value(&[0u8; 32], 2, Some(0)), dna);
    assert_ne!(random_value(&[1u8; 32], 1, Some(0)), dna);
}

#[test]
fn ids_are_contiguous_from_one() {
    let mut ext = new_test_ext();
    assert_eq!(ext.create(1), Ok(()));
    assert_eq!(ext.create(2), Ok(()));
    assert_eq!(ext.breed(1, 1, 1), Err(Error::RequireDifferentParent));
    assert_eq!(ext.create(1), Ok(()));
    assert_eq!(ext.breed(1, 1, 3), Ok(()));
    assert_eq!(ext.kitties_count(), 4);
    assert_eq!(ext.kitty_owner(1), Some(1));
    assert_eq!(ext.kitty_owner(2), Some(2));
    assert_eq!(ext.kitty_owner(3), Some(1));
    assert_eq!(ext.kitty_owner(4), Some(1));
    assert_eq!(ext.kitty_owner(5), None);
    assert_eq!(ext.kitty_owner(0), None);
}

#[test]
fn inventories_follow_ownership() {
    let mut ext = new_test_ext();
    assert_eq!(ext.create(1), Ok(()));
    assert_eq!(ext.create(1), Ok(()));
    assert_eq!(ext.transfer(1, 2, 1), Ok(()));
    let one: Vec<u32> = ext.account_kitties(1).iter().map(|p| p.0).collect();
    let two: Vec<u32> = ext.account_kitties(2).iter().map(|p| p.0).collect();
    assert_eq!(one, vec![2]);
    assert_eq!(two, vec![1]);
    assert!(ext.account_kitties(3).is_empty());
    assert_eq!(ext.lock_amount(1), Some(100));
    assert_eq!(ext.lock_amount(2), Some(100));
    assert_eq!(ext.lock_amount(3), None);
    assert_eq!(ext.kitties(2, 1), ext.kitties(2, 1));
    assert_eq!(ext.kitties(1, 1), None);
}

#[test]
fn create_without_stake_changes_nothing() {
    let mut ext = store(vec![(1, 150)], 100);
    assert_eq!(ext.create(1), Ok(()));
    assert_eq!(ext.create(1), Err(Error::BalanceNotEnough));
    assert_eq!(ext.kitties_count(), 1);
    assert_eq!(ext.kitties(1, 2), None);
    assert_eq!(ext.get_kitty_from_node().len(), 1);
    assert!(ext.account_kitties(1).len() == 1);
    assert_eq!(ext.balances.free_balance(1), 50);
    assert_eq!(ext.balances.reserved_balance(1), 100);
    assert_eq!(last_event(&ext), Event::Created(1, 1));
}

#[test]
fn breed_without_stake_changes_nothing() {
    let mut ext = store(vec![(1, 200)], 100);
    assert_eq!(ext.create(1), Ok(()));
    assert_eq!(ext.create(1), Ok(()));
    assert_eq!(ext.breed(1, 1, 2), Err(Error::BalanceNotEnough));
    assert_eq!(ext.kitties_count(), 2);
    assert_eq!(ext.get_kitty_from_node().len(), 2);
    assert!(ext.get_kitty_from_node()[0].children.is_empty());
    assert!(ext.get_kitty_from_node()[1].children.is_empty());
    assert_eq!(ext.balances.reserved_balance(1), 200);
}

#[test]
fn breed_same_parent_refused_whatever_the_owner() {
    let mut ext = new_test_ext();
    assert_eq!(ext.breed(1, 7, 7), Err(Error::RequireDifferentParent));
    assert_eq!(ext.breed(1, 0, 0), Err(Error::RequireDifferentParent));
    assert_eq!(ext.create(2), Ok(()));
    assert_eq!(ext.breed(1, 1, 1), Err(Error::RequireDifferentParent));
    assert_eq!(ext.breed(2, 1, 1), Err(Error::RequireDifferentParent));
    assert_eq!(ext.breed(1, 1, 2), Err(Error::InvalidaKittyId));
}

#[test]
fn breed_with_selector_combines_parents() {
    let mut ext = new_test_ext();
    assert_eq!(ext.create_with_dna(1, Kitty([0xaa; 16])), Ok(()));
    assert_eq!(ext.create_with_dna(1, Kitty([0x55; 16])), Ok(()));
    assert_eq!(ext.breed_with_selector(1, 1, 2, [0xf0; 16]), Ok(()));
    assert_eq!(ext.kitties(1, 3), Some(Kitty([0xa5; 16])));
    let nodes = ext.get_kitty_from_node();
    assert_eq!(nodes[2].companion, Some((1, 2)));
    assert_eq!(nodes[0].children, vec![3]);
    assert_eq!(nodes[1].children, vec![3]);
}

#[test]
fn transfer_moves_stake() {
    let mut ext = new_test_ext();
    assert_eq!(ext.create(1), Ok(()));
    assert_eq!(ext.reserve_funds(1, 50), Ok(()));
    assert_eq!(ext.transfer(1, 2, 1), Ok(()));
    assert_eq!(ext.balances.reserved_balance(1), 50);
    assert_eq!(ext.balances.free_balance(1), 9850);
    assert_eq!(ext.balances.reserved_balance(2), 100);
    assert_eq!(ext.balances.free_balance(2), 11000);
    assert_eq!(ext.kitty_owner(1), Some(2));
}

#[test]
fn transfer_with_shortfall_in_reserve() {
    let mut ext = new_test_ext();
    assert_eq!(ext.create(1), Ok(()));
    assert_eq!(ext.unreserve_and_transfer(1, 3, 60), Ok(()));
    assert_eq!(last_event(&ext), Event::TransferFunds(1, 3, 60, 1));
    assert_eq!(ext.transfer(1, 2, 1), Ok(()));
    assert_eq!(last_event(&ext), Event::Transfered(1, 2, 1));
    assert_eq!(ext.balances.reserved_balance(1), 0);
    assert_eq!(ext.balances.free_balance(1), 9900);
    assert_eq!(ext.balances.reserved_balance(2), 100);
    assert_eq!(ext.balances.free_balance(2), 10940);
}

#[test]
fn unreserve_and_transfer_drops_overdraft() {
    let mut ext = new_test_ext();
    assert_eq!(ext.reserve_funds(1, 30), Ok(()));
    assert_eq!(ext.unreserve_and_transfer(1, 2, 100), Ok(()));
    assert_eq!(last_event(&ext), Event::TransferFunds(1, 2, 30, 1));
    assert_eq!(ext.balances.free_balance(1), 9970);
    assert_eq!(ext.balances.free_balance(2), 11030);
}

#[test]
fn transfer_refused_when_receiver_cannot_stake() {
    let mut ext = store(vec![(1, 100), (2, 0)], 100);
    assert_eq!(ext.create(1), Ok(()));
    assert_eq!(ext.unreserve_and_transfer(1, 3, 100), Ok(()));
    assert_eq!(ext.transfer(1, 2, 1), Err(Error::BalanceNotEnough));
    assert_eq!(ext.kitty_owner(1), Some(1));
    assert_eq!(ext.transfer(3, 2, 1), Err(Error::InvalidaKittyId));
}

#[test]
fn transfer_refused_on_overflow() {
    let mut ext = store(vec![(1, 1000), (2, u128::MAX - 50)], 100);
    assert_eq!(ext.create(1), Ok(()));
    assert_eq!(ext.transfer(1, 2, 1), Err(Error::BalanceOverflow));
    assert_eq!(ext.unreserve_and_transfer(1, 2, 100), Err(Error::BalanceOverflow));
    assert_eq!(ext.balances.reserved_balance(1), 100);
}

#[test]
fn transfer_to_self_keeps_stake() {
    let mut ext = new_test_ext();
    assert_eq!(ext.create(1), Ok(()));
    assert_eq!(ext.transfer(1, 1, 1), Ok(()));
    assert_eq!(ext.balances.reserved_balance(1), 100);
    assert_eq!(ext.balances.free_balance(1), 9900);
}

#[test]
fn end_to_end_scenario() {
    let mut ext = new_test_ext();
    assert_eq!(ext.create(1), Ok(()));
    assert_eq!(ext.kitty_owner(1), Some(1));
    assert_eq!(ext.balances.free_balance(1), 9900);
    assert_eq!(ext.balances.reserved_balance(1), 100);
    assert_eq!(ext.events.iter().filter(|e| **e == Event::Created(1, 1)).count(), 1);
    assert_eq!(ext.create(1), Ok(()));
    assert_eq!(ext.kitty_owner(2), Some(1));
    assert_eq!(ext.balances.free_balance(1), 9800);
    assert_eq!(ext.balances.reserved_balance(1), 200);
    assert_eq!(ext.breed(1, 1, 2), Ok(()));
    assert_eq!(ext.kitty_owner(3), Some(1));
    assert_eq!(ext.balances.free_balance(1), 9700);
    assert_eq!(ext.balances.reserved_balance(1), 300);
    let nodes = ext.get_kitty_from_node();
    assert_eq!(nodes[2].kitty_id, 3);
    assert_eq!(nodes[2].companion, Some((1, 2)));
    assert_eq!(nodes[0].children, vec![3]);
    assert_eq!(nodes[1].children, vec![3]);
    assert_eq!(nodes[0].companion, None);
}

#[test]
fn transfer_scenario() {
    let mut ext = new_test_ext();
    assert_eq!(ext.create(1), Ok(()));
    assert_eq!(ext.transfer(1, 2, 1), Ok(()));
    assert_eq!(ext.balances.free_balance(1), 9900);
    assert_eq!(ext.balances.reserved_balance(1), 0);
    assert_eq!(ext.balances.free_balance(2), 11000);
    assert_eq!(ext.balances.reserved_balance(2), 100);
}

#[test]
fn ledger_operations() {
    let mut b = Balances::from_genesis(&vec![(9, 10), (8, 5), (9, 40)]);
    assert_eq!(b.free_balance(9), 40);
    assert_eq!(b.free_balance(8), 5);
    assert_eq!(b.free_balance(7), 0);
    assert!(b.reserve(9, 41).is_err());
    assert_eq!(b.reserve(9, 15), Ok(()));
    assert_eq!(b.unreserve(9, 20), 5);
    assert_eq!(b.reserved_balance(9), 0);
    assert_eq!(b.free_balance(9), 40);
    assert_eq!(b.transfer(9, 8, 41), Err(kitties::BalanceError::InsufficientBalance));
    assert_eq!(b.transfer(9, 8, 40), Ok(()));
    assert_eq!(b.free_balance(8), 45);
    assert_eq!(b.transfer(8, 8, 1000), Ok(()));
    let d = AccountData { free: 45, reserved: 0 };
    assert_eq!(AccountData { free: b.free_balance(8), reserved: b.reserved_balance(8) }, d);
}
