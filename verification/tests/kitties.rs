//! The three transitions exercised end to end, with plain doubles for the
//! runtime collaborators: a fixed account set that can afford the stake,
//! and fixed byte patterns in place of the drawn randomness.

use pallet_kitties::Error;
use pallet_kitties::Event;
use pallet_kitties::Module;

/// The balance double: accounts 1 through 5 can afford the fixed stake,
/// everyone else cannot.
fn stake_ok(account: u64) -> bool {
    (1..=5).contains(&account)
}

/// The randomness double: a fixed 16-byte pattern per call.
fn dna(seed: u8) -> [u8; 16] {
    [seed; 16]
}

#[test]
fn create_works() {
    let mut m = Module::new();
    assert_eq!(m.create(1, dna(1), stake_ok(1)), Ok(Event::Created(1, 0)));
    assert_eq!(m.kitties_count(), 1);
}

#[test]
fn create_faild_when_money_not_enough() {
    let mut m = Module::new();
    assert_eq!(m.create(7, dna(1), stake_ok(7)), Err(Error::InsufficientStake));
}

#[test]
fn transfer_kitty_works() {
    let mut m = Module::new();
    let _ = m.create(1, dna(1), stake_ok(1));
    assert_eq!(m.transfer(1, 2, 0), Ok(Event::Transferred(1, 2, 0)));
}

#[test]
fn transfer_kitty_failed_when_no_exists() {
    let mut m = Module::new();
    assert_eq!(m.transfer(1, 2, 0), Err(Error::EntityNotFound));
}

#[test]
fn transfer_kitty_failed_when_not_owner() {
    let mut m = Module::new();
    let _ = m.create(1, dna(1), stake_ok(1));
    assert_eq!(m.transfer(2, 3, 0), Err(Error::NotOwner));
}

#[test]
fn transfer_kitty_failed_when_transfer_self() {
    let mut m = Module::new();
    let _ = m.create(1, dna(1), stake_ok(1));
    assert_eq!(m.transfer(1, 1, 0), Err(Error::SelfTransfer));
}

#[test]
fn breed_kitty_work() {
    let mut m = Module::new();
    let _ = m.create(1, dna(1), stake_ok(1));
    let _ = m.create(1, dna(2), stake_ok(1));
    assert_eq!(m.breed(1, 0, 1, dna(3), stake_ok(1)), Ok(Event::Bred(1, 0, 1, 2)));
}

#[test]
fn breed_kitty_fail_money_not_enough() {
    let mut m = Module::new();
    let _ = m.create(1, dna(1), stake_ok(1));
    let _ = m.create(1, dna(2), stake_ok(1));
    assert_eq!(m.breed(7, 0, 1, dna(3), stake_ok(7)), Err(Error::InsufficientStake));
}

#[test]
fn breed_kitty_fail_with_same_parent() {
    let mut m = Module::new();
    let _ = m.create(1, dna(1), stake_ok(1));
    assert_eq!(m.breed(1, 0, 0, dna(3), stake_ok(1)), Err(Error::IdenticalParents));
}

#[test]
fn breed_kitty_fail_when_invalid_kittyid() {
    let mut m = Module::new();
    assert_eq!(m.breed(1, 0, 1, dna(3), stake_ok(1)), Err(Error::EntityNotFound));
}

#[test]
fn breed_kitty_work_when_not_owner() {
    let mut m = Module::new();
    let _ = m.create(1, dna(1), stake_ok(1));
    let _ = m.create(1, dna(2), stake_ok(1));
    assert_eq!(m.breed(2, 0, 1, dna(3), stake_ok(2)), Err(Error::NotOwner));
}

#[test]
fn create_assigns_sequential_ids() {
    let mut m = Module::new();
    assert_eq!(m.create(1, dna(1), true), Ok(Event::Created(1, 0)));
    assert_eq!(m.create(2, dna(2), true), Ok(Event::Created(2, 1)));
    assert_eq!(m.create(1, dna(3), true), Ok(Event::Created(1, 2)));
    assert_eq!(m.kitties_count(), 3);
}

#[test]
fn failed_create_leaves_counter_unchanged() {
    let mut m = Module::new();
    assert_eq!(m.create(7, dna(1), stake_ok(7)), Err(Error::InsufficientStake));
    assert_eq!(m.kitties_count(), 0);
    assert_eq!(m.create(1, dna(1), stake_ok(1)), Ok(Event::Created(1, 0)));
}

#[test]
fn every_entity_has_one_owner() {
    let mut m = Module::new();
    let _ = m.create(1, dna(1), true);
    let _ = m.create(1, dna(2), true);
    let _ = m.breed(1, 0, 1, dna(3), true);
    let _ = m.transfer(1, 3, 0);
    assert_eq!(m.kitties_count(), 3);
    for id in 0..m.kitties_count() {
        assert!(m.kitties_owner(id).is_some());
    }
    assert_eq!(m.kitties_owner(m.kitties_count()), None);
}

#[test]
fn combine_dna_picks_bits_by_selector() {
    assert_eq!(Module::combine_dna(0b1100_1010, 0b0101_0110, 0b1111_0000), 0b1100_0110);
    assert_eq!(Module::combine_dna(0xAB, 0xCD, 0x00), 0xCD);
    assert_eq!(Module::combine_dna(0xAB, 0xCD, 0xFF), 0xAB);
}

#[test]
fn combine_dna_is_bit_local() {
    let d1: u8 = 0b1010_0101;
    let d2: u8 = 0b0110_1100;
    let sel: u8 = 0b1001_0011;
    let base = Module::combine_dna(d1, d2, sel);
    for k in 0..8u8 {
        let flipped = Module::combine_dna(d1, d2, sel ^ (1 << k));
        // every bit but k is unchanged
        assert_eq!(base & !(1 << k), flipped & !(1 << k));
        // bit k follows the selector's bit k
        assert_eq!((base >> k) & 1, if (sel >> k) & 1 == 1 { (d1 >> k) & 1 } else { (d2 >> k) & 1 });
        let s2 = sel ^ (1 << k);
        assert_eq!(
            (flipped >> k) & 1,
            if (s2 >> k) & 1 == 1 { (d1 >> k) & 1 } else { (d2 >> k) & 1 }
        );
    }
}

#[test]
fn breed_combines_parent_codes() {
    let mut m = Module::new();
    let _ = m.create(1, [0xFF; 16], true);
    let _ = m.create(1, [0x00; 16], true);
    let selector = [0b1010_1010u8; 16];
    assert_eq!(m.breed(1, 0, 1, selector, true), Ok(Event::Bred(1, 0, 1, 2)));
    let child = m.kitties(2).unwrap();
    assert_eq!(child.0, [0b1010_1010u8; 16]);
}

#[test]
fn breed_records_genealogy() {
    let mut m = Module::new();
    let _ = m.create(1, dna(1), true);
    let _ = m.create(1, dna(2), true);
    assert_eq!(m.breed(1, 0, 1, dna(3), true), Ok(Event::Bred(1, 0, 1, 2)));
    assert_eq!(m.kitty_parents(2), Some((0, 1)));
    assert_eq!(m.kitty_children(0, 1), vec![2]);
    assert_eq!(m.kitty_sibling(2), Vec::<u32>::new());
    assert_eq!(m.kitty_partner(0), vec![1]);
    assert_eq!(m.kitty_partner(1), vec![0]);
    assert_eq!(m.kitty_parents(0), None);
    assert_eq!(m.kitty_parents(1), None);
}

#[test]
fn repeated_breeding_keeps_partners_unique() {
    let mut m = Module::new();
    let _ = m.create(1, dna(1), true);
    let _ = m.create(1, dna(2), true);
    let _ = m.breed(1, 0, 1, dna(3), true);
    let _ = m.breed(1, 0, 1, dna(4), true);
    assert_eq!(m.kitty_partner(0), vec![1]);
    assert_eq!(m.kitty_partner(1), vec![0]);
    assert_eq!(m.kitty_children(0, 1), vec![2, 3]);
}

#[test]
fn sibling_snapshot_is_taken_at_birth() {
    let mut m = Module::new();
    let _ = m.create(1, dna(1), true);
    let _ = m.create(1, dna(2), true);
    let _ = m.breed(1, 0, 1, dna(3), true);
    let _ = m.breed(1, 0, 1, dna(4), true);
    let _ = m.breed(1, 0, 1, dna(5), true);
    // the first child saw no siblings; later ones see only the earlier ones
    assert_eq!(m.kitty_sibling(2), Vec::<u32>::new());
    assert_eq!(m.kitty_sibling(3), vec![2]);
    assert_eq!(m.kitty_sibling(4), vec![2, 3]);
}

#[test]
fn children_are_keyed_by_the_ordered_pair() {
    let mut m = Module::new();
    let _ = m.create(1, dna(1), true);
    let _ = m.create(1, dna(2), true);
    let _ = m.breed(1, 0, 1, dna(3), true);
    let _ = m.breed(1, 1, 0, dna(4), true);
    assert_eq!(m.kitty_children(0, 1), vec![2]);
    assert_eq!(m.kitty_children(1, 0), vec![3]);
    assert_eq!(m.kitty_children(2, 3), Vec::<u32>::new());
}

#[test]
fn transfer_moves_the_holding() {
    let mut m = Module::new();
    let _ = m.create(1, dna(1), true);
    assert_eq!(m.kitty_total(1), vec![0]);
    assert_eq!(m.transfer(1, 2, 0), Ok(Event::Transferred(1, 2, 0)));
    assert_eq!(m.kitties_owner(0), Some(2));
    assert_eq!(m.kitty_total(1), Vec::<u32>::new());
    assert_eq!(m.kitty_total(2), vec![0]);
}

#[test]
fn holdings_keep_insertion_order() {
    let mut m = Module::new();
    let _ = m.create(1, dna(1), true);
    let _ = m.create(2, dna(2), true);
    let _ = m.create(1, dna(3), true);
    assert_eq!(m.kitty_total(1), vec![0, 2]);
    let _ = m.transfer(2, 1, 1);
    assert_eq!(m.kitty_total(1), vec![0, 2, 1]);
    let _ = m.transfer(1, 2, 2);
    assert_eq!(m.kitty_total(1), vec![0, 1]);
    assert_eq!(m.kitty_total(2), vec![2]);
}

#[test]
fn missing_entities_are_not_found() {
    let mut m = Module::new();
    assert_eq!(m.kitties(0), None);
    assert_eq!(m.kitties_owner(0), None);
    assert_eq!(m.kitty_total(9), Vec::<u32>::new());
    let _ = m.create(1, dna(1), true);
    assert_eq!(m.breed(1, 0, 5, dna(2), true), Err(Error::EntityNotFound));
}
