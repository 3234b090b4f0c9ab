use goban::stones::Color;
use goban::zobrist::{ZobristTable, SEED};
use rand::{RngCore, SeedableRng};
use rand_xorshift::XorShiftRng;

#[test]
fn seed_is_fixed() {
    assert_eq!(SEED, 172_147_124);
}

#[test]
fn keys_are_the_values_of_the_seeded_generator() {
    let table = ZobristTable::new(3);
    let mut rng = XorShiftRng::seed_from_u64(SEED);
    for row in 0..3 {
        for column in 0..3 {
            assert_eq!(table.key((row, column), Color::Black), rng.next_u64());
            assert_eq!(table.key((row, column), Color::White), rng.next_u64());
        }
    }
}

#[test]
fn first_keys_have_known_values() {
    let table = ZobristTable::new(2);
    assert_eq!(table.n(), 2);
    assert_eq!(table.key((0, 0), Color::Black), 5848684434842303928);
    assert_eq!(table.key((0, 0), Color::White), 4463621862008599690);
    assert_eq!(table.key((0, 1), Color::Black), 5403276010249408020);
    assert_eq!(table.key((0, 1), Color::White), 6180378851001349078);
    assert_eq!(table.key((1, 0), Color::Black), 13962305903538980755);
    assert_eq!(table.key((1, 0), Color::White), 8539789083786204115);
    assert_eq!(table.key((1, 1), Color::Black), 13876571255511959281);
    assert_eq!(table.key((1, 1), Color::White), 645291028013474947);
}

#[test]
fn two_tables_of_one_dimension_hold_the_same_keys() {
    let a = ZobristTable::new(19);
    let b = ZobristTable::new(19);
    for row in 0..19 {
        for column in 0..19 {
            for color in [Color::Black, Color::White] {
                assert_eq!(a.key((row, column), color), b.key((row, column), color));
            }
        }
    }
    let copy = a.clone();
    assert_eq!(copy.n(), 19);
    assert_eq!(copy.key((18, 18), Color::White), a.key((18, 18), Color::White));
}

#[test]
fn keys_differ_from_each_other() {
    let table = ZobristTable::new(9);
    let mut keys: Vec<u64> = Vec::new();
    for row in 0..9 {
        for column in 0..9 {
            keys.push(table.key((row, column), Color::Black));
            keys.push(table.key((row, column), Color::White));
        }
    }
    let mut sorted = keys.clone();
    sorted.sort();
    sorted.dedup();
    assert_eq!(sorted.len(), 162);
    assert!(!keys.contains(&SEED));
    assert!(!keys.contains(&0));
}

#[test]
fn a_larger_table_starts_with_the_keys_of_a_smaller_one_by_index() {
    let small = ZobristTable::new(2);
    let large = ZobristTable::new(4);
    assert_eq!(small.key((0, 1), Color::White), large.key((0, 1), Color::White));
    assert_eq!(small.key((1, 0), Color::Black), large.key((0, 2), Color::Black));
    assert_eq!(small.key((1, 1), Color::White), large.key((0, 3), Color::White));
}

#[test]
fn table_from_keys_wants_two_keys_for_each_intersection() {
    assert!(ZobristTable::from_keys(2, vec![0; 8]).is_some());
    assert!(ZobristTable::from_keys(2, vec![0; 7]).is_none());
    assert!(ZobristTable::from_keys(2, vec![0; 9]).is_none());
    assert!(ZobristTable::from_keys(0, vec![]).is_some());
    assert!(ZobristTable::from_keys(0, vec![1]).is_none());
    assert!(ZobristTable::from_keys(usize::MAX, vec![1, 2]).is_none());
    let table = ZobristTable::from_keys(1, vec![7, 9]).unwrap();
    assert_eq!(table.n(), 1);
    assert_eq!(table.key((0, 0), Color::Black), 7);
    assert_eq!(table.key((0, 0), Color::White), 9);
}
