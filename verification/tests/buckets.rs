use futex::flags::FUTEX_BITSET_MATCH_ANY;
use futex::futex::{FutexKey, FutexQ, PrivateKey};
use futex::queue::FutexQueues;
use std::collections::VecDeque;

fn key(n: u64) -> FutexKey {
    FutexKey::Private(PrivateKey::new(1, n * 4096, 0))
}

fn bucket(items: &[(u64, u32, u32)]) -> VecDeque<FutexQ<u32>> {
    items.iter().map(|&(k, bits, task)| FutexQ::new(key(k), bits, task)).collect()
}

fn tasks(items: &VecDeque<FutexQ<u32>>) -> Vec<u32> {
    items.iter().map(|w| *w.get_task()).collect()
}

fn taken_tasks(items: &[FutexQ<u32>]) -> Vec<u32> {
    items.iter().map(|w| *w.get_task()).collect()
}

#[test]
fn get_one_on_an_empty_bucket_finds_nothing() {
    let mut b = bucket(&[]);
    assert!(FutexQueues::get_one(&mut b, key(1), FUTEX_BITSET_MATCH_ANY).is_none());
    assert!(b.is_empty());
}

#[test]
fn get_one_takes_the_oldest_match_and_keeps_the_order_of_the_rest() {
    let mut b = bucket(&[(2, 1, 10), (3, 1, 11), (1, 1, 12), (4, 1, 13), (1, 1, 14)]);
    let found = FutexQueues::get_one(&mut b, key(1), FUTEX_BITSET_MATCH_ANY).unwrap();
    assert_eq!(*found.get_task(), 12);
    assert_eq!(found.key(), key(1));
    assert_eq!(tasks(&b), vec![10, 11, 13, 14]);
}

#[test]
fn get_one_without_a_match_leaves_the_bucket_alone() {
    let mut b = bucket(&[(2, 1, 10), (3, 1, 11)]);
    assert!(FutexQueues::get_one(&mut b, key(1), FUTEX_BITSET_MATCH_ANY).is_none());
    assert_eq!(tasks(&b), vec![10, 11]);
}

#[test]
fn get_one_matches_on_shared_bits_not_on_equal_bitsets() {
    let mut b = bucket(&[(1, 0b0100, 10), (1, 0b0011, 11)]);
    let found = FutexQueues::get_one(&mut b, key(1), 0b0001).unwrap();
    assert_eq!(*found.get_task(), 11);
    assert_eq!(found.bitset(), 0b0011);
    assert_eq!(tasks(&b), vec![10]);
}

#[test]
fn get_one_with_a_zero_bitset_matches_nobody() {
    let mut b = bucket(&[(1, 0xffff_ffff, 10)]);
    assert!(FutexQueues::get_one(&mut b, key(1), 0).is_none());
    assert_eq!(tasks(&b), vec![10]);
}

#[test]
fn take_matching_stops_at_the_limit() {
    let mut b = bucket(&[(1, 1, 10), (2, 1, 11), (1, 1, 12), (1, 1, 13)]);
    let out = FutexQueues::take_matching(&mut b, key(1), FUTEX_BITSET_MATCH_ANY, 2);
    assert_eq!(taken_tasks(&out), vec![10, 12]);
    assert_eq!(tasks(&b), vec![11, 13]);
}

#[test]
fn take_matching_with_limit_zero_takes_nothing() {
    let mut b = bucket(&[(1, 1, 10), (1, 1, 11)]);
    let out = FutexQueues::take_matching(&mut b, key(1), FUTEX_BITSET_MATCH_ANY, 0);
    assert!(out.is_empty());
    assert_eq!(tasks(&b), vec![10, 11]);
}

#[test]
fn take_matching_with_a_large_limit_takes_every_match() {
    let mut b = bucket(&[(1, 1, 10), (2, 1, 11), (1, 1, 12)]);
    let out = FutexQueues::take_matching(&mut b, key(1), FUTEX_BITSET_MATCH_ANY, usize::MAX);
    assert_eq!(taken_tasks(&out), vec![10, 12]);
    assert_eq!(tasks(&b), vec![11]);
}

#[test]
fn take_matching_never_returns_a_waiter_of_another_key() {
    let mut b = bucket(&[(1, 1, 10), (2, 1, 11), (3, 1, 12)]);
    let out = FutexQueues::take_matching(&mut b, key(2), FUTEX_BITSET_MATCH_ANY, 10);
    assert_eq!(taken_tasks(&out), vec![11]);
    assert!(out.iter().all(|w| w.key() == key(2)));
    assert_eq!(tasks(&b), vec![10, 12]);
}

#[test]
fn take_matching_leaves_disjoint_bitsets_for_a_later_wake() {
    let mut b = bucket(&[(1, 0b01, 10), (1, 0b10, 11), (1, 0b11, 12), (1, 0b100, 13)]);
    let out = FutexQueues::take_matching(&mut b, key(1), 0b10, 10);
    assert_eq!(taken_tasks(&out), vec![11, 12]);
    assert_eq!(tasks(&b), vec![10, 13]);
    let later = FutexQueues::take_matching(&mut b, key(1), 0b101, 10);
    assert_eq!(taken_tasks(&later), vec![10, 13]);
    assert!(b.is_empty());
}

#[test]
fn take_matching_loses_and_repeats_nobody() {
    let mut b = bucket(&[(1, 1, 1), (2, 2, 2), (1, 2, 3), (1, 1, 4), (3, 1, 5), (1, 3, 6)]);
    let out = FutexQueues::take_matching(&mut b, key(1), 1, 2);
    let mut all = taken_tasks(&out);
    all.extend(tasks(&b));
    all.sort();
    assert_eq!(all, vec![1, 2, 3, 4, 5, 6]);
    assert_eq!(taken_tasks(&out), vec![1, 4]);
    assert_eq!(tasks(&b), vec![2, 3, 5, 6]);
}

#[test]
fn move_all_matching_relabels_and_appends_in_order() {
    let mut from = bucket(&[(1, 1, 10), (2, 1, 11), (1, 4, 12)]);
    let mut to = bucket(&[(5, 1, 20)]);
    FutexQueues::move_all_matching(&mut from, &mut to, key(1), key(5));
    assert_eq!(tasks(&from), vec![11]);
    assert_eq!(tasks(&to), vec![20, 10, 12]);
    assert!(to.iter().all(|w| w.key() == key(5)));
    let bitsets: Vec<u32> = to.iter().map(|w| w.bitset()).collect();
    assert_eq!(bitsets, vec![1, 1, 4]);
}

#[test]
fn move_all_matching_without_a_match_changes_nothing() {
    let mut from = bucket(&[(2, 1, 11)]);
    let mut to = bucket(&[(5, 1, 20)]);
    FutexQueues::move_all_matching(&mut from, &mut to, key(1), key(5));
    assert_eq!(tasks(&from), vec![11]);
    assert_eq!(tasks(&to), vec![20]);
}

#[test]
fn move_within_sends_the_moved_waiters_to_the_tail() {
    let mut b = bucket(&[(1, 1, 10), (2, 1, 11), (1, 1, 12), (3, 1, 13)]);
    FutexQueues::move_within(&mut b, key(1), key(3));
    assert_eq!(tasks(&b), vec![11, 13, 10, 12]);
    let keys: Vec<FutexKey> = b.iter().map(|w| w.key()).collect();
    assert_eq!(keys, vec![key(2), key(3), key(3), key(3)]);
}

#[test]
fn move_within_onto_the_same_key_ends() {
    let mut b = bucket(&[(1, 1, 10), (2, 1, 11), (1, 1, 12)]);
    FutexQueues::move_within(&mut b, key(1), key(1));
    assert_eq!(tasks(&b), vec![11, 10, 12]);
}
