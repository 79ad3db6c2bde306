//! The table of blocked waiters: a fixed number of buckets, each an ordered
//! queue behind its own spin lock.
//!
//! The scans themselves work on a bucket that the caller has exclusive access
//! to, and say exactly what they take and leave. The table's own methods lock
//! the bucket (or the two buckets) a call concerns and run the scan on it;
//! what a bucket holds at that moment depends on the other threads.

use vstd::prelude::*;
use std::collections::VecDeque;
use spin::mutex::{Mutex, MutexGuard};
use spin::relax::Spin;
use crate::flags::FUTEX_BITSET_MATCH_ANY;
use crate::futex::{FutexKey, FutexQ};
use crate::hash::{simple_hash, spec_hash};
use crate::model::{
    first_match, kept, lemma_first_match, lemma_first_match_is, lemma_kept_from_bucket,
    lemma_scan_none, lemma_scan_step, lemma_taken_reached, reached, relabel, taken,
};

verus! {

/// Number of buckets in the table; a prime, so that page-aligned addresses
/// do not pile up in a few of them.
pub const FUTEX_HASH_SIZE: usize = 257;

/// `spin::mutex::Mutex`, carried through as an opaque value.
#[verifier::external_type_specification]
#[verifier::external_body]
#[verifier::reject_recursive_types(T)]
#[verifier::reject_recursive_types(R)]
pub struct ExMutex<T: ?Sized, R>(Mutex<T, R>);

/// `spin::mutex::MutexGuard`, carried through as an opaque value.
#[verifier::external_type_specification]
#[verifier::external_body]
#[verifier::reject_recursive_types(T)]
#[verifier::reject_recursive_types(R)]
pub struct ExMutexGuard<'a, T: 'a + ?Sized, R>(MutexGuard<'a, T, R>);

/// `spin::relax::Spin`, the marker of the busy-waiting strategy.
#[verifier::external_type_specification]
#[verifier::external_body]
pub struct ExSpin(Spin);

/// Calls `spin::mutex::Mutex::new`, which wraps the queue in an unlocked
/// mutex. Nothing is claimed of the result.
#[verifier::external_body]
fn new_bucket<T>(waiters: VecDeque<FutexQ<T>>) -> (bucket: Mutex<VecDeque<FutexQ<T>>, Spin>) {
    Mutex::new(waiters)
}

/// Calls `spin::mutex::Mutex::lock`, which spins until the mutex is free and
/// returns the guard that holds it; the mutex is released when the guard is
/// dropped. Nothing is claimed of the queue behind the guard. The call does
/// not return while the calling thread itself holds a guard of the same
/// mutex: the table never locks a bucket it already holds.
#[verifier::external_body]
fn lock_bucket<'a, T>(bucket: &'a Mutex<VecDeque<FutexQ<T>>, Spin>) -> (guard: MutexGuard<
    'a,
    VecDeque<FutexQ<T>>,
    Spin,
>) {
    bucket.lock()
}

/// Calls `MutexGuard`'s `deref_mut`, which hands out the queue that the held
/// mutex protects. Nothing is claimed of what the queue holds.
#[verifier::external_body]
fn bucket_mut<'a, 'b, T>(guard: &'a mut MutexGuard<'b, VecDeque<FutexQ<T>>, Spin>) -> (waiters:
    &'a mut VecDeque<FutexQ<T>>) {
    core::ops::DerefMut::deref_mut(guard)
}

/// The bucket a key belongs to.
pub open spec fn bucket_of(key: FutexKey) -> int {
    spec_hash(key) as int % FUTEX_HASH_SIZE as int
}

/// Every waiter of `s` is filed under a key of bucket `index`.
pub open spec fn homed<T>(s: Seq<FutexQ<T>>, index: int) -> bool {
    forall|i: int| 0 <= i < s.len() ==> bucket_of((#[trigger] s[i]).key()) == index
}

/// A waiter stands in the bucket of its key, and what the table does to its
/// buckets keeps it so: appending a waiter to the bucket of its key, scanning
/// a bucket, and moving the waiters of one key to the tail of the bucket of
/// the key that they are filed under from then on.
pub proof fn law_waiters_stay_home<T>(
    from: Seq<FutexQ<T>>,
    to: Seq<FutexQ<T>>,
    w: FutexQ<T>,
    key: FutexKey,
    key_to: FutexKey,
    bitset: u32,
    limit: nat,
)
    requires
        homed(from, bucket_of(key)),
        homed(to, bucket_of(key_to)),
    ensures
        bucket_of(w.key()) == bucket_of(key) ==> homed(from.push(w), bucket_of(key)),
        homed(kept(from, key, bitset, limit), bucket_of(key)),
        homed(to + relabel(taken(from, key, bitset, limit), key_to), bucket_of(key_to)),
        bucket_of(key) == bucket_of(key_to) ==> homed(
            kept(from, key, bitset, limit) + relabel(taken(from, key, bitset, limit), key_to),
            bucket_of(key),
        ),
{
    let stay = kept(from, key, bitset, limit);
    let moved = relabel(taken(from, key, bitset, limit), key_to);
    lemma_kept_from_bucket(from, key, bitset, limit);
    assert forall|i: int| 0 <= i < stay.len() implies bucket_of((#[trigger] stay[i]).key())
        == bucket_of(key) by {
        let n = choose|n: int| 0 <= n < from.len() && from[n] == stay[i];
        assert(bucket_of(from[n].key()) == bucket_of(key));
    }
    assert forall|i: int| 0 <= i < moved.len() implies (#[trigger] moved[i]).key() == key_to by {
        taken(from, key, bitset, limit)[i].rekeyed_fields(key_to);
    }
    assert forall|i: int| 0 <= i < (to + moved).len() implies bucket_of(
        (#[trigger] (to + moved)[i]).key(),
    ) == bucket_of(key_to) by {
        if i < to.len() {
            assert((to + moved)[i] == to[i]);
        } else {
            assert((to + moved)[i] == moved[i - to.len()]);
        }
    }
    if bucket_of(key) == bucket_of(key_to) {
        assert forall|i: int| 0 <= i < (stay + moved).len() implies bucket_of(
            (#[trigger] (stay + moved)[i]).key(),
        ) == bucket_of(key) by {
            if i < stay.len() {
                assert((stay + moved)[i] == stay[i]);
            } else {
                assert((stay + moved)[i] == moved[i - stay.len()]);
            }
        }
    }
}

/// The index of the bucket that holds the waiters of `futex_key`.
pub fn futex_hash(futex_key: &FutexKey) -> (index: usize)
    ensures
        index == bucket_of(*futex_key),
        index < FUTEX_HASH_SIZE,
{
    (simple_hash(futex_key) % (FUTEX_HASH_SIZE as u64)) as usize
}

/// The order in which the locks of two buckets are taken: the lower index
/// first, whichever of the two was named first.
pub fn lock_order(index1: usize, index2: usize) -> (order: (usize, usize))
    ensures
        order.0 <= order.1,
        order == (index1, index2) || order == (index2, index1),
{
    if index1 <= index2 {
        (index1, index2)
    } else {
        (index2, index1)
    }
}

/// The sharded table of waiters.
#[verifier::reject_recursive_types(T)]
pub struct FutexQueues<T> {
    buckets: Vec<Mutex<VecDeque<FutexQ<T>>, Spin>>,
}

impl<T> FutexQueues<T> {
    #[verifier::type_invariant]
    spec fn inv(self) -> bool {
        self.buckets.len() == FUTEX_HASH_SIZE
    }

    /// A table of `FUTEX_HASH_SIZE` empty buckets.
    pub fn new() -> (table: Self)
        ensures
            table.bucket_count() == FUTEX_HASH_SIZE,
            forall|key: FutexKey| 0 <= #[trigger] bucket_of(key) < table.bucket_count(),
    {
        let mut buckets: Vec<Mutex<VecDeque<FutexQ<T>>, Spin>> = Vec::new();
        for i in 0..FUTEX_HASH_SIZE
            invariant
                buckets.len() == i,
        {
            buckets.push(new_bucket(VecDeque::new()));
        }
        Self { buckets }
    }

    /// Appends a waiter at the tail of its key's bucket.
    pub fn push(&self, futex: FutexQ<T>) {
        proof {
            use_type_invariant(self);
        }
        let index = futex_hash(&futex.key());
        let mut guard = lock_bucket(&self.buckets[index]);
        let bucket = bucket_mut(&mut guard);
        bucket.push_back(futex);
    }

    /// Takes up to `cnt` waiters that a wake for `key` with `bitset` reaches
    /// out of the key's bucket, oldest first.
    pub fn wake_some(&self, key: &FutexKey, bitset: u32, cnt: usize) -> (woken: Vec<FutexQ<T>>)
        ensures
            woken.len() <= cnt,
            forall|i: int| 0 <= i < woken.len() ==> reached(#[trigger] woken[i], *key, bitset),
    {
        proof {
            use_type_invariant(self);
        }
        let index = futex_hash(key);
        let mut guard = lock_bucket(&self.buckets[index]);
        let bucket = bucket_mut(&mut guard);
        let ghost before = bucket@;
        let woken = Self::take_matching(bucket, *key, bitset, cnt);
        proof {
            lemma_taken_reached(before, *key, bitset, cnt as nat);
        }
        woken
    }

    /// Moves every waiter of `key1` to the bucket of `key2` and files it
    /// under `key2`. Both buckets stay locked for the whole move; their locks
    /// are taken in the order of their indices, and only one lock is taken
    /// when the two keys share a bucket.
    pub fn requeue(&self, key1: &FutexKey, key2: &FutexKey) {
        proof {
            use_type_invariant(self);
        }
        let index1 = futex_hash(key1);
        let index2 = futex_hash(key2);
        let (low, high) = lock_order(index1, index2);
        if low == high {
            let mut guard = lock_bucket(&self.buckets[low]);
            Self::move_within(bucket_mut(&mut guard), *key1, *key2);
        } else {
            let mut low_guard = lock_bucket(&self.buckets[low]);
            let mut high_guard = lock_bucket(&self.buckets[high]);
            let low_bucket = bucket_mut(&mut low_guard);
            let high_bucket = bucket_mut(&mut high_guard);
            if index1 == low {
                Self::move_all_matching(low_bucket, high_bucket, *key1, *key2);
            } else {
                Self::move_all_matching(high_bucket, low_bucket, *key1, *key2);
            }
        }
    }

    /// Takes the oldest waiter that a wake for `key` with `bitset` reaches
    /// out of `bucket`; the others keep their order.
    pub fn get_one(bucket: &mut VecDeque<FutexQ<T>>, key: FutexKey, bitset: u32) -> (found: Option<
        FutexQ<T>,
    >)
        ensures
            found is Some <==> first_match(old(bucket)@, key, bitset) < old(bucket)@.len(),
            found matches Some(w) ==> w == old(bucket)@[first_match(old(bucket)@, key, bitset)]
                && final(bucket)@ == old(bucket)@.remove(first_match(old(bucket)@, key, bitset)),
            found is None ==> final(bucket)@ == old(bucket)@,
    {
        let mut i: usize = 0;
        while i < bucket.len()
            invariant
                i <= bucket@.len(),
                bucket@ == old(bucket)@,
                forall|j: int| 0 <= j < i ==> !reached(#[trigger] bucket@[j], key, bitset),
            decreases bucket@.len() - i,
        {
            if bucket[i].key() == key && bucket[i].bitset() & bitset != 0 {
                proof {
                    lemma_first_match_is(bucket@, key, bitset, i as int);
                }
                return bucket.remove(i);
            }
            i += 1;
        }
        proof {
            lemma_first_match_is(bucket@, key, bitset, i as int);
        }
        None
    }

    /// Takes the first `limit` waiters that a wake for `key` with `bitset`
    /// reaches out of `bucket`, oldest first; the others keep their order.
    pub fn take_matching(
        bucket: &mut VecDeque<FutexQ<T>>,
        key: FutexKey,
        bitset: u32,
        limit: usize,
    ) -> (out: Vec<FutexQ<T>>)
        ensures
            out@ == taken(old(bucket)@, key, bitset, limit as nat),
            final(bucket)@ == kept(old(bucket)@, key, bitset, limit as nat),
    {
        let mut out: Vec<FutexQ<T>> = Vec::new();
        let mut left: usize = limit;
        while left > 0
            invariant
                left <= limit,
                taken(old(bucket)@, key, bitset, limit as nat) == out@ + taken(
                    bucket@,
                    key,
                    bitset,
                    left as nat,
                ),
                kept(old(bucket)@, key, bitset, limit as nat) == kept(
                    bucket@,
                    key,
                    bitset,
                    left as nat,
                ),
            decreases left,
        {
            let ghost before = bucket@;
            match Self::get_one(bucket, key, bitset) {
                Some(futex) => {
                    proof {
                        lemma_scan_step(before, key, bitset, left as nat);
                        assert(out@.push(futex) + taken(bucket@, key, bitset, (left - 1) as nat)
                            =~= out@ + (seq![futex] + taken(
                            bucket@,
                            key,
                            bitset,
                            (left - 1) as nat,
                        )));
                    }
                    out.push(futex);
                    left -= 1;
                },
                None => {
                    proof {
                        lemma_first_match(before, key, bitset);
                        lemma_scan_none(before, key, bitset, left as nat);
                        assert(out@ + Seq::<FutexQ<T>>::empty() =~= out@);
                    }
                    return out;
                },
            }
        }
        proof {
            assert(out@ + Seq::<FutexQ<T>>::empty() =~= out@);
        }
        out
    }

    /// Moves every waiter of `key_from` out of `from` to the tail of `to`,
    /// oldest first, and files each under `key_to`; the others in `from`
    /// keep their order.
    pub fn move_all_matching(
        from: &mut VecDeque<FutexQ<T>>,
        to: &mut VecDeque<FutexQ<T>>,
        key_from: FutexKey,
        key_to: FutexKey,
    )
        ensures
            final(from)@ == kept(
                old(from)@,
                key_from,
                FUTEX_BITSET_MATCH_ANY,
                old(from)@.len(),
            ),
            final(to)@ == old(to)@ + relabel(
                taken(old(from)@, key_from, FUTEX_BITSET_MATCH_ANY, old(from)@.len()),
                key_to,
            ),
    {
        let ghost moved: Seq<FutexQ<T>> = Seq::empty();
        proof {
            assert(old(to)@ + relabel(moved, key_to) =~= old(to)@);
            assert(moved + taken(from@, key_from, FUTEX_BITSET_MATCH_ANY, from@.len()) =~= taken(
                from@,
                key_from,
                FUTEX_BITSET_MATCH_ANY,
                from@.len(),
            ));
        }
        loop
            invariant
                taken(old(from)@, key_from, FUTEX_BITSET_MATCH_ANY, old(from)@.len()) == moved
                    + taken(from@, key_from, FUTEX_BITSET_MATCH_ANY, from@.len()),
                kept(old(from)@, key_from, FUTEX_BITSET_MATCH_ANY, old(from)@.len()) == kept(
                    from@,
                    key_from,
                    FUTEX_BITSET_MATCH_ANY,
                    from@.len(),
                ),
                to@ == old(to)@ + relabel(moved, key_to),
            ensures
                from@ == kept(old(from)@, key_from, FUTEX_BITSET_MATCH_ANY, old(from)@.len()),
                to@ == old(to)@ + relabel(
                    taken(old(from)@, key_from, FUTEX_BITSET_MATCH_ANY, old(from)@.len()),
                    key_to,
                ),
            decreases from@.len(),
        {
            let ghost before = from@;
            match Self::get_one(from, key_from, FUTEX_BITSET_MATCH_ANY) {
                Some(futex) => {
                    proof {
                        lemma_first_match(before, key_from, FUTEX_BITSET_MATCH_ANY);
                        lemma_scan_step(before, key_from, FUTEX_BITSET_MATCH_ANY, before.len());
                        let rest = taken(from@, key_from, FUTEX_BITSET_MATCH_ANY, from@.len());
                        assert(moved.push(futex) + rest =~= moved + (seq![futex] + rest));
                        assert(relabel(moved.push(futex), key_to) =~= relabel(moved, key_to).push(
                            futex.rekeyed(key_to),
                        ));
                        assert(to@.push(futex.rekeyed(key_to)) =~= old(to)@ + relabel(
                            moved.push(futex),
                            key_to,
                        ));
                        moved = moved.push(futex);
                    }
                    to.push_back(futex.requeue_to(key_to));
                },
                None => {
                    proof {
                        lemma_first_match(before, key_from, FUTEX_BITSET_MATCH_ANY);
                        lemma_scan_none(before, key_from, FUTEX_BITSET_MATCH_ANY, before.len());
                        assert(moved + Seq::<FutexQ<T>>::empty() =~= moved);
                    }
                    break ;
                },
            }
        }
    }

    /// Moves every waiter of `key_from` in `bucket` to its tail, oldest
    /// first, and files each under `key_to`; the others keep their order.
    pub fn move_within(bucket: &mut VecDeque<FutexQ<T>>, key_from: FutexKey, key_to: FutexKey)
        ensures
            final(bucket)@ == kept(
                old(bucket)@,
                key_from,
                FUTEX_BITSET_MATCH_ANY,
                old(bucket)@.len(),
            ) + relabel(
                taken(old(bucket)@, key_from, FUTEX_BITSET_MATCH_ANY, old(bucket)@.len()),
                key_to,
            ),
    {
        let mut moved: VecDeque<FutexQ<T>> = VecDeque::new();
        Self::move_all_matching(bucket, &mut moved, key_from, key_to);
        proof {
            assert(Seq::<FutexQ<T>>::empty() + relabel(
                taken(old(bucket)@, key_from, FUTEX_BITSET_MATCH_ANY, old(bucket)@.len()),
                key_to,
            ) =~= relabel(
                taken(old(bucket)@, key_from, FUTEX_BITSET_MATCH_ANY, old(bucket)@.len()),
                key_to,
            ));
        }
        bucket.append(&mut moved);
    }

    /// The number of buckets of the table. It is fixed when the table is
    /// made, and every key has its bucket among them.
    pub closed spec fn bucket_count(&self) -> nat {
        self.buckets.len() as nat
    }
}

} // verus!
