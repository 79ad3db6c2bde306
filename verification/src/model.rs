//! What a scan of a bucket takes and what it leaves, over sequences of waiters.
//!
//! A bucket is a sequence of waiters, oldest first. A scan for a key and a
//! bitset walks it from the head and takes the waiters that match, up to a
//! limit; the others keep their places.

use vstd::prelude::*;
use crate::flags::FUTEX_BITSET_MATCH_ANY;
use crate::futex::{FutexKey, FutexQ};

verus! {

/// A wake for `key` with `bitset` reaches `w`.
pub open spec fn reached<T>(w: FutexQ<T>, key: FutexKey, bitset: u32) -> bool {
    w.key() == key && w.bitset() & bitset != 0
}

/// Where the first waiter that matches stands in `s`; the length of `s` if
/// none matches.
pub open spec fn first_match<T>(s: Seq<FutexQ<T>>, key: FutexKey, bitset: u32) -> int
    decreases s.len(),
{
    if s.len() == 0 {
        0
    } else if reached(s[0], key, bitset) {
        0
    } else {
        1 + first_match(s.drop_first(), key, bitset)
    }
}

/// The waiters a scan of `s` takes: the first `limit` that match, in the
/// order in which they stand in `s`.
pub open spec fn taken<T>(s: Seq<FutexQ<T>>, key: FutexKey, bitset: u32, limit: nat) -> Seq<
    FutexQ<T>,
>
    decreases s.len(),
{
    if s.len() == 0 || limit == 0 {
        Seq::empty()
    } else if reached(s[0], key, bitset) {
        seq![s[0]] + taken(s.drop_first(), key, bitset, (limit - 1) as nat)
    } else {
        taken(s.drop_first(), key, bitset, limit)
    }
}

/// The waiters a scan of `s` leaves, in the order in which they stand in `s`.
pub open spec fn kept<T>(s: Seq<FutexQ<T>>, key: FutexKey, bitset: u32, limit: nat) -> Seq<
    FutexQ<T>,
>
    decreases s.len(),
{
    if s.len() == 0 || limit == 0 {
        s
    } else if reached(s[0], key, bitset) {
        kept(s.drop_first(), key, bitset, (limit - 1) as nat)
    } else {
        seq![s[0]] + kept(s.drop_first(), key, bitset, limit)
    }
}

/// The waiters of `s`, each filed under `key`.
pub open spec fn relabel<T>(s: Seq<FutexQ<T>>, key: FutexKey) -> Seq<FutexQ<T>> {
    s.map_values(|w: FutexQ<T>| w.rekeyed(key))
}

/// `first_match` is an index into `s` or its length; nothing before it
/// matches, and what stands at it does.
pub proof fn lemma_first_match<T>(s: Seq<FutexQ<T>>, key: FutexKey, bitset: u32)
    ensures
        0 <= first_match(s, key, bitset) <= s.len(),
        forall|j: int| 0 <= j < first_match(s, key, bitset) ==> !reached(#[trigger] s[j], key, bitset),
        first_match(s, key, bitset) < s.len() ==> reached(
            s[first_match(s, key, bitset)],
            key,
            bitset,
        ),
    decreases s.len(),
{
    if s.len() > 0 && !reached(s[0], key, bitset) {
        let rest = s.drop_first();
        lemma_first_match(rest, key, bitset);
        assert forall|j: int| 0 <= j < first_match(s, key, bitset) implies !reached(
            #[trigger] s[j],
            key,
            bitset,
        ) by {
            if j > 0 {
                assert(s[j] == rest[j - 1]);
            }
        }
    }
}

/// An index before which nothing matches, and which is the length of `s` or
/// holds a match, is `first_match`.
pub proof fn lemma_first_match_is<T>(s: Seq<FutexQ<T>>, key: FutexKey, bitset: u32, i: int)
    requires
        0 <= i <= s.len(),
        forall|j: int| 0 <= j < i ==> !reached(#[trigger] s[j], key, bitset),
        i < s.len() ==> reached(s[i], key, bitset),
    ensures
        first_match(s, key, bitset) == i,
    decreases s.len(),
{
    if s.len() > 0 && !reached(s[0], key, bitset) {
        let rest = s.drop_first();
        assert forall|j: int| 0 <= j < i - 1 implies !reached(#[trigger] rest[j], key, bitset) by {
            assert(rest[j] == s[j + 1]);
        }
        lemma_first_match_is(rest, key, bitset, i - 1);
    } else if s.len() > 0 {
        if i > 0 {
            assert(!reached(s[0], key, bitset));
        }
    }
}

/// A scan that may still take something takes the first match and goes on
/// with what is left once that waiter is out.
pub proof fn lemma_scan_step<T>(s: Seq<FutexQ<T>>, key: FutexKey, bitset: u32, limit: nat)
    requires
        limit > 0,
        first_match(s, key, bitset) < s.len(),
    ensures
        taken(s, key, bitset, limit) == seq![s[first_match(s, key, bitset)]] + taken(
            s.remove(first_match(s, key, bitset)),
            key,
            bitset,
            (limit - 1) as nat,
        ),
        kept(s, key, bitset, limit) == kept(
            s.remove(first_match(s, key, bitset)),
            key,
            bitset,
            (limit - 1) as nat,
        ),
    decreases s.len(),
{
    let i = first_match(s, key, bitset);
    lemma_first_match(s, key, bitset);
    if reached(s[0], key, bitset) {
        assert(s.remove(0) =~= s.drop_first());
    } else {
        let rest = s.drop_first();
        lemma_scan_step(rest, key, bitset, limit);
        let out = s.remove(i);
        assert(out.len() > 0);
        assert(out[0] == s[0]);
        assert(out.drop_first() =~= rest.remove(i - 1));
        assert(rest[i - 1] == s[i]);
        if limit - 1 == 0 {
            assert(kept(out, key, bitset, 0) == out);
            assert(kept(rest.remove(i - 1), key, bitset, 0) == rest.remove(i - 1));
            assert(out =~= seq![s[0]] + rest.remove(i - 1));
        }
    }
}

/// A scan of a bucket in which nothing matches takes nothing.
pub proof fn lemma_scan_none<T>(s: Seq<FutexQ<T>>, key: FutexKey, bitset: u32, limit: nat)
    requires
        first_match(s, key, bitset) == s.len(),
    ensures
        taken(s, key, bitset, limit) == Seq::<FutexQ<T>>::empty(),
        kept(s, key, bitset, limit) == s,
    decreases s.len(),
{
    if s.len() > 0 && limit > 0 {
        lemma_first_match(s.drop_first(), key, bitset);
        lemma_scan_none(s.drop_first(), key, bitset, limit);
        assert(seq![s[0]] + s.drop_first() =~= s);
    }
}

/// A scan takes no more than its limit, and only waiters that match.
pub proof fn lemma_taken_reached<T>(s: Seq<FutexQ<T>>, key: FutexKey, bitset: u32, limit: nat)
    ensures
        taken(s, key, bitset, limit).len() <= limit,
        taken(s, key, bitset, limit).len() <= s.len(),
        forall|i: int|
            0 <= i < taken(s, key, bitset, limit).len() ==> reached(
                #[trigger] taken(s, key, bitset, limit)[i],
                key,
                bitset,
            ),
    decreases s.len(),
{
    if s.len() > 0 && limit > 0 {
        if reached(s[0], key, bitset) {
            lemma_taken_reached(s.drop_first(), key, bitset, (limit - 1) as nat);
        } else {
            lemma_taken_reached(s.drop_first(), key, bitset, limit);
        }
    }
}

/// Every waiter of `s` is either taken or kept: a scan neither loses a
/// waiter nor makes a second one of it.
pub proof fn law_scan_conserves<T>(s: Seq<FutexQ<T>>, key: FutexKey, bitset: u32, limit: nat)
    ensures
        taken(s, key, bitset, limit).to_multiset().add(kept(s, key, bitset, limit).to_multiset())
            == s.to_multiset(),
        taken(s, key, bitset, limit).len() + kept(s, key, bitset, limit).len() == s.len(),
    decreases s.len(),
{
    broadcast use vstd::seq_lib::group_to_multiset_ensures;

    let t = taken(s, key, bitset, limit);
    let k = kept(s, key, bitset, limit);
    if s.len() == 0 || limit == 0 {
        assert(t.to_multiset().add(k.to_multiset()) =~= s.to_multiset());
    } else {
        let rest = s.drop_first();
        let head = seq![s[0]];
        assert(s =~= head + rest);
        vstd::seq_lib::lemma_multiset_commutative(head, rest);
        if reached(s[0], key, bitset) {
            let m = (limit - 1) as nat;
            law_scan_conserves(rest, key, bitset, m);
            vstd::seq_lib::lemma_multiset_commutative(head, taken(rest, key, bitset, m));
            assert(t.to_multiset().add(k.to_multiset()) =~= s.to_multiset());
        } else {
            law_scan_conserves(rest, key, bitset, limit);
            vstd::seq_lib::lemma_multiset_commutative(head, kept(rest, key, bitset, limit));
            assert(t.to_multiset().add(k.to_multiset()) =~= s.to_multiset());
        }
    }
}

/// What a scan makes of a bucket with one more waiter at its tail: the scan
/// takes the newcomer if it matches and the limit is not used up before the
/// scan gets to it; else the newcomer stays at the tail.
pub proof fn lemma_scan_push<T>(
    s: Seq<FutexQ<T>>,
    w: FutexQ<T>,
    key: FutexKey,
    bitset: u32,
    limit: nat,
)
    ensures
        reached(w, key, bitset) && taken(s, key, bitset, limit).len() < limit ==> taken(
            s.push(w),
            key,
            bitset,
            limit,
        ) == taken(s, key, bitset, limit).push(w) && kept(s.push(w), key, bitset, limit) == kept(
            s,
            key,
            bitset,
            limit,
        ),
        !(reached(w, key, bitset) && taken(s, key, bitset, limit).len() < limit) ==> taken(
            s.push(w),
            key,
            bitset,
            limit,
        ) == taken(s, key, bitset, limit) && kept(s.push(w), key, bitset, limit) == kept(
            s,
            key,
            bitset,
            limit,
        ).push(w),
    decreases s.len(),
{
    let sw = s.push(w);
    if s.len() == 0 {
        let none = Seq::<FutexQ<T>>::empty();
        assert(sw.drop_first() =~= none);
        assert(sw[0] == w);
        assert(taken(none, key, bitset, limit) == none);
        assert(kept(none, key, bitset, limit) == none);
        assert(taken(none, key, bitset, (limit - 1) as nat) == none);
        assert(kept(none, key, bitset, (limit - 1) as nat) == none);
        if limit > 0 {
            if reached(w, key, bitset) {
                assert(taken(sw, key, bitset, limit) =~= Seq::<FutexQ<T>>::empty().push(w));
                assert(kept(sw, key, bitset, limit) =~= s);
            } else {
                assert(kept(sw, key, bitset, limit) =~= s.push(w));
            }
        }
    } else {
        let rest = s.drop_first();
        assert(sw.drop_first() =~= rest.push(w));
        assert(sw[0] == s[0]);
        if limit > 0 {
            if reached(s[0], key, bitset) {
                let m = (limit - 1) as nat;
                lemma_scan_push(rest, w, key, bitset, m);
                if reached(w, key, bitset) && taken(rest, key, bitset, m).len() < m {
                    assert(taken(sw, key, bitset, limit) =~= taken(s, key, bitset, limit).push(w));
                }
            } else {
                lemma_scan_push(rest, w, key, bitset, limit);
                if !(reached(w, key, bitset) && taken(rest, key, bitset, limit).len() < limit) {
                    assert(kept(sw, key, bitset, limit) =~= kept(s, key, bitset, limit).push(w));
                }
            }
        } else {
            assert(kept(sw, key, bitset, limit) =~= kept(s, key, bitset, limit).push(w));
        }
    }
}

/// A waiter that the wake does not reach stays in the bucket.
pub proof fn lemma_unreached_kept<T>(
    s: Seq<FutexQ<T>>,
    i: int,
    key: FutexKey,
    bitset: u32,
    limit: nat,
)
    requires
        0 <= i < s.len(),
        !reached(s[i], key, bitset),
    ensures
        kept(s, key, bitset, limit).contains(s[i]),
    decreases s.len(),
{
    let k = kept(s, key, bitset, limit);
    if limit == 0 {
        assert(k[i] == s[i]);
    } else {
        let rest = s.drop_first();
        if reached(s[0], key, bitset) {
            assert(rest[i - 1] == s[i]);
            lemma_unreached_kept(rest, i - 1, key, bitset, (limit - 1) as nat);
        } else if i == 0 {
            assert(k[0] == s[0]);
        } else {
            assert(rest[i - 1] == s[i]);
            lemma_unreached_kept(rest, i - 1, key, bitset, limit);
            let inner = kept(rest, key, bitset, limit);
            let j = choose|j: int| 0 <= j < inner.len() && inner[j] == s[i];
            assert(k[j + 1] == s[i]);
        }
    }
}

/// A scan whose limit is at least the length of the bucket takes every
/// waiter that the wake reaches.
pub proof fn lemma_full_scan_takes<T>(
    s: Seq<FutexQ<T>>,
    i: int,
    key: FutexKey,
    bitset: u32,
    limit: nat,
)
    requires
        0 <= i < s.len(),
        reached(s[i], key, bitset),
        limit >= s.len(),
    ensures
        taken(s, key, bitset, limit).contains(s[i]),
    decreases s.len(),
{
    let t = taken(s, key, bitset, limit);
    let rest = s.drop_first();
    if reached(s[0], key, bitset) {
        if i == 0 {
            assert(t[0] == s[0]);
        } else {
            assert(rest[i - 1] == s[i]);
            lemma_full_scan_takes(rest, i - 1, key, bitset, (limit - 1) as nat);
            let inner = taken(rest, key, bitset, (limit - 1) as nat);
            let j = choose|j: int| 0 <= j < inner.len() && inner[j] == s[i];
            assert(t[j + 1] == s[i]);
        }
    } else {
        assert(rest[i - 1] == s[i]);
        lemma_full_scan_takes(rest, i - 1, key, bitset, limit);
    }
}

/// A scan whose limit is at least the length of the bucket leaves no waiter
/// that the wake reaches.
pub proof fn lemma_full_scan_leaves_none<T>(
    s: Seq<FutexQ<T>>,
    key: FutexKey,
    bitset: u32,
    limit: nat,
)
    requires
        limit >= s.len(),
    ensures
        forall|j: int|
            0 <= j < kept(s, key, bitset, limit).len() ==> !reached(
                #[trigger] kept(s, key, bitset, limit)[j],
                key,
                bitset,
            ),
    decreases s.len(),
{
    if s.len() > 0 {
        let rest = s.drop_first();
        if reached(s[0], key, bitset) {
            lemma_full_scan_leaves_none(rest, key, bitset, (limit - 1) as nat);
            assert(kept(s, key, bitset, limit) == kept(rest, key, bitset, (limit - 1) as nat));
        } else {
            lemma_full_scan_leaves_none(rest, key, bitset, limit);
            let k = kept(s, key, bitset, limit);
            let inner = kept(rest, key, bitset, limit);
            assert(k == seq![s[0]] + inner);
            assert forall|j: int| 0 <= j < k.len() implies !reached(#[trigger] k[j], key, bitset) by {
                if j > 0 {
                    assert(k[j] == inner[j - 1]);
                }
            }
        }
    }
}

/// A scan leaves only waiters that were in the bucket.
pub proof fn lemma_kept_from_bucket<T>(s: Seq<FutexQ<T>>, key: FutexKey, bitset: u32, limit: nat)
    ensures
        forall|j: int|
            0 <= j < kept(s, key, bitset, limit).len() ==> s.contains(
                #[trigger] kept(s, key, bitset, limit)[j],
            ),
    decreases s.len(),
{
    let k = kept(s, key, bitset, limit);
    if s.len() == 0 || limit == 0 {
        assert forall|j: int| 0 <= j < k.len() implies s.contains(#[trigger] k[j]) by {
            assert(s[j] == k[j]);
        }
    } else {
        let rest = s.drop_first();
        if reached(s[0], key, bitset) {
            lemma_kept_from_bucket(rest, key, bitset, (limit - 1) as nat);
            let inner = kept(rest, key, bitset, (limit - 1) as nat);
            assert(k == inner);
            assert forall|j: int| 0 <= j < k.len() implies s.contains(#[trigger] k[j]) by {
                assert(rest.contains(inner[j]));
                let n = choose|n: int| 0 <= n < rest.len() && rest[n] == inner[j];
                assert(s[n + 1] == k[j]);
            }
        } else {
            lemma_kept_from_bucket(rest, key, bitset, limit);
            let inner = kept(rest, key, bitset, limit);
            assert(k == seq![s[0]] + inner);
            assert forall|j: int| 0 <= j < k.len() implies s.contains(#[trigger] k[j]) by {
                if j == 0 {
                    assert(s[0] == k[0]);
                } else {
                    assert(k[j] == inner[j - 1]);
                    assert(rest.contains(inner[j - 1]));
                    let n = choose|n: int| 0 <= n < rest.len() && rest[n] == inner[j - 1];
                    assert(s[n + 1] == k[j]);
                }
            }
        }
    }
}

/// The test that a wake for `key` with `bitset` makes of a waiter.
pub open spec fn reaching<T>(key: FutexKey, bitset: u32) -> spec_fn(FutexQ<T>) -> bool {
    |w: FutexQ<T>| reached(w, key, bitset)
}

/// The test that a wake for `key` with `bitset` does not make of a waiter.
pub open spec fn missing<T>(key: FutexKey, bitset: u32) -> spec_fn(FutexQ<T>) -> bool {
    |w: FutexQ<T>| !reached(w, key, bitset)
}

/// A scan is a selection in order: it takes the waiters that match, as they
/// stand in the bucket, up to its limit; and with a limit of at least the
/// length of the bucket it leaves the waiters that do not match, as they
/// stand in the bucket.
pub proof fn law_scan_selects_in_order<T>(
    s: Seq<FutexQ<T>>,
    key: FutexKey,
    bitset: u32,
    limit: nat,
)
    ensures
        taken(s, key, bitset, limit).len() == if limit <= s.filter(reaching(key, bitset)).len() {
            limit
        } else {
            s.filter(reaching(key, bitset)).len()
        },
        taken(s, key, bitset, limit) == s.filter(reaching(key, bitset)).take(
            taken(s, key, bitset, limit).len() as int,
        ),
        limit >= s.len() ==> kept(s, key, bitset, limit) == s.filter(missing(key, bitset)),
    decreases s.len(),
{
    let hit = reaching::<T>(key, bitset);
    let miss = missing::<T>(key, bitset);
    let t = taken(s, key, bitset, limit);
    if s.len() == 0 {
        assert(s.filter(hit) =~= s);
        assert(s.filter(miss) =~= s);
        assert(t =~= s.filter(hit).take(0));
    } else {
        let head = seq![s[0]];
        let rest = s.drop_first();
        assert(s =~= head + rest);
        Seq::filter_distributes_over_add(head, rest, hit);
        Seq::filter_distributes_over_add(head, rest, miss);
        assert(head.drop_last() =~= Seq::<FutexQ<T>>::empty());
        assert(head.last() == s[0]);
        reveal_with_fuel(Seq::filter, 2);
        rest.lemma_filter_len(hit);
        if limit == 0 {
            assert(t =~= s.filter(hit).take(0));
        } else if reached(s[0], key, bitset) {
            let m = (limit - 1) as nat;
            law_scan_selects_in_order(rest, key, bitset, m);
            assert(head.filter(hit) =~= head);
            assert(head.filter(miss) =~= Seq::<FutexQ<T>>::empty());
            assert(s.filter(hit) =~= head + rest.filter(hit));
            assert(t =~= s.filter(hit).take(t.len() as int));
            if limit >= s.len() {
                assert(s.filter(miss) =~= rest.filter(miss));
            }
        } else {
            law_scan_selects_in_order(rest, key, bitset, limit);
            assert(head.filter(hit) =~= Seq::<FutexQ<T>>::empty());
            assert(head.filter(miss) =~= head);
            assert(s.filter(hit) =~= rest.filter(hit));
            if limit >= s.len() {
                assert(s.filter(miss) =~= head + rest.filter(miss));
            }
        }
    }
}

/// Keys are told apart: a waiter queued under one key is never taken by a
/// scan for another key, whatever the bitset and the limit. The scan takes
/// what it would take without the waiter, and the waiter stays at the tail.
pub proof fn law_key_discrimination<T>(
    s: Seq<FutexQ<T>>,
    w: FutexQ<T>,
    key: FutexKey,
    bitset: u32,
    limit: nat,
)
    requires
        w.key() != key,
    ensures
        !taken(s.push(w), key, bitset, limit).contains(w),
        taken(s.push(w), key, bitset, limit) == taken(s, key, bitset, limit),
        kept(s.push(w), key, bitset, limit) == kept(s, key, bitset, limit).push(w),
{
    lemma_scan_push(s, w, key, bitset, limit);
    lemma_taken_reached(s, key, bitset, limit);
}

/// A wait and a wake make a round trip: when a waiter is queued behind
/// waiters of other keys only, a wake for its key with all bits set and a
/// limit of at least one takes exactly that waiter and leaves the bucket as
/// it was before the wait.
pub proof fn law_round_trip<T>(s: Seq<FutexQ<T>>, w: FutexQ<T>, limit: nat)
    requires
        w.wf(),
        forall|i: int| 0 <= i < s.len() ==> (#[trigger] s[i]).key() != w.key(),
        limit >= 1,
    ensures
        taken(s.push(w), w.key(), FUTEX_BITSET_MATCH_ANY, limit) == seq![w],
        kept(s.push(w), w.key(), FUTEX_BITSET_MATCH_ANY, limit) == s,
{
    let key = w.key();
    let all = FUTEX_BITSET_MATCH_ANY;
    lemma_first_match(s, key, all);
    lemma_scan_none(s, key, all, limit);
    lemma_scan_push(s, w, key, all, limit);
    let b = w.bitset();
    assert(b & FUTEX_BITSET_MATCH_ANY == b) by (bit_vector);
    assert(Seq::<FutexQ<T>>::empty().push(w) =~= seq![w]);
}

/// A wake with a bitset takes only waiters whose bitset shares a bit with
/// it. A waiter of the key whose bitset shares none stays queued, and a
/// later wake whose bitset it does share a bit with, and whose limit is at
/// least the length of the bucket, takes it.
pub proof fn law_bitset_selects<T>(
    s: Seq<FutexQ<T>>,
    i: int,
    key: FutexKey,
    bitset: u32,
    limit: nat,
    later: u32,
)
    requires
        0 <= i < s.len(),
        s[i].key() == key,
        s[i].bitset() & bitset == 0,
        s[i].bitset() & later != 0,
    ensures
        forall|j: int|
            0 <= j < taken(s, key, bitset, limit).len() ==> (#[trigger] taken(
                s,
                key,
                bitset,
                limit,
            )[j]).bitset() & bitset != 0,
        !taken(s, key, bitset, limit).contains(s[i]),
        kept(s, key, bitset, limit).contains(s[i]),
        taken(
            kept(s, key, bitset, limit),
            key,
            later,
            kept(s, key, bitset, limit).len(),
        ).contains(s[i]),
{
    lemma_taken_reached(s, key, bitset, limit);
    lemma_unreached_kept(s, i, key, bitset, limit);
    let k = kept(s, key, bitset, limit);
    let j = choose|j: int| 0 <= j < k.len() && k[j] == s[i];
    lemma_full_scan_takes(k, j, key, later, k.len());
}

/// A requeue that wakes nobody still moves everybody: with a limit of zero
/// the wake takes no waiter and leaves the bucket as it is; the move then
/// takes every waiter of the first key out of its bucket and puts it, filed
/// under the second key, at the tail of the second key's bucket, where a
/// later wake for the second key with all bits set, and a limit of at least
/// the length of that bucket, takes it.
pub proof fn law_requeue_relocates<T>(
    from: Seq<FutexQ<T>>,
    to: Seq<FutexQ<T>>,
    key1: FutexKey,
    key2: FutexKey,
    i: int,
)
    requires
        0 <= i < from.len(),
        from[i].key() == key1,
        from[i].wf(),
    ensures
        taken(from, key1, FUTEX_BITSET_MATCH_ANY, 0) == Seq::<FutexQ<T>>::empty(),
        kept(from, key1, FUTEX_BITSET_MATCH_ANY, 0) == from,
        !kept(from, key1, FUTEX_BITSET_MATCH_ANY, from.len()).contains(from[i]),
        (to + relabel(taken(from, key1, FUTEX_BITSET_MATCH_ANY, from.len()), key2)).contains(
            from[i].rekeyed(key2),
        ),
        taken(
            to + relabel(taken(from, key1, FUTEX_BITSET_MATCH_ANY, from.len()), key2),
            key2,
            FUTEX_BITSET_MATCH_ANY,
            (to + relabel(taken(from, key1, FUTEX_BITSET_MATCH_ANY, from.len()), key2)).len(),
        ).contains(from[i].rekeyed(key2)),
{
    let all = FUTEX_BITSET_MATCH_ANY;
    let w = from[i];
    let b = w.bitset();
    assert(b & FUTEX_BITSET_MATCH_ANY == b) by (bit_vector);
    lemma_full_scan_leaves_none(from, key1, all, from.len());
    lemma_full_scan_takes(from, i, key1, all, from.len());
    let moved = taken(from, key1, all, from.len());
    let j = choose|j: int| 0 <= j < moved.len() && moved[j] == w;
    let dest = to + relabel(moved, key2);
    w.rekeyed_fields(key2);
    assert(dest[to.len() + j] == w.rekeyed(key2));
    lemma_full_scan_takes(dest, to.len() + j, key2, all, dest.len());
}

} // verus!
