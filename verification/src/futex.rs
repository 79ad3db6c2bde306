//! Futex keys and the record of one blocked task.

use vstd::prelude::*;

verus! {

/// Granularity to which a key's page address is rounded down.
pub const PAGE_SIZE: u64 = 4096;

/// A blocked task: the futex it waits on, the bits it answers to, and the
/// handle by which the host finds the task again.
///
/// The bitset of a waiter is never zero; a zero bitset could never be woken.
pub struct FutexQ<T> {
    key: FutexKey,
    bitset: u32,
    task: T,
}

/// Identity of a futex.
#[derive(Copy, Clone, Ord, PartialOrd, Eq, PartialEq, Debug, Hash, Structural)]
pub enum FutexKey {
    /// A location in one process's address space.
    Private(PrivateKey),
    /// A location in a resource that several processes map.
    Shared(SharedKey),
}

/// Key of a futex that only the threads of one process use.
#[derive(Copy, Clone, Ord, PartialOrd, Eq, PartialEq, Debug, Hash, Structural)]
pub struct PrivateKey {
    pub pid: u64,
    pub aligned: u64,
    pub offset: u64,
}

/// Key of a futex in memory that is shared between processes: the page of the
/// backing resource and the offset into it.
#[derive(Copy, Clone, Ord, PartialOrd, Eq, PartialEq, Debug, Hash, Structural)]
pub struct SharedKey {
    pub aligned: u64,
    pub offset: u64,
}

impl<T> FutexQ<T> {
    #[verifier::type_invariant]
    spec fn inv(self) -> bool {
        self.bitset != 0
    }

    /// The futex this waiter is queued under.
    pub closed spec fn spec_key(&self) -> FutexKey {
        self.key
    }

    /// The bits a wake must intersect to reach this waiter.
    pub closed spec fn spec_bitset(&self) -> u32 {
        self.bitset
    }

    /// The handle of the blocked task.
    pub closed spec fn task(&self) -> T {
        self.task
    }

    /// A value with a nonzero bitset, as every waiter in executable code is.
    pub open spec fn wf(self) -> bool {
        self.spec_bitset() != 0
    }

    /// The waiter with these three fields.
    pub closed spec fn spec_new(futex: FutexKey, bitset: u32, task: T) -> Self {
        FutexQ { key: futex, bitset, task }
    }

    #[verifier::when_used_as_spec(spec_new)]
    pub fn new(futex: FutexKey, bitset: u32, task: T) -> (q: Self)
        requires
            bitset != 0,
        ensures
            q == Self::new(futex, bitset, task),
            q.key() == futex,
            q.bitset() == bitset,
            q.task() == task,
    {
        Self { key: futex, bitset, task }
    }

    #[verifier::when_used_as_spec(spec_key)]
    pub fn key(&self) -> (k: FutexKey)
        ensures
            k == self.key(),
    {
        self.key
    }

    #[verifier::when_used_as_spec(spec_bitset)]
    pub fn bitset(&self) -> (b: u32)
        ensures
            b == self.bitset(),
            b != 0,
    {
        proof {
            use_type_invariant(self);
        }
        self.bitset
    }

    /// The handle of the blocked task, for the host to make it runnable.
    pub fn get_task(&self) -> (t: &T)
        ensures
            *t == self.task(),
    {
        &self.task
    }

    /// Gives the task handle back and ends the waiter.
    pub fn into_task(self) -> (t: T)
        ensures
            t == self.task(),
    {
        self.task
    }

    /// The same waiter, filed under another futex.
    pub closed spec fn rekeyed(self, key: FutexKey) -> Self {
        FutexQ { key, bitset: self.bitset, task: self.task }
    }

    /// Moves the waiter to another futex; bitset and task stay.
    pub fn requeue_to(self, key: FutexKey) -> (q: Self)
        ensures
            q == self.rekeyed(key),
    {
        proof {
            use_type_invariant(&self);
        }
        Self { key, bitset: self.bitset, task: self.task }
    }

    /// The fields of a waiter are those it was made with.
    pub proof fn new_fields(futex: FutexKey, bitset: u32, task: T)
        ensures
            Self::new(futex, bitset, task).key() == futex,
            Self::new(futex, bitset, task).bitset() == bitset,
            Self::new(futex, bitset, task).task() == task,
    {
    }

    /// What `rekeyed` keeps and what it replaces.
    pub proof fn rekeyed_fields(self, key: FutexKey)
        ensures
            self.rekeyed(key).key() == key,
            self.rekeyed(key).bitset() == self.bitset(),
            self.rekeyed(key).task() == self.task(),
    {
    }
}

impl SharedKey {
    pub fn new(aligned: u64, offset: u64) -> (k: Self)
        ensures
            k == (SharedKey { aligned, offset }),
    {
        Self { aligned, offset }
    }
}

impl Default for SharedKey {
    fn default() -> (k: Self)
        ensures
            k == (SharedKey { aligned: 0, offset: 0 }),
    {
        Self { aligned: 0, offset: 0 }
    }
}

impl PrivateKey {
    pub fn new(pid: u64, aligned: u64, offset: u64) -> (k: Self)
        ensures
            k == (PrivateKey { pid, aligned, offset }),
    {
        Self { pid, aligned, offset }
    }
}

impl Default for PrivateKey {
    fn default() -> (k: Self)
        ensures
            k == (PrivateKey { pid: 0, aligned: 0, offset: 0 }),
    {
        Self { pid: 0, aligned: 0, offset: 0 }
    }
}

impl FutexKey {
    /// The page address is a multiple of the page size and the offset lies
    /// inside the page: what a key derived from an address looks like.
    pub open spec fn page_aligned(self) -> bool {
        match self {
            FutexKey::Private(k) => k.aligned % PAGE_SIZE == 0 && k.offset < PAGE_SIZE,
            FutexKey::Shared(k) => k.aligned % PAGE_SIZE == 0 && k.offset < PAGE_SIZE,
        }
    }
}

} // verus!
