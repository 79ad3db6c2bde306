//! The hash that spreads futex keys over the buckets of the table.
//!
//! A key is hashed as a run of 64-bit words, each fed to the hasher as eight
//! bytes, least significant first: a tag that tells the two kinds of key apart
//! (0 for a private key, 1 for a shared key), then the key's fields in the
//! order in which the type declares them. A shared key is identified by the
//! page of its backing resource and the offset into that page.

use vstd::prelude::*;
use crate::futex::FutexKey;

verus! {

pub const FNV_OFFSET_BASIS: u64 = 0xcbf29ce484222325;

pub const FNV_PRIME: u64 = 0x100000001b3;

/// `x` with its bits moved `n` places towards the low end, those that fall
/// off coming back in at the high end.
pub open spec fn rotr(x: u64, n: u32) -> u64
    recommends
        0 < n < 64,
{
    (x >> n) | (x << ((64 - n) as u32))
}

/// `x` with its bits moved `n` places towards the high end, those that fall
/// off coming back in at the low end.
pub open spec fn rotl(x: u64, n: u32) -> u64
    recommends
        0 < n < 64,
{
    (x << n) | (x >> ((64 - n) as u32))
}

/// The hasher's state after it has taken in one byte.
pub open spec fn mix(state: u64, byte: u8) -> u64 {
    let s = (state ^ (byte as u64)).wrapping_mul(FNV_PRIME);
    s ^ (rotr(s, 31) ^ rotl(s, 11))
}

/// The hasher's state after it has taken in `bytes`, first to last.
pub open spec fn absorb(state: u64, bytes: Seq<u8>) -> u64
    decreases bytes.len(),
{
    if bytes.len() == 0 {
        state
    } else {
        mix(absorb(state, bytes.drop_last()), bytes.last())
    }
}

/// The eight bytes of `word`, least significant first.
pub open spec fn le_bytes(word: u64) -> Seq<u8> {
    Seq::new(8, |i: int| ((word >> ((8 * i) as u64)) & 0xff) as u8)
}

/// The words a key is hashed as: its tag, then its fields.
pub open spec fn key_words(key: FutexKey) -> Seq<u64> {
    match key {
        FutexKey::Private(k) => seq![0u64, k.pid, k.aligned, k.offset],
        FutexKey::Shared(k) => seq![1u64, k.aligned, k.offset],
    }
}

/// The hasher's state after it has taken in `words`, each as its eight bytes.
pub open spec fn absorb_words(state: u64, words: Seq<u64>) -> u64
    decreases words.len(),
{
    if words.len() == 0 {
        state
    } else {
        absorb(absorb_words(state, words.drop_last()), le_bytes(words.last()))
    }
}

/// The hash of a key.
pub open spec fn spec_hash(key: FutexKey) -> u64 {
    absorb_words(FNV_OFFSET_BASIS, key_words(key))
}

fn rotate_right(x: u64, n: u32) -> (r: u64)
    requires
        0 < n < 64,
    ensures
        r == rotr(x, n),
{
    (x >> n) | (x << (64 - n))
}

fn rotate_left(x: u64, n: u32) -> (r: u64)
    requires
        0 < n < 64,
    ensures
        r == rotl(x, n),
{
    (x << n) | (x >> (64 - n))
}

/// A multiply-and-rotate hasher over bytes.
pub struct SimpleHasher {
    state: u64,
}

impl SimpleHasher {
    /// What `finish` would return now.
    pub closed spec fn state(&self) -> u64 {
        self.state
    }

    pub fn new() -> (h: Self)
        ensures
            h.state() == FNV_OFFSET_BASIS,
    {
        SimpleHasher { state: FNV_OFFSET_BASIS }
    }

    pub fn write(&mut self, bytes: &[u8])
        ensures
            final(self).state() == absorb(old(self).state(), bytes@),
    {
        let mut i: usize = 0;
        while i < bytes.len()
            invariant
                i <= bytes.len(),
                self.state == absorb(old(self).state, bytes@.take(i as int)),
            decreases bytes.len() - i,
        {
            let byte: u8 = bytes[i];
            proof {
                assert(bytes@.take(i + 1).drop_last() == bytes@.take(i as int));
            }
            let s: u64 = (self.state ^ (byte as u64)).wrapping_mul(FNV_PRIME);
            self.state = s ^ (rotate_right(s, 31) ^ rotate_left(s, 11));
            i += 1;
        }
        proof {
            assert(bytes@.take(bytes.len() as int) == bytes@);
        }
    }

    /// Takes in one word as its eight bytes, least significant first.
    pub fn write_u64(&mut self, word: u64)
        ensures
            final(self).state() == absorb(old(self).state(), le_bytes(word)),
    {
        let bytes: [u8; 8] = [
            (word & 0xff) as u8,
            ((word >> 8) & 0xff) as u8,
            ((word >> 16) & 0xff) as u8,
            ((word >> 24) & 0xff) as u8,
            ((word >> 32) & 0xff) as u8,
            ((word >> 40) & 0xff) as u8,
            ((word >> 48) & 0xff) as u8,
            ((word >> 56) & 0xff) as u8,
        ];
        proof {
            assert(word >> 0 == word) by (bit_vector);
            assert(bytes@ =~= le_bytes(word));
        }
        self.write(bytes.as_slice());
    }

    pub fn finish(&self) -> (hash: u64)
        ensures
            hash == self.state(),
    {
        self.state
    }
}

/// Taking in one more word is taking in its bytes after the words before it.
proof fn lemma_absorb_word(state: u64, words: Seq<u64>, word: u64)
    ensures
        absorb_words(state, words.push(word)) == absorb(
            absorb_words(state, words),
            le_bytes(word),
        ),
{
    assert(words.push(word).drop_last() =~= words);
}

/// Hashes a futex key.
pub fn simple_hash(value: &FutexKey) -> (hash: u64)
    ensures
        hash == spec_hash(*value),
{
    let mut hasher = SimpleHasher::new();
    let ghost none = Seq::<u64>::empty();
    match value {
        FutexKey::Private(k) => {
            hasher.write_u64(0);
            hasher.write_u64(k.pid);
            hasher.write_u64(k.aligned);
            hasher.write_u64(k.offset);
            proof {
                lemma_absorb_word(FNV_OFFSET_BASIS, none, 0);
                lemma_absorb_word(FNV_OFFSET_BASIS, none.push(0), k.pid);
                lemma_absorb_word(FNV_OFFSET_BASIS, none.push(0).push(k.pid), k.aligned);
                lemma_absorb_word(
                    FNV_OFFSET_BASIS,
                    none.push(0).push(k.pid).push(k.aligned),
                    k.offset,
                );
                assert(key_words(*value) =~= none.push(0).push(k.pid).push(k.aligned).push(
                    k.offset,
                ));
            }
        },
        FutexKey::Shared(k) => {
            hasher.write_u64(1);
            hasher.write_u64(k.aligned);
            hasher.write_u64(k.offset);
            proof {
                lemma_absorb_word(FNV_OFFSET_BASIS, none, 1);
                lemma_absorb_word(FNV_OFFSET_BASIS, none.push(1), k.aligned);
                lemma_absorb_word(FNV_OFFSET_BASIS, none.push(1).push(k.aligned), k.offset);
                assert(key_words(*value) =~= none.push(1).push(k.aligned).push(k.offset));
            }
        },
    }
    hasher.finish()
}

} // verus!
