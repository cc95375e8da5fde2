//! A Bloom filter over a bit-packed byte array, with double hashing.
use vstd::prelude::*;
use vstd::arithmetic::div_mod::lemma_add_mod_noop;
use std::collections::hash_map::RandomState;
use std::hash::{BuildHasher, Hash};
use std::marker::PhantomData;

verus! {

/// `h1 + round * h2` in wrapping 64-bit arithmetic.
pub open spec fn combined(h1: u64, h2: u64, round: int) -> int {
    (h1 + round * h2) % 0x1_0000_0000_0000_0000
}

/// The single-bit mask for bit `bit` of a byte, bit 0 being the most
/// significant.
pub open spec fn bit_mask(bit: u8) -> u8 {
    0x80u8 >> bit
}

/// Whether bit `bit` of byte `b` is set.
pub open spec fn is_set(b: u8, bit: u8) -> bool {
    b & bit_mask(bit) != 0
}

/// The bits of a byte array, eight per byte, most significant first.
pub open spec fn bits_of(bytes: Seq<u8>) -> Seq<bool> {
    Seq::new(bytes.len() * 8, |j: int| is_set(bytes[j / 8], (j % 8) as u8))
}

/// The bit that round `round` addresses in a filter of `nbytes` bytes: the
/// combined hash's byte offset folded into range, and its bit offset.
pub open spec fn position(h1: u64, h2: u64, round: int, nbytes: nat) -> int {
    (combined(h1, h2, round) / 8) % (nbytes as int) * 8 + combined(h1, h2, round) % 8
}

/// The bits after inserting the hash pair `(h1, h2)` with `k` rounds.
pub open spec fn inserted(bits: Seq<bool>, k: nat, nbytes: nat, h1: u64, h2: u64) -> Seq<bool> {
    Seq::new(
        bits.len(),
        |j: int| bits[j] || exists|r: int| 0 <= r < k && #[trigger] position(h1, h2, r, nbytes) == j,
    )
}

/// Whether all `k` bits that the hash pair `(h1, h2)` addresses are set.
pub open spec fn found(bits: Seq<bool>, k: nat, nbytes: nat, h1: u64, h2: u64) -> bool {
    forall|r: int| 0 <= r < k ==> bits[#[trigger] position(h1, h2, r, nbytes)]
}

/// Setting one bit of a byte leaves the byte's other bits as they were.
proof fn lemma_or_mask(x: u8, bit: u8, other: u8)
    requires
        bit < 8,
        other < 8,
    ensures
        is_set(x | bit_mask(bit), other) <==> (other == bit || is_set(x, other)),
{
    assert((x | (0x80u8 >> bit)) & (0x80u8 >> other) != 0 <==> (other == bit || x & (0x80u8
        >> other) != 0)) by (bit_vector)
        requires
            bit < 8,
            other < 8,
    ;
}

/// Or-ing a mask into one byte sets exactly one bit of the bit view.
proof fn lemma_set_bit(bytes: Seq<u8>, b: int, bit: u8)
    requires
        0 <= b < bytes.len(),
        bit < 8,
    ensures
        bits_of(bytes.update(b, bytes[b] | bit_mask(bit))) == bits_of(bytes).update(
            b * 8 + bit,
            true,
        ),
{
    let after = bytes.update(b, bytes[b] | bit_mask(bit));
    assert forall|j: int| 0 <= j < bytes.len() * 8 implies #[trigger] bits_of(after)[j] == bits_of(
        bytes,
    ).update(b * 8 + bit, true)[j] by {
        if j / 8 == b {
            lemma_or_mask(bytes[b], bit, (j % 8) as u8);
        }
    }
    assert(bits_of(after) =~= bits_of(bytes).update(b * 8 + bit, true));
}

/// An exclusive or with a one-bit mask lowers a byte exactly when that bit
/// is set in it.
proof fn lemma_xor_lowers(x: u8, bit: u8)
    requires
        bit < 8,
    ensures
        ((x ^ bit_mask(bit)) < x) == is_set(x, bit),
{
    assert(((x ^ (0x80u8 >> bit)) < x) == (x & (0x80u8 >> bit) != 0)) by (bit_vector)
        requires
            bit < 8,
    ;
}

/// Relies on `RandomState::new`: a hash-seed state with fresh random keys.
#[verifier::external_body]
fn random_state() -> RandomState {
    RandomState::new()
}

/// Relies on `BuildHasher::hash_one` for `RandomState`: the hash of `elem`
/// under the state's keys. The keys are random, so nothing is stated of the
/// value.
#[verifier::external_body]
fn hash_with<T: Hash + ?Sized>(state: &RandomState, elem: &T) -> u64 {
    state.hash_one(elem)
}

/// Every round addresses a bit of the filter: the byte offset is folded into
/// `[0, nbytes)`, whatever the hashes.
pub proof fn lemma_position_in_range(h1: u64, h2: u64, round: int, nbytes: nat)
    requires
        nbytes > 0,
    ensures
        0 <= (combined(h1, h2, round) / 8) % (nbytes as int) < nbytes,
        0 <= position(h1, h2, round, nbytes) < nbytes * 8,
{
    let c = combined(h1, h2, round);
    let b = (c / 8) % (nbytes as int);
    assert(0 <= b < nbytes);
    assert(0 <= c % 8 < 8);
    assert(b * 8 + c % 8 < nbytes * 8) by (nonlinear_arith)
        requires
            0 <= b < nbytes,
            0 <= c % 8 < 8,
    ;
}

/// The bits after inserting each hash pair of `pairs` in turn.
pub open spec fn inserted_all(bits: Seq<bool>, k: nat, nbytes: nat, pairs: Seq<(u64, u64)>) -> Seq<
    bool,
>
    decreases pairs.len(),
{
    if pairs.len() == 0 {
        bits
    } else {
        let last = pairs.last();
        inserted(inserted_all(bits, k, nbytes, pairs.drop_last()), k, nbytes, last.0, last.1)
    }
}

/// The number of set bits.
pub open spec fn count_set(bits: Seq<bool>) -> nat
    decreases bits.len(),
{
    if bits.len() == 0 {
        0
    } else {
        count_set(bits.drop_last()) + if bits.last() {
            1nat
        } else {
            0nat
        }
    }
}

/// A bit sequence that has every set bit of another of the same length has
/// at least as many set bits.
pub proof fn lemma_count_set_monotonic(a: Seq<bool>, b: Seq<bool>)
    requires
        a.len() == b.len(),
        forall|j: int| 0 <= j < a.len() && #[trigger] a[j] ==> b[j],
    ensures
        count_set(a) <= count_set(b),
    decreases a.len(),
{
    if a.len() > 0 {
        let (a2, b2) = (a.drop_last(), b.drop_last());
        assert forall|j: int| 0 <= j < a2.len() && #[trigger] a2[j] implies b2[j] by {
            assert(a[j]);
        }
        lemma_count_set_monotonic(a2, b2);
    }
}

/// Inserting never clears a bit, so the number of set bits never drops.
pub proof fn lemma_insert_monotonic(bits: Seq<bool>, k: nat, nbytes: nat, h1: u64, h2: u64)
    ensures
        inserted(bits, k, nbytes, h1, h2).len() == bits.len(),
        forall|j: int|
            0 <= j < bits.len() && #[trigger] bits[j] ==> inserted(bits, k, nbytes, h1, h2)[j],
        count_set(bits) <= count_set(inserted(bits, k, nbytes, h1, h2)),
{
    lemma_count_set_monotonic(bits, inserted(bits, k, nbytes, h1, h2));
}

/// Any run of insertions keeps every set bit set.
pub proof fn lemma_insert_all_monotonic(
    bits: Seq<bool>,
    k: nat,
    nbytes: nat,
    pairs: Seq<(u64, u64)>,
)
    ensures
        inserted_all(bits, k, nbytes, pairs).len() == bits.len(),
        forall|j: int|
            0 <= j < bits.len() && #[trigger] bits[j] ==> inserted_all(bits, k, nbytes, pairs)[j],
        count_set(bits) <= count_set(inserted_all(bits, k, nbytes, pairs)),
    decreases pairs.len(),
{
    if pairs.len() > 0 {
        let before = inserted_all(bits, k, nbytes, pairs.drop_last());
        lemma_insert_all_monotonic(bits, k, nbytes, pairs.drop_last());
        lemma_insert_monotonic(before, k, nbytes, pairs.last().0, pairs.last().1);
        assert forall|j: int|
            0 <= j < bits.len() && #[trigger] bits[j] implies inserted_all(
            bits,
            k,
            nbytes,
            pairs,
        )[j] by {
            assert(before[j]);
        }
    }
}

/// A hash pair that was inserted is found, right after its insertion and
/// after any further insertions: the filter has no false negatives.
pub proof fn lemma_no_false_negatives(
    bits: Seq<bool>,
    k: nat,
    nbytes: nat,
    h1: u64,
    h2: u64,
    later: Seq<(u64, u64)>,
)
    requires
        nbytes > 0,
        bits.len() == nbytes * 8,
    ensures
        found(inserted(bits, k, nbytes, h1, h2), k, nbytes, h1, h2),
        found(inserted_all(inserted(bits, k, nbytes, h1, h2), k, nbytes, later), k, nbytes, h1, h2),
{
    let after = inserted(bits, k, nbytes, h1, h2);
    assert forall|r: int| 0 <= r < k implies after[#[trigger] position(h1, h2, r, nbytes)] by {
        lemma_position_in_range(h1, h2, r, nbytes);
    }
    lemma_insert_all_monotonic(after, k, nbytes, later);
    assert forall|r: int| 0 <= r < k implies inserted_all(after, k, nbytes, later)[
    #[trigger] position(h1, h2, r, nbytes)] by {
        lemma_position_in_range(h1, h2, r, nbytes);
        assert(after[position(h1, h2, r, nbytes)]);
    }
}

/// An approximate set of items of type `T`: `k` bits per item are set on
/// insert, and an item is reported present when all of its bits are set.
pub struct BloomFilter<T: ?Sized> {
    bitmap: Vec<u8>,
    optimal_m: u64,
    byte_count: usize,
    optimal_k: u32,
    hashers: [RandomState; 2],
    _marker: PhantomData<T>,
}

/// A byte offset, not yet folded into range, and a bit offset below 8.
struct ByteIndex(u64, u8);

impl<T: ?Sized> BloomFilter<T> {
    /// The bitmap holds `byte_count` bytes, and at least one.
    pub closed spec fn wf(self) -> bool {
        &&& self.bitmap@.len() == self.byte_count
        &&& self.byte_count > 0
    }

    /// The filter's bits.
    pub closed spec fn bits(self) -> Seq<bool> {
        bits_of(self.bitmap@)
    }

    /// The number of hash rounds per item.
    pub closed spec fn rounds(self) -> nat {
        self.optimal_k as nat
    }

    /// The bit length that the filter was sized for.
    pub closed spec fn target_bits(self) -> nat {
        self.optimal_m as nat
    }

    /// The number of bytes of the bitmap.
    pub closed spec fn nbytes(self) -> nat {
        self.byte_count as nat
    }

    fn get_index(&self, hash1: u64, hash2: u64, hash_set_number: u64) -> (r: ByteIndex)
        ensures
            r.0 == combined(hash1, hash2, hash_set_number as int) / 8,
            r.1 == combined(hash1, hash2, hash_set_number as int) % 8,
    {
        let num = hash1.wrapping_add(hash_set_number.wrapping_mul(hash2));
        proof {
            let m = hash_set_number as int * hash2 as int;
            lemma_add_mod_noop(hash1 as int, m, 0x1_0000_0000_0000_0000);
            assert(hash1 as int % 0x1_0000_0000_0000_0000 == hash1);
        }
        ByteIndex(num / 8, (num % 8) as u8)
    }

    fn get_bitmask(bit_index: u8) -> (r: u8)
        ensures
            r == (if bit_index < 8 { bit_mask(bit_index) } else { 0 }),
    {
        assert(0x80u8 >> 0u8 == 0x80u8 && 0x80u8 >> 1u8 == 0x40u8 && 0x80u8 >> 2u8 == 0x20u8
            && 0x80u8 >> 3u8 == 0x10u8 && 0x80u8 >> 4u8 == 0x08u8 && 0x80u8 >> 5u8 == 0x04u8
            && 0x80u8 >> 6u8 == 0x02u8 && 0x80u8 >> 7u8 == 0x01u8) by (bit_vector);
        match bit_index {
            0 => 0b10000000,
            1 => 0b01000000,
            2 => 0b00100000,
            3 => 0b00010000,
            4 => 0b00001000,
            5 => 0b00000100,
            6 => 0b00000010,
            7 => 0b00000001,
            _ => 0,
        }
    }
    fn set_byte(&mut self, byte_index: ByteIndex)
        requires
            old(self).wf(),
            byte_index.1 < 8,
        ensures
            final(self).wf(),
            final(self).bits() == old(self).bits().update(
                (byte_index.0 as int % old(self).nbytes() as int) * 8 + byte_index.1,
                true,
            ),
            final(self).rounds() == old(self).rounds(),
            final(self).nbytes() == old(self).nbytes(),
    {
        let bitmask = Self::get_bitmask(byte_index.1);
        let b = (byte_index.0 % (self.byte_count as u64)) as usize;
        let byte = self.bitmap[b] | bitmask;
        proof {
            lemma_set_bit(self.bitmap@, b as int, byte_index.1);
        }
        self.bitmap.set(b, byte);
    }

    fn bit_is_set(&self, byte_index: ByteIndex) -> (r: bool)
        requires
            self.wf(),
            byte_index.1 < 8,
        ensures
            r == self.bits()[(byte_index.0 as int % self.nbytes() as int) * 8 + byte_index.1],
    {
        let bitmask = Self::get_bitmask(byte_index.1);
        let byte = self.bitmap[(byte_index.0 % (self.byte_count as u64)) as usize];
        proof {
            lemma_xor_lowers(byte, byte_index.1);
        }
        // the exclusive or clears the bit, and so lowers the byte, only where it was set
        (byte ^ bitmask) < byte
    }
    /// Sets the bits that the hash pair `(h1, h2)` addresses, one per round;
    /// no bit is cleared.
    pub fn insert_hashes(&mut self, h1: u64, h2: u64)
        requires
            old(self).wf(),
        ensures
            final(self).wf(),
            final(self).rounds() == old(self).rounds(),
            final(self).nbytes() == old(self).nbytes(),
            final(self).bits() == inserted(
                old(self).bits(),
                old(self).rounds(),
                old(self).nbytes(),
                h1,
                h2,
            ),
    {
        let ghost start = self.bits();
        let ghost n = self.nbytes();
        let mut i: u32 = 0;
        assert(self.bits() =~= inserted(start, 0, n, h1, h2));
        while i < self.optimal_k
            invariant
                self.wf(),
                self.rounds() == old(self).rounds(),
                self.nbytes() == n,
                start == old(self).bits(),
                n == old(self).nbytes(),
                i <= self.rounds(),
                self.bits() == inserted(start, i as nat, n, h1, h2),
            decreases self.rounds() - i,
        {
            let index = self.get_index(h1, h2, i as u64);
            self.set_byte(index);
            proof {
                let p = position(h1, h2, i as int, n);
                lemma_position_in_range(h1, h2, i as int, n);
                assert forall|j: int| 0 <= j < start.len() implies #[trigger] inserted(
                    start,
                    (i + 1) as nat,
                    n,
                    h1,
                    h2,
                )[j] == inserted(start, i as nat, n, h1, h2).update(p, true)[j] by {
                    if j == p {
                        assert(position(h1, h2, i as int, n) == j);
                    } else {
                        if exists|r: int| 0 <= r < i + 1 && #[trigger] position(h1, h2, r, n) == j {
                            let r = choose|r: int| 0 <= r < i + 1 && #[trigger] position(h1, h2, r, n) == j;
                            assert(0 <= r < i);
                        }
                    }
                }
                assert(inserted(start, (i + 1) as nat, n, h1, h2) =~= inserted(start, i as nat, n, h1, h2).update(p, true));
            }
            i = i + 1;
        }
    }

    /// Whether every bit that the hash pair `(h1, h2)` addresses is set.
    pub fn contains_hashes(&self, h1: u64, h2: u64) -> (r: bool)
        requires
            self.wf(),
        ensures
            r == found(self.bits(), self.rounds(), self.nbytes(), h1, h2),
    {
        let mut i: u32 = 0;
        while i < self.optimal_k
            invariant
                self.wf(),
                i <= self.rounds(),
                found(self.bits(), i as nat, self.nbytes(), h1, h2),
            decreases self.rounds() - i,
        {
            let index = self.get_index(h1, h2, i as u64);
            if !self.bit_is_set(index) {
                assert(!self.bits()[position(h1, h2, i as int, self.nbytes())]);
                return false;
            }
            i = i + 1;
        }
        true
    }
    /// An empty filter of `optimal_m / 8` bytes that sets `optimal_k` bits
    /// per item, with two freshly seeded hash states.
    pub fn with_sizes(optimal_m: usize, optimal_k: u32) -> (r: Self)
        requires
            optimal_m / 8 > 0,
        ensures
            r.wf(),
            r.nbytes() == optimal_m / 8,
            r.rounds() == optimal_k,
            r.target_bits() == optimal_m,
            r.bits() == Seq::new(r.nbytes() * 8, |j: int| false),
    {
        let byte_count = optimal_m / 8;
        let mut bitmap: Vec<u8> = Vec::new();
        while bitmap.len() < byte_count
            invariant
                bitmap.len() <= byte_count,
                forall|j: int| 0 <= j < bitmap.len() ==> bitmap@[j] == 0u8,
            decreases byte_count - bitmap.len(),
        {
            bitmap.push(0);
        }
        let hashers = [random_state(), random_state()];
        let r = BloomFilter {
            bitmap,
            optimal_m: optimal_m as u64,
            byte_count,
            optimal_k,
            hashers,
            _marker: PhantomData,
        };
        assert forall|j: int| 0 <= j < r.nbytes() * 8 implies !#[trigger] r.bits()[j] by {
            assert(0u8 & (0x80u8 >> ((j % 8) as u8)) == 0u8) by (bit_vector);
        }
        assert(r.bits() =~= Seq::new(r.nbytes() * 8, |j: int| false));
        r
    }

    /// The number of hash rounds per item.
    pub fn hasher_count(&self) -> (r: u32)
        ensures
            r == self.rounds(),
    {
        self.optimal_k
    }

    /// The number of bytes of the bitmap.
    pub fn byte_count(&self) -> (r: usize)
        ensures
            r == self.nbytes(),
    {
        self.byte_count
    }

    /// The bit length that the filter was sized for; the bitmap holds the
    /// whole bytes of it.
    pub fn target_bit_count(&self) -> (r: u64)
        ensures
            r == self.target_bits(),
    {
        self.optimal_m
    }

    /// The base hash pair of `elem`, one hash under each seed state.
    fn hash_kernel(&self, elem: &T) -> (u64, u64)
        where
            T: Hash,
    {
        let hash1 = hash_with(&self.hashers[0], elem);
        let hash2 = hash_with(&self.hashers[1], elem);
        (hash1, hash2)
    }

    /// Inserts `elem`: sets the bits that its base hash pair addresses.
    pub fn insert(&mut self, elem: T)
        where
            T: Hash + Sized,
        requires
            old(self).wf(),
        ensures
            final(self).wf(),
            final(self).rounds() == old(self).rounds(),
            final(self).nbytes() == old(self).nbytes(),
            exists|h1: u64, h2: u64|
                final(self).bits() == inserted(
                    old(self).bits(),
                    old(self).rounds(),
                    old(self).nbytes(),
                    h1,
                    h2,
                ),
    {
        let (h1, h2) = self.hash_kernel(&elem);
        self.insert_hashes(h1, h2);
    }

    /// Whether `elem` may be present: all bits that its base hash pair
    /// addresses are set.
    pub fn contains(&self, elem: T) -> (r: bool)
        where
            T: Hash + Sized,
        requires
            self.wf(),
        ensures
            exists|h1: u64, h2: u64| r == found(self.bits(), self.rounds(), self.nbytes(), h1, h2),
    {
        let (h1, h2) = self.hash_kernel(&elem);
        self.contains_hashes(h1, h2)
    }
}

} // verus!
