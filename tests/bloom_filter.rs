use oxibloom::bloom::BloomFilter;
use oxibloom::os_random::{get_random_u128, EntropyBuffer, BUFFER_LENGTH};

/// Fills an entropy buffer with bytes of a xorshift sequence.
fn pseudo_random_fill(buffer: &mut EntropyBuffer, state: &mut u64) {
    let mut fresh: Vec<u8> = Vec::with_capacity(BUFFER_LENGTH);
    while fresh.len() < BUFFER_LENGTH {
        *state ^= *state << 13;
        *state ^= *state >> 7;
        *state ^= *state << 17;
        fresh.extend_from_slice(&state.to_le_bytes());
    }
    buffer.refill(fresh);
}

fn next_u128(buffer: &mut EntropyBuffer, state: &mut u64) -> u128 {
    if buffer.needs_refill(16) {
        pseudo_random_fill(buffer, state);
    }
    get_random_u128(buffer).unwrap()
}

#[test]
fn new_filter_has_requested_sizes() {
    let filter: BloomFilter<u64> = BloomFilter::with_sizes(9_585_059, 7);
    assert_eq!(filter.byte_count(), 1_198_132);
    assert_eq!(filter.hasher_count(), 7);
    assert_eq!(filter.target_bit_count(), 9_585_059);
}

#[test]
fn empty_filter_finds_nothing() {
    let filter: BloomFilter<u64> = BloomFilter::with_sizes(800, 3);
    assert!(!filter.contains(17));
    assert!(!filter.contains_hashes(0, 0));
    assert!(!filter.contains_hashes(u64::MAX, 12345));
}

#[test]
fn zero_rounds_report_every_item() {
    let filter: BloomFilter<u64> = BloomFilter::with_sizes(64, 0);
    assert!(filter.contains(5));
    assert!(filter.contains_hashes(1, 2));
}

#[test]
fn inserted_hash_pair_is_found() {
    let mut filter: BloomFilter<u64> = BloomFilter::with_sizes(8, 1);
    filter.insert_hashes(0, 0);
    assert!(filter.contains_hashes(0, 0));
    assert!(!filter.contains_hashes(1, 0));
}

#[test]
fn byte_offset_folds_into_range() {
    // byte offset 5 folds to byte 1 of a two-byte filter, bit 3
    let mut filter: BloomFilter<u64> = BloomFilter::with_sizes(16, 1);
    filter.insert_hashes(8 * 5 + 3, 0);
    assert!(filter.contains_hashes(8 + 3, 0));
    assert!(filter.contains_hashes(8 * 7 + 3, 0));
    assert!(!filter.contains_hashes(3, 0));
    assert!(!filter.contains_hashes(8 + 4, 0));
}

#[test]
fn largest_hashes_fold_without_panic() {
    let mut filter: BloomFilter<u64> = BloomFilter::with_sizes(24, 4);
    filter.insert_hashes(u64::MAX, u64::MAX);
    assert!(filter.contains_hashes(u64::MAX, u64::MAX));
}

#[test]
fn combined_index_wraps_around() {
    // round 0 addresses bit 0, round 1 the wrapped value u64::MAX: bit 7
    let mut filter: BloomFilter<u64> = BloomFilter::with_sizes(8, 2);
    filter.insert_hashes(0, u64::MAX);
    assert!(filter.contains_hashes(7, 0));
    assert!(filter.contains_hashes(0, 0));
    assert!(!filter.contains_hashes(1, 0));
    assert!(!filter.contains_hashes(6, 0));
}

#[test]
fn found_after_later_insertions() {
    let mut filter: BloomFilter<u64> = BloomFilter::with_sizes(64, 3);
    filter.insert_hashes(3, 11);
    for h in 0..50u64 {
        filter.insert_hashes(h * 977, h + 1);
        assert!(filter.contains_hashes(3, 11));
    }
}

#[test]
fn bits_stay_set_across_insertions() {
    let mut filter: BloomFilter<u64> = BloomFilter::with_sizes(4096, 5);
    let mut pairs: Vec<(u64, u64)> = Vec::new();
    for h in 0..200u64 {
        let pair = (h.wrapping_mul(0x9E37_79B9_7F4A_7C15), h * 31 + 7);
        filter.insert_hashes(pair.0, pair.1);
        pairs.push(pair);
        for p in &pairs {
            assert!(filter.contains_hashes(p.0, p.1));
        }
    }
}

#[test]
fn inserted_items_are_found() {
    let mut filter: BloomFilter<String> = BloomFilter::with_sizes(10_000, 7);
    let words = ["alpha", "beta", "gamma", "delta"];
    for w in words {
        filter.insert(w.to_string());
        assert!(filter.contains(w.to_string()));
    }
    for w in words {
        assert!(filter.contains(w.to_string()));
    }
}

#[test]
fn repeated_queries_agree() {
    let mut filter: BloomFilter<u32> = BloomFilter::with_sizes(256, 3);
    for x in 0..20u32 {
        filter.insert(x * 3);
    }
    for x in 0..100u32 {
        let first = filter.contains(x);
        assert_eq!(filter.contains(x), first);
        assert_eq!(filter.contains(x), first);
    }
    assert!(filter.contains_hashes(5, 6) == filter.contains_hashes(5, 6));
}

#[test]
fn other_item_absent_from_sparse_filter() {
    let mut filter: BloomFilter<u64> = BloomFilter::with_sizes(8_000_000, 7);
    filter.insert(1);
    assert!(filter.contains(1));
    assert!(!filter.contains(2));
}

#[test]
fn million_items_end_to_end() {
    let mut buffer = EntropyBuffer::new();
    let mut state: u64 = 0x2545_F491_4F6C_DD1D;
    let mut filter: BloomFilter<u128> = BloomFilter::with_sizes(9_585_059, 7);
    let mut values: Vec<u128> = Vec::with_capacity(1_000_000);
    for _ in 0..1_000_000 {
        let v = next_u128(&mut buffer, &mut state);
        values.push(v);
        filter.insert(v);
    }
    for v in &values {
        assert!(filter.contains(*v));
    }
    let samples = 100_000;
    let mut positives = 0;
    for _ in 0..samples {
        let v = next_u128(&mut buffer, &mut state);
        if filter.contains(v) {
            positives += 1;
        }
    }
    let rate = positives as f64 / samples as f64;
    assert!(rate < 0.015, "false-positive rate {rate}");
    assert!(rate > 0.005, "false-positive rate {rate}");
}
