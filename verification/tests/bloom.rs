use bloomfilter::reexports::getrandom::getrandom;
use bloomfilter::Bloom;

/// The number of hash functions that the sizing rule picks for `bitmap_bits` bits and
/// `items_count` items: `round(bitmap_bits / items_count * ln 2)`, at least one.
fn optimal_k_num(bitmap_bits: u64, items_count: usize) -> u32 {
    let m = bitmap_bits as f64;
    let n = items_count as f64;
    let k_num = (m / n * f64::ln(2.0f64)).round() as u32;
    std::cmp::max(k_num, 1)
}

fn new_random(bitmap_size: usize, items_count: usize) -> Bloom<Vec<u8>> {
    Bloom::new_with_k_num(bitmap_size, optimal_k_num(bitmap_size as u64 * 8, items_count)).unwrap()
}

fn new_seeded<T: ?Sized>(bitmap_size: usize, items_count: usize, seed: &[u8; 32]) -> Bloom<T> {
    Bloom::new_with_seed_and_k_num(
        bitmap_size,
        optimal_k_num(bitmap_size as u64 * 8, items_count),
        seed,
    )
    .unwrap()
}

#[test]
fn bloom_test_set() {
    let mut bloom = new_random(10, 80);
    let mut k = vec![0u8, 16];
    getrandom(&mut k).unwrap();
    assert!(!bloom.check(&k));
    bloom.set(&k);
    assert!(bloom.check(&k));
}

#[test]
fn bloom_test_check_and_set() {
    let mut bloom = new_random(10, 80);
    let mut k = vec![0u8, 16];
    getrandom(&mut k).unwrap();
    assert!(!bloom.check_and_set(&k));
    assert!(bloom.check_and_set(&k));
}

#[test]
fn bloom_test_clear() {
    let mut bloom = new_random(10, 80);
    let mut k = vec![0u8, 16];
    getrandom(&mut k).unwrap();
    bloom.set(&k);
    assert!(bloom.check(&k));
    bloom.clear();
    assert!(!bloom.check(&k));
}

#[test]
fn bloom_test_load() {
    let mut original = new_random(10, 80);
    let mut k = vec![0u8, 16];
    getrandom(&mut k).unwrap();
    original.set(&k);
    assert!(original.check(&k));

    let original_bytes = original.as_slice();
    let cloned = Bloom::from_slice(original_bytes).unwrap();
    let cloned_bytes = cloned.to_bytes();
    assert_eq!(original_bytes, cloned_bytes);
    assert!(original.check(&k));
    assert!(cloned.check(&k));
}

#[test]
fn bloom_test_flush_owned_noop() {
    let seed = [42u8; 32];
    let bloom = new_seeded::<[u8]>(16, 80, &seed);
    bloom.flush().unwrap();
}

#[test]
fn bloom_test_check_via_from_bytes() {
    let seed = [12u8; 32];
    let key = b"from-bytes-key";

    let mut bloom = new_seeded(64, 80, &seed);
    bloom.set(key);

    let loaded = Bloom::from_bytes(bloom.to_bytes()).unwrap();
    assert!(loaded.check(key));
    assert!(!loaded.check(b"not-in-filter!"));
}
