use bloomfilter::bitmap::{file_len_for, BitMap};
use bloomfilter::bits::{set_bit, test_bit};
use bloomfilter::hash::{bloom_hash, item_hashes, keys_from_seed, LARGEST_U64_PRIME};
use bloomfilter::header::{
    get_version, parse, parse_header, set_k_num, set_len_bytes, set_seed, set_version,
    HEADER_SIZE, VERSION,
};
use bloomfilter::storage::new_storage;
use bloomfilter::text::{decimal_string, push_byte_list};
use bloomfilter::{Bloom, MmapMutStorage, MmapStorage, OwnedStorage, ReadOnlyBloom, StorageMut};
use siphasher::sip::SipHasher13;
use std::hash::{Hash, Hasher};

fn sample_seed() -> [u8; 32] {
    let mut seed = [0u8; 32];
    for (i, b) in seed.iter_mut().enumerate() {
        *b = i as u8;
    }
    seed
}

fn serialized(len_bytes: u64, k_num: u32, seed: &[u8; 32], bits: &[u8]) -> Vec<u8> {
    let mut v = vec![VERSION];
    v.extend_from_slice(&len_bytes.to_le_bytes());
    v.extend_from_slice(&k_num.to_le_bytes());
    v.extend_from_slice(seed);
    v.extend_from_slice(bits);
    v
}

#[test]
fn header_layout_of_new_storage() {
    let seed = [9u8; 32];
    let bytes = new_storage(2, 3, &seed);
    assert_eq!(bytes, serialized(2, 3, &seed, &[0, 0]));
    assert_eq!(bytes.len(), HEADER_SIZE + 2);
    assert_eq!(parse(&bytes), Ok((16, 3, seed)));
}

#[test]
fn header_setters_write_little_endian_fields() {
    let mut header = vec![0u8; HEADER_SIZE];
    set_version(&mut header, VERSION);
    set_len_bytes(&mut header, 0x0102_0304_0506_0708);
    set_k_num(&mut header, 0x0a0b_0c0d);
    set_seed(&mut header, &sample_seed());
    assert_eq!(get_version(&header), 1);
    assert_eq!(&header[1..9], &[8, 7, 6, 5, 4, 3, 2, 1]);
    assert_eq!(&header[9..13], &[0x0d, 0x0c, 0x0b, 0x0a]);
    assert_eq!(&header[13..45], &sample_seed()[..]);
}

#[test]
fn parse_reports_each_error() {
    let seed = [1u8; 32];
    assert_eq!(parse(&[1, 2, 3]), Err("Invalid size"));
    let mut wrong_version = serialized(1, 2, &seed, &[0]);
    wrong_version[0] = 2;
    assert_eq!(parse(&wrong_version), Err("Version mismatch"));
    assert_eq!(parse(&serialized(1, 0, &seed, &[0])), Err("Invalid number of keys"));
    assert_eq!(parse(&serialized(3, 2, &seed, &[0, 0])), Err("Invalid size"));
    assert_eq!(parse(&serialized(0, 2, &seed, &[])), Err("Bitmap cannot be empty"));
    assert_eq!(parse_header(&serialized(0, 2, &seed, &[])), Ok((0, 2, seed)));
    assert_eq!(parse_header(&[1]), Err("Invalid size"));
}

#[test]
fn bloom_hash_derives_later_hashes() {
    assert_eq!(bloom_hash(&[5, 7], 0), 5);
    assert_eq!(bloom_hash(&[5, 7], 1), 7);
    assert_eq!(bloom_hash(&[5, 7], 3), 26);
    assert_eq!(bloom_hash(&[u64::MAX, 1], 2), 1);
    assert_eq!(bloom_hash(&[LARGEST_U64_PRIME + 3, 0], 2), 3);
}

#[test]
fn keys_are_the_halves_of_the_seed() {
    let seed = sample_seed();
    let (k1, k2) = keys_from_seed(&seed);
    assert_eq!(&k1[..], &seed[0..16]);
    assert_eq!(&k2[..], &seed[16..32]);
}

#[test]
fn item_hashes_are_siphash13_under_each_key() {
    let seed = sample_seed();
    let item = b"some item".to_vec();
    let hashes = item_hashes(&seed, &item);
    let (k1, k2) = keys_from_seed(&seed);
    let mut sip = SipHasher13::new_with_key(&k1);
    item.hash(&mut sip);
    assert_eq!(hashes[0], sip.finish());
    let mut sip = SipHasher13::new_with_key(&k2);
    item.hash(&mut sip);
    assert_eq!(hashes[1], sip.finish());
    assert_ne!(hashes[0], hashes[1]);
}

#[test]
fn set_hashes_sets_the_selected_bits() {
    let seed = [3u8; 32];
    let mut bloom: Bloom<[u8]> = Bloom::new_with_seed_and_k_num(4, 3, &seed).unwrap();
    assert!(bloom.is_empty());
    assert!(!bloom.check_hashes([1, 2]));
    bloom.set_hashes([1, 2]);
    // positions 1, 2 and (1 + 2 * 2) % 32 = 5
    assert_eq!(bloom.to_bytes(), serialized(4, 3, &seed, &[0b0010_0110, 0, 0, 0]));
    assert!(bloom.check_hashes([1, 2]));
    assert!(!bloom.check_hashes([1, 3]));
    assert!(!bloom.is_empty());
}

#[test]
fn check_and_set_reports_previous_state() {
    let seed = [4u8; 32];
    let mut bloom: Bloom<[u8]> = Bloom::new_with_seed_and_k_num(8, 4, &seed).unwrap();
    assert!(!bloom.check_and_set_hashes([40, 9]));
    let after_first = bloom.to_bytes();
    assert!(bloom.check_and_set_hashes([40, 9]));
    assert_eq!(bloom.to_bytes(), after_first);
}

#[test]
fn no_false_negative_after_many_insertions() {
    let seed = [5u8; 32];
    let mut bloom: Bloom<u64> = Bloom::new_with_seed_and_k_num(16, 5, &seed).unwrap();
    for i in 0..50u64 {
        bloom.set(&i);
    }
    for i in 0..50u64 {
        assert!(bloom.check(&i));
    }
}

#[test]
fn clear_and_fill() {
    let seed = [6u8; 32];
    let mut bloom: Bloom<str> = Bloom::new_with_seed_and_k_num(8, 3, &seed).unwrap();
    bloom.set("a");
    bloom.clear();
    assert!(bloom.is_empty());
    assert!(!bloom.check("a"));
    assert_eq!(bloom.to_bytes(), serialized(8, 3, &seed, &[0; 8]));
    bloom.fill();
    assert!(bloom.check("anything"));
    assert_eq!(bloom.to_bytes(), serialized(8, 3, &seed, &[0xff; 8]));
}

#[test]
fn accessors_and_constructor_errors() {
    let seed = sample_seed();
    let bloom: Bloom<[u8]> = Bloom::new_with_seed_and_k_num(10, 7, &seed).unwrap();
    assert_eq!(bloom.len(), 80);
    assert_eq!(bloom.number_of_hash_functions(), 7);
    assert_eq!(bloom.seed(), seed);
    assert!(matches!(
        Bloom::<[u8]>::new_with_seed_and_k_num(0, 7, &seed),
        Err("Bitmap cannot be empty")
    ));
    assert!(matches!(
        Bloom::<[u8]>::new_with_seed_and_k_num(10, 0, &seed),
        Err("Invalid number of keys")
    ));
}

#[test]
fn random_seeds_differ() {
    let a: Bloom<[u8]> = Bloom::new_with_k_num(8, 2).unwrap();
    let b: Bloom<[u8]> = Bloom::new_with_k_num(8, 2).unwrap();
    assert_ne!(a.seed(), b.seed());
    assert!(a.is_empty());
}

#[test]
fn serialized_filter_reloads_and_clones() {
    let seed = [7u8; 32];
    let mut bloom: Bloom<str> = Bloom::new_with_seed_and_k_num(16, 4, &seed).unwrap();
    bloom.set("x");
    let copy = bloom.clone();
    assert_eq!(copy.as_slice(), bloom.as_slice());
    let bytes = bloom.into_bytes();
    let loaded: Bloom<str> = Bloom::from_bytes(bytes.clone()).unwrap();
    assert_eq!(loaded.len(), 128);
    assert_eq!(loaded.number_of_hash_functions(), 4);
    assert_eq!(loaded.seed(), seed);
    assert!(loaded.check("x"));
    assert!(matches!(Bloom::<str>::from_slice(&bytes[..10]), Err("Invalid size")));
}

#[test]
fn realloc_keeps_the_filter() {
    let seed = [8u8; 32];
    let mut bloom: Bloom<str> = Bloom::new_with_seed_and_k_num(16, 4, &seed).unwrap();
    bloom.set("kept");
    let before = bloom.to_bytes();
    let moved = bloom.realloc_large_heap_allocated_objects(|v: Vec<u8>| v.as_slice().to_vec());
    assert_eq!(moved.to_bytes(), before);
    assert!(moved.check("kept"));
}

#[test]
fn read_only_filter_agrees_with_filter() {
    let seed = [11u8; 32];
    let mut bloom: Bloom<str> = Bloom::new_with_seed_and_k_num(64, 4, &seed).unwrap();
    bloom.set("serialized-ro");
    let ro: ReadOnlyBloom<str> = ReadOnlyBloom::from_bytes(bloom.to_bytes()).unwrap();
    assert!(ro.check("serialized-ro"));
    assert_eq!(ro.check("missing-key!"), bloom.check("missing-key!"));
    assert_eq!(ro.to_bytes(), bloom.to_bytes());
    assert_eq!(ro.as_slice(), bloom.as_slice());
    assert_eq!(ro.len(), 512);
    assert_eq!(ro.number_of_hash_functions(), 4);
    assert!(!ro.is_empty());
    let cloned = ro.clone();
    assert_eq!(cloned.to_bytes(), ro.to_bytes());
    let owned = ro.to_owned_storage();
    assert_eq!(owned.to_bytes(), ro.to_bytes());
    assert_eq!(owned.len(), ro.len());
    let empty: ReadOnlyBloom<str> =
        ReadOnlyBloom::from_slice(&serialized(0, 2, &seed, &[])).unwrap();
    assert_eq!(empty.len(), 0);
    assert!(empty.is_empty());
    assert!(matches!(ReadOnlyBloom::<str>::from_slice(&[1, 2, 3]), Err("Invalid size")));
}

#[test]
fn single_bits() {
    let mut bytes = vec![0xaau8, 0, 0];
    set_bit(&mut bytes, 1, 9);
    assert_eq!(bytes, vec![0xaa, 0, 0b10]);
    assert!(test_bit(&bytes, 1, 9));
    assert!(!test_bit(&bytes, 1, 8));
    assert!(test_bit(&bytes, 0, 1));
}

#[test]
fn bitmap_operations() {
    let mut bitmap = BitMap::new(2);
    assert_eq!(bitmap.as_slice(), &serialized(2, 0, &[0; 32], &[0, 0])[..]);
    assert_eq!(bitmap.len_bits(), 16);
    assert!(!bitmap.any());
    bitmap.set(11);
    assert!(bitmap.get(11));
    assert!(!bitmap.get(10));
    assert!(bitmap.any());
    assert!(matches!(BitMap::from_slice(bitmap.as_slice()), Err("Invalid number of keys")));
    BitMap::set_k_num(bitmap.header_mut(), 3);
    BitMap::set_seed(bitmap.header_mut(), &[2u8; 32]);
    let bytes = bitmap.to_bytes();
    assert_eq!(bytes, serialized(2, 3, &[2u8; 32], &[0, 0b1000]));
    let reloaded = BitMap::from_bytes(bytes.clone()).unwrap();
    assert!(reloaded.get(11));
    assert_eq!(reloaded.clone().to_bytes(), bytes);
    bitmap.set_all();
    assert_eq!(&bitmap.as_slice()[HEADER_SIZE..], &[0xff, 0xff]);
    bitmap.clear();
    assert!(!bitmap.any());
    bitmap.flush().unwrap();
    let moved = bitmap.realloc_large_heap_allocated_objects(|v: Vec<u8>| v);
    assert_eq!(moved.into_bytes(), serialized(2, 3, &[2u8; 32], &[0, 0]));
}

#[test]
fn owned_storage_bytes() {
    let seed = [1u8; 32];
    let mut storage = OwnedStorage::new(1, 2, &seed);
    storage.bytes_mut()[HEADER_SIZE] = 0x80;
    assert_eq!(storage.into_bytes(), serialized(1, 2, &seed, &[0x80]));
}

#[test]
fn mapped_storage_serves_filters() {
    let len_bytes = 8usize;
    let map = memmap2::MmapMut::map_anon(HEADER_SIZE + len_bytes).unwrap();
    let mut bitmap = BitMap::initialize(MmapMutStorage::from_mmap_mut(map), len_bytes);
    assert_eq!(bitmap.as_slice(), &serialized(8, 0, &[0; 32], &[0; 8])[..]);
    bitmap.set(63);
    BitMap::<OwnedStorage>::set_k_num(bitmap.header_mut(), 2);
    let bytes = bitmap.to_bytes();
    assert_eq!(bytes, serialized(8, 2, &[0; 32], &[0, 0, 0, 0, 0, 0, 0, 0x80]));
    let mut map = memmap2::MmapMut::map_anon(bytes.len()).unwrap();
    map.copy_from_slice(&bytes);
    let remapped = BitMap::from_mmap_mut(map).unwrap();
    assert!(remapped.get(63));
    let copy = remapped.to_owned_storage();
    assert_eq!(copy.into_bytes(), bytes);
    let mut map = memmap2::MmapMut::map_anon(bytes.len()).unwrap();
    map.copy_from_slice(&bytes);
    let checked = BitMap::try_from_mmap_mut(map).unwrap().unwrap();
    assert!(checked.get(63));
    assert!(matches!(
        BitMap::from_mmap_mut(memmap2::MmapMut::map_anon(3).unwrap()),
        Err("Invalid size")
    ));

    let mut map = memmap2::MmapMut::map_anon(bytes.len()).unwrap();
    map.copy_from_slice(&bytes);
    let storage = MmapStorage::from_mmap(map.make_read_only().unwrap());
    let bloom: Bloom<str, MmapStorage> = Bloom::from_storage(storage).unwrap();
    assert_eq!(bloom.len(), 64);
    assert_eq!(bloom.as_slice(), &bytes[..]);
    assert!(!bloom.is_empty());
}

#[test]
fn descriptions() {
    let seed = sample_seed();
    let bloom: Bloom<[u8]> = Bloom::new_with_seed_and_k_num(10, 7, &seed).unwrap();
    assert_eq!(
        bloom.describe(),
        format!("Bloom filter with 80 bits, 7 hash functions and seed: {:?} ", seed)
    );
    let ro: ReadOnlyBloom<[u8]> = ReadOnlyBloom::from_bytes(bloom.to_bytes()).unwrap();
    assert_eq!(ro.describe(), "ReadOnlyBloom filter with 80 bits and 7 hash functions");
    assert_eq!(decimal_string(0), "0");
    assert_eq!(decimal_string(18446744073709551615), "18446744073709551615");
    let mut out = String::from("x");
    push_byte_list(&mut out, &[0, 7, 255]);
    assert_eq!(out, "x[0, 7, 255]");
    let mut empty = String::new();
    push_byte_list(&mut empty, &[]);
    assert_eq!(empty, "[]");
}

#[test]
fn insertion_order_does_not_matter() {
    let seed = [13u8; 32];
    let mut a: Bloom<[u8]> = Bloom::new_with_seed_and_k_num(8, 5, &seed).unwrap();
    let mut b: Bloom<[u8]> = Bloom::new_with_seed_and_k_num(8, 5, &seed).unwrap();
    a.set_hashes([1, 2]);
    a.set_hashes([30, 4]);
    b.set_hashes([30, 4]);
    b.set_hashes([1, 2]);
    assert_eq!(a.to_bytes(), b.to_bytes());
    assert!(a.check_hashes([1, 2]) && a.check_hashes([30, 4]));
}

fn streamed<T: Hash + ?Sized>(key: &[u8; 16], item: &T) -> u64 {
    let mut sip = SipHasher13::new_with_key(key);
    item.hash(&mut sip);
    sip.finish()
}

fn assert_same_as_streaming<T: Hash + ?Sized>(item: &T) {
    let seed = sample_seed();
    let (k1, k2) = keys_from_seed(&seed);
    assert_eq!(item_hashes(&seed, item), [streamed(&k1, item), streamed(&k2, item)]);
}

#[test]
fn item_hashes_match_streaming_for_many_types() {
    assert_same_as_streaming("a str");
    assert_same_as_streaming(&0x0102_0304_0506_0708u64);
    assert_same_as_streaming(&7u8);
    assert_same_as_streaming(&0xabcdu16);
    assert_same_as_streaming(&-5i32);
    assert_same_as_streaming(&u128::MAX);
    assert_same_as_streaming(&12345usize);
    assert_same_as_streaming(&'x');
    assert_same_as_streaming(&true);
    assert_same_as_streaming(&(3u32, "pair", vec![1u8, 2, 3]));
    assert_same_as_streaming(b"from-bytes-key");
    assert_same_as_streaming(&String::from("owned"));
    assert_same_as_streaming(&Vec::<u64>::new());
}

/// An item whose `Hash` impl reads the hasher's running value back.
struct ReadsFinish(u32);

impl Hash for ReadsFinish {
    fn hash<H: Hasher>(&self, state: &mut H) {
        state.write_u32(self.0);
        let so_far = state.finish();
        state.write_u64(so_far);
    }
}

#[test]
fn item_hashes_match_streaming_when_hash_reads_finish() {
    assert_same_as_streaming(&ReadsFinish(42));
}

#[test]
fn size_checks() {
    assert_eq!(file_len_for(10), Ok(55));
    assert_eq!(file_len_for(usize::MAX - 45), Ok(u64::MAX));
    assert_eq!(file_len_for(usize::MAX - 44), Err("Too big"));
    assert_eq!(Bloom::<[u8]>::validate_sizes(1, 1), Ok(()));
    assert_eq!(
        Bloom::<[u8]>::validate_sizes(0, 1),
        Err("bitmap_size and items_count must be greater than 0")
    );
    assert_eq!(
        Bloom::<[u8]>::validate_sizes(1, 0),
        Err("bitmap_size and items_count must be greater than 0")
    );
}

#[test]
fn mapped_bitmap_into_bytes() {
    let map = memmap2::MmapMut::map_anon(HEADER_SIZE + 2).unwrap();
    let mut bitmap = BitMap::initialize(MmapMutStorage::from_mmap_mut(map), 2);
    bitmap.set(0);
    assert_eq!(bitmap.into_bytes(), serialized(2, 0, &[0; 32], &[1, 0]));
}
