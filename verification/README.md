# bloomfilter

A bloom filter whose operations are specified and proved with Verus.

A filter is one byte sequence: a 45-byte header (format version, bitmap length in
bytes as a little-endian `u64`, number of hash functions as a little-endian `u32`,
32-byte seed) followed by the bitmap. It can be saved and loaded as is.

Layout of `src/`:

- `header.rs`: the header layout, its setters, and `parse` / `parse_header`, specified
  by `spec_parse` / `spec_parse_header`.
- `bits.rs`: single bits of a bitmap and the lemmas about setting them.
- `hash.rs`: the bit positions of an item (two SipHash-1-3 values, then
  `h0 + i * h1` modulo the largest 64-bit prime), and checking / setting them.
- `storage.rs`, `mmap.rs`: where the bytes live (heap, or a memory map made by the caller).
- `bloom.rs`: `Bloom`, its operations, and the laws that relate them.
- `readonly.rs`, `bitmap.rs`: the read-only filter and the plain bitmap.
- `text.rs`: descriptions of filters.

`app/` holds what stays in plain Rust: sizing from a false-positive rate (floating point),
mapping files, and serde support.
