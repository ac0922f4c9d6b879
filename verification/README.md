# serde_urlencoded_bytes

Serializer and deserializer for the `x-www-form-urlencoded` format that
carries raw byte strings as well as UTF-8 text, with its core proved
correct in Verus.

- `src/format.rs` states the format: percent-encoding and decoding of one
  byte string, how a body splits into pairs, and the laws that connect them
  (decoding gives back what was encoded; a written pair reads back as itself;
  splitting at `&` distributes over concatenation).
- `src/ser/` holds the encoder (keys and values alternate; a body that is
  finished reads back as exactly the pairs that were given, and a cancelled
  one leaves the target as it was), the key/value writers and the pair
  writer.
- `src/de/` holds the percent-decoder and the pair reader.
- `app/` holds the serde trait impls and the entry points `to_string`,
  `to_vec`, `append_string`, `append_vec`, `from_bytes` and `from_str`,
  which drive the verified library; floating-point text comes from `ryu`
  and std there.
