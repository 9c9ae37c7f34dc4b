# flexbuffers (reader)

A verified reader for FlexBuffers, the schemaless binary format of the
FlatBuffers project.

- `src/bitwidth.rs`, `src/flexbuffer_type.rs`: the widths and types of values,
  with their codes in packed type bytes.
- `src/reader/cursor.rs`: bounds-checked positions in a buffer, and the
  little-endian reads (through `byteorder`) that every other read rests on.
- `src/reader/mod.rs`: `Reader`, the root of a buffer and the typed reads of a
  value; `src/reader/vector.rs`, `map.rs`, `iter.rs`, `slice.rs`: vectors, maps
  searched by key, iterators and typed slices.
- `src/reader/laws.rs`: properties that span operations, such as that readers
  stay within their buffer and that a map with sorted keys is searched exactly.
- `app/`: what the library leaves out because it involves floating point,
  raw addresses or `std::fmt`: float reads, `is_aligned`, and text forms.

Each operation states, over the bytes of the buffer, which value or which error
it gives back; Verus checks the code against those statements.
