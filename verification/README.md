# aidoku_sources

The logic of a set of manga sources for the Aidoku reader, written in Verus
and proved against its contracts.

- `src/` is the verified library. `model` holds the values a source hands to
  the app; `text` and `primitives` hold what the sources share (text
  handling, percent-encoding, and the calls into the hashing, cipher,
  encoding, compression, regex and date crates); every other module is one
  source, or the family of sites one module serves (`wpsites`).
- `tests/` runs the library on concrete values.
- `app/` is ordinary Rust around the library: JSON documents as serde_json
  holds them, and the chapter numbers and ratios that sources keep as
  floats.

The requests themselves, and the HTML reading that the reader app performs
for a source, are not here: the library takes what they return as plain
values and says what a source makes of them.
