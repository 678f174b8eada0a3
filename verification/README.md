# isobmff_syntax

Parsing and serialization of ISO Base Media File Format (ISO/IEC 14496-12)
boxes, verified with Verus.

Each box type has a borrowing view over its bytes (`...View`, checked on
construction), an owned form (`...Owned`) that serializes into a `Vec<u8>`,
and a trait with the accessors both share. The contracts state, over spec
functions on byte sequences, what a view reads from the bytes, exactly when
construction fails and with which error, and which bytes an owned box writes;
proof functions named `lemma_roundtrip` (and kin) state that what is written
reads back.

Layout:

- `src/bytes.rs`: big-endian encoding model, readers and writers.
- `src/header.rs`, `src/error.rs`: box and full box headers, errors.
- `src/container.rs`: child boxes of a container, raw and opaque boxes.
- `src/code.rs`, `src/types.rs`, `src/text.rs`: codes, fixed-point and language types, UTF-8 text.
- `src/boxes/`: one module per box type; `sgpd/entries.rs` holds the sample group entry types and
  `sgpd/read_back.rs` states what reading back a written entry gives.
- `tests/`: behaviour tests.
- `app/`: writing boxes to any `std::io::Write`, and MP4RA code conversions.
