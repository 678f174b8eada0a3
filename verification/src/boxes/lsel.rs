//! Layer Selection Box (lsel) parsing and serialization.
//!
//! The Layer Selection Box specifies the layer to be displayed for multi-layer images.
//!
//! ```text
//! aligned(8) class LayerSelectorProperty
//!    extends ItemFullProperty('lsel', version = 0, 0) {
//!    unsigned int(16) layer_id;
//! }
//! ```

use vstd::prelude::*;
use crate::bytes::{lemma_u16_bytes_of, be16, lemma_be_sub, lemma_u16_roundtrip, read_u16, read_u24, u16_bytes, write_u16};
use crate::code::BoxCode;
use crate::error::{ParseError, WriteError};
use crate::header::{canonical_header, lemma_fullbox_bytes_of, FullBoxHeader, begin_fullbox, flags_of, fullbox_bytes, fullbox_payload_of, header_len, lemma_fullbox_roundtrip, spec_check_fullbox, version_of};

verus! {

broadcast use crate::bytes::group_bytes_len;

/// The box type identifier for LayerSelectionBox (`lsel`).
pub const BOX_TYPE: BoxCode = 0x6c73_656c;

/// The header of the LayerSelectionBox `s`, or why `s` is not one.
pub open spec fn spec_check(s: Seq<u8>) -> Result<FullBoxHeader, ParseError> {
    spec_check_fullbox(s, BOX_TYPE, None, 2)
}

/// The layer ID, read from the box `s`.
pub open spec fn spec_layer_id(s: Seq<u8>) -> u16 {
    be16(fullbox_payload_of(s), 0) as u16
}

/// Common interface for accessing LayerSelectionBox data.
pub trait LayerSelectionBox {
    /// Returns the total size of the box in bytes.
    fn box_size(&self) -> u64;

    /// Returns the box type.
    fn box_type(&self) -> BoxCode;

    /// Returns the layer ID.
    fn layer_id(&self) -> u16;
}

/// A borrowing view over raw LayerSelectionBox bytes.
#[derive(Clone, Copy, Debug)]
pub struct LayerSelectionBoxView<'a> {
    data: &'a [u8],
    fullbox_offset: usize,
}

impl<'a> LayerSelectionBoxView<'a> {
    #[verifier::type_invariant]
    closed spec fn inv(&self) -> bool {
        &&& spec_check(self.data@) is Ok
        &&& self.fullbox_offset == header_len(self.data@)
    }

    /// The bytes of the box.
    pub closed spec fn spec_data(&self) -> Seq<u8> {
        self.data@
    }

    /// Creates a new view over the given bytes.
    pub fn new(data: &'a [u8]) -> (r: Result<Self, ParseError>)
        ensures
            match r {
                Ok(v) => v.spec_data() == data@ && spec_check(data@) is Ok,
                Err(e) => spec_check(data@) == Err::<FullBoxHeader, ParseError>(e),
            },
    {
        let header = FullBoxHeader::parse(data, data.len())?;
        let fullbox_offset = header.validate(data, BOX_TYPE, None, 2)?;
        Ok(Self { data, fullbox_offset })
    }

    /// Returns the underlying byte slice.
    pub fn as_bytes(&self) -> (r: &'a [u8])
        ensures
            r@ == self.spec_data(),
    {
        self.data
    }
}

impl<'a> LayerSelectionBox for LayerSelectionBoxView<'a> {
    fn box_size(&self) -> (r: u64)
        ensures
            r == self.spec_data().len(),
    {
        self.data.len() as u64
    }

    fn box_type(&self) -> (r: BoxCode)
        ensures
            r == BOX_TYPE,
    {
        BOX_TYPE
    }

    fn layer_id(&self) -> (r: u16)
        ensures
            r == spec_layer_id(self.spec_data()),
    {
        proof { use_type_invariant(self); }
        let o = self.fullbox_offset + 4;
        read_u16(self.data, o + 0)
    }
}

/// An owned representation of LayerSelectionBox data.
#[derive(Clone, Debug, PartialEq, Eq)]
pub struct LayerSelectionBoxOwned {
    /// The layer ID.
    pub layer_id: u16,
}

impl LayerSelectionBoxOwned {
    /// The payload bytes after version and flags.
    pub open spec fn spec_payload(&self) -> Seq<u8> {
        u16_bytes(self.layer_id)
    }

    /// The serialized bytes of the box.
    pub open spec fn spec_bytes(&self) -> Seq<u8> {
        fullbox_bytes(BOX_TYPE, 0, 0, self.spec_payload())
    }

    /// Creates a new LayerSelectionBoxOwned.
    pub fn new(layer_id: u16) -> (r: Self)
        ensures
            r.layer_id == layer_id,
    {
        Self { layer_id }
    }

    /// Returns the serialized size of the box.
    fn serialized_size(&self) -> (r: u64)
        ensures
            r == self.spec_bytes().len(),
    {
        proof { lemma_fullbox_roundtrip(BOX_TYPE, 0, 0, self.spec_payload()); }
        14
    }

    /// Writes the box to the given vector.
    pub fn write_to(&self, out: &mut Vec<u8>) -> (r: Result<(), WriteError>)
        ensures
            r is Ok,
            final(out)@ == old(out)@ + self.spec_bytes(),
    {
        match begin_fullbox(out, BOX_TYPE, 0, 0, 2) {
            Ok(()) => {},
            Err(e) => return Err(e),
        }
        let ghost ck = out@;
        write_u16(out, self.layer_id);
        let ghost mut acc = u16_bytes(self.layer_id);
        assert(out@ =~= ck + acc);
        Ok(())
    }

    /// Creates an owned copy of the box that `source` views.
    pub fn from(source: &LayerSelectionBoxView<'_>) -> (r: Self)
        ensures
            r.layer_id == spec_layer_id(source.spec_data()),
    {
        Self { layer_id: source.layer_id() }
    }
}

impl Default for LayerSelectionBoxOwned {
    fn default() -> (r: Self)
        ensures
            r.layer_id == 0,
    {
        Self::new(0)
    }
}

impl LayerSelectionBox for LayerSelectionBoxOwned {
    fn box_size(&self) -> (r: u64)
        ensures
            r == self.spec_bytes().len(),
    {
        self.serialized_size()
    }

    fn box_type(&self) -> (r: BoxCode)
        ensures
            r == BOX_TYPE,
    {
        BOX_TYPE
    }

    fn layer_id(&self) -> (r: u16)
        ensures
            r == self.layer_id,
    {
        self.layer_id
    }
}

/// Parsing the serialized bytes of an owned box succeeds and reads back every field.
pub proof fn lemma_roundtrip(o: &LayerSelectionBoxOwned)
    ensures
        spec_check(o.spec_bytes()) is Ok,
        spec_layer_id(o.spec_bytes()) == o.layer_id,
{
    lemma_fullbox_roundtrip(BOX_TYPE, 0, 0, o.spec_payload());
    lemma_u16_roundtrip(o.layer_id);
    let p = o.spec_payload();
    let p0 = u16_bytes(o.layer_id);
    assert(p == p0);
    assert(p0.subrange(0, 2) =~= u16_bytes(o.layer_id));
    assert(p.subrange(0, 2) =~= u16_bytes(o.layer_id));
    lemma_be_sub(p, 0);
}

/// Writing the owned box that holds what the box `s` reads gives back `s`,
/// where `s` is written as serializing writes it: a header that declares its
/// whole length in the fewest bytes, and version 0, no flags and a two-byte payload.
pub proof fn lemma_lossless(s: Seq<u8>, o: &LayerSelectionBoxOwned)
    requires
        spec_check(s) is Ok,
        canonical_header(s),
        version_of(s) == 0,
        flags_of(s) == 0,
        fullbox_payload_of(s).len() == 2,
        o.layer_id == spec_layer_id(s),
    ensures
        o.spec_bytes() == s,
{
    let p = fullbox_payload_of(s);
    lemma_u16_bytes_of(p, 0);
    assert(p.subrange(0, 2) =~= p);
    lemma_fullbox_bytes_of(s);
}

/// The LayerSelectorBox payload holds the layer identifier in its first two
/// bytes, big-endian.
pub proof fn lemma_field_layout(s: Seq<u8>)
    requires
        spec_check(s) is Ok,
    ensures
        ({
            let p = fullbox_payload_of(s);
            &&& spec_layer_id(s) == be16(p, 0)
        }),
{
}

} // verus!
