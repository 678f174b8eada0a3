//! JPEG Codec Configuration Box (jpgC) parsing and serialization.
//!
//! ```text
//! class JpegConfigurationBox extends Box('jpgC') {
//!    unsigned int(8) jpeg_prefix[];
//! }
//! ```

use vstd::prelude::*;
use crate::bytes::{copy_range, write_all};
use crate::code::BoxCode;
use crate::error::{ParseError, WriteError};
use crate::header::{canonical_header, lemma_box_bytes_of, 
    begin_box, box_bytes, box_fits, header_len, lemma_box_bytes_header, spec_box_size,
    spec_check_box, BoxHeader,
};

verus! {

/// The box type identifier for JPEGConfigurationBox (`jpgC`).
pub const BOX_TYPE: BoxCode = 0x6a70_6743;

/// The header of the JPEGConfigurationBox `s`, or why `s` is not one.
pub open spec fn spec_check(s: Seq<u8>) -> Result<BoxHeader, ParseError> {
    spec_check_box(s, BOX_TYPE, 0)
}

/// The JPEG configuration data of the box `s`.
pub open spec fn spec_jpeg_data(s: Seq<u8>) -> Seq<u8> {
    s.subrange(header_len(s), s.len() as int)
}

/// Common interface for accessing JPEGConfigurationBox data.
pub trait JPEGConfigurationBox {
    /// Returns the total size of the box in bytes.
    fn box_size(&self) -> u64;

    /// Returns the box type.
    fn box_type(&self) -> BoxCode;

    /// Returns the JPEG configuration data.
    fn jpeg_data(&self) -> &[u8];
}

/// A borrowing view over raw JPEGConfigurationBox bytes.
#[derive(Clone, Copy, Debug)]
pub struct JPEGConfigurationBoxView<'a> {
    data: &'a [u8],
    header_size: usize,
}

impl<'a> JPEGConfigurationBoxView<'a> {
    #[verifier::type_invariant]
    closed spec fn inv(&self) -> bool {
        &&& spec_check(self.data@) is Ok
        &&& self.header_size == header_len(self.data@)
    }

    /// The bytes of the box.
    pub closed spec fn bytes(&self) -> Seq<u8> {
        self.data@
    }

    /// Creates a new view over the given bytes.
    pub fn new(data: &'a [u8]) -> (r: Result<Self, ParseError>)
        ensures
            match r {
                Ok(v) => v.bytes() == data@ && spec_check(data@) is Ok,
                Err(e) => spec_check(data@) == Err::<BoxHeader, ParseError>(e),
            },
    {
        let header = BoxHeader::parse(data, data.len())?;
        header.validate(data, BOX_TYPE, 0)?;
        Ok(Self { data, header_size: header.header_size as usize })
    }

    /// Returns the underlying byte slice.
    pub fn as_bytes(&self) -> (r: &'a [u8])
        ensures
            r@ == self.bytes(),
    {
        self.data
    }

    /// Returns the JPEG configuration data.
    pub fn jpeg_data(&self) -> (r: &'a [u8])
        ensures
            r@ == spec_jpeg_data(self.bytes()),
    {
        proof { use_type_invariant(self); }
        vstd::slice::slice_subrange(self.data, self.header_size, self.data.len())
    }
}

impl<'a> JPEGConfigurationBox for JPEGConfigurationBoxView<'a> {
    fn box_size(&self) -> (r: u64)
        ensures
            r == self.bytes().len(),
    {
        self.data.len() as u64
    }

    fn box_type(&self) -> (r: BoxCode)
        ensures
            r == BOX_TYPE,
    {
        BOX_TYPE
    }

    fn jpeg_data(&self) -> (r: &[u8])
        ensures
            r@ == spec_jpeg_data(self.bytes()),
    {
        JPEGConfigurationBoxView::jpeg_data(self)
    }
}

/// An owned representation of JPEGConfigurationBox data.
#[derive(Clone, Debug, PartialEq, Eq)]
pub struct JPEGConfigurationBoxOwned {
    /// JPEG configuration data.
    pub jpeg_data: Vec<u8>,
}

impl JPEGConfigurationBoxOwned {
    /// The payload bytes.
    pub open spec fn spec_payload(&self) -> Seq<u8> {
        self.jpeg_data@
    }

    /// The serialized bytes of the box.
    pub open spec fn spec_bytes(&self) -> Seq<u8> {
        box_bytes(BOX_TYPE, self.spec_payload())
    }

    /// Creates a new JPEGConfigurationBoxOwned.
    pub fn new(jpeg_data: Vec<u8>) -> (r: Self)
        ensures
            r.jpeg_data@ == jpeg_data@,
    {
        Self { jpeg_data }
    }

    /// Returns the serialized size of the box.
    fn serialized_size(&self) -> (r: u64)
        ensures
            r == if box_fits(self.spec_payload().len() as int) {
                spec_box_size(self.spec_payload().len() as int)
            } else {
                0xffff_ffff_ffff_ffff
            },
    {
        crate::header::saturating_box_size(self.jpeg_data.len() as u64)
    }

    /// Writes the box to the given vector.
    pub fn write_to(&self, out: &mut Vec<u8>) -> (r: Result<(), WriteError>)
        ensures
            r is Ok <==> box_fits(self.spec_payload().len() as int),
            r is Ok ==> final(out)@ == old(out)@ + self.spec_bytes(),
            r is Err ==> final(out)@ == old(out)@,
    {
        begin_box(out, BOX_TYPE, self.jpeg_data.len() as u64)?;
        write_all(out, self.jpeg_data.as_slice());
        Ok(())
    }
}

impl Default for JPEGConfigurationBoxOwned {
    fn default() -> (r: Self)
        ensures
            r.jpeg_data@ == Seq::<u8>::empty(),
    {
        Self::new(Vec::new())
    }
}

impl JPEGConfigurationBox for JPEGConfigurationBoxOwned {
    fn box_size(&self) -> (r: u64)
        ensures
            r == if box_fits(self.spec_payload().len() as int) {
                spec_box_size(self.spec_payload().len() as int)
            } else {
                0xffff_ffff_ffff_ffff
            },
    {
        self.serialized_size()
    }

    fn box_type(&self) -> (r: BoxCode)
        ensures
            r == BOX_TYPE,
    {
        BOX_TYPE
    }

    fn jpeg_data(&self) -> (r: &[u8])
        ensures
            r@ == self.jpeg_data@,
    {
        self.jpeg_data.as_slice()
    }
}

impl JPEGConfigurationBoxOwned {
    /// Creates an owned copy of the box that `source` views.
    pub fn from(source: &JPEGConfigurationBoxView<'_>) -> (r: Self)
        ensures
            r.jpeg_data@ == spec_jpeg_data(source.bytes()),
    {
        let d = source.jpeg_data();
        Self { jpeg_data: copy_range(d, 0, d.len()) }
    }
}

/// Parsing the serialized bytes of an owned box succeeds and gives back its data.
pub proof fn lemma_roundtrip(o: &JPEGConfigurationBoxOwned)
    requires
        box_fits(o.spec_payload().len() as int),
    ensures
        spec_check(o.spec_bytes()) is Ok,
        spec_jpeg_data(o.spec_bytes()) == o.jpeg_data@,
{
    lemma_box_bytes_header(BOX_TYPE, o.spec_payload());
}

/// Writing the owned box that holds the data of the box `s` gives back `s`,
/// where `s` has a header that declares its whole length in the fewest bytes.
pub proof fn lemma_lossless(s: Seq<u8>, o: &JPEGConfigurationBoxOwned)
    requires
        spec_check(s) is Ok,
        canonical_header(s),
        o.jpeg_data@ == spec_jpeg_data(s),
    ensures
        o.spec_bytes() == s,
{
    lemma_box_bytes_of(s);
}

} // verus!
