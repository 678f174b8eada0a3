//! Media Data Box (mdat) parsing and serialization.
//!
//! The Media Data Box contains the actual media samples (audio, video, etc.).
//! This box can be very large and is often parsed lazily.
//!
//! ```text
//! aligned(8) class MediaDataBox extends Box('mdat') {
//!    bit(8) data[];
//! }
//! ```

use vstd::prelude::*;
use crate::bytes::write_all;
use crate::code::BoxCode;
use crate::container::{explicit_size, lemma_box_bytes_whole, whole_box};
use crate::error::{ParseError, WriteError};
use crate::header::{BoxHeader, begin_box, box_bytes, box_fits, lemma_box_roundtrip, payload_of, saturating_box_size, spec_check_box};

verus! {

broadcast use crate::bytes::group_bytes_len;

/// The box type identifier for MediaDataBox (`mdat`).
pub const BOX_TYPE: BoxCode = 0x6d64_6174;

/// The header of the MediaDataBox `s`, or why `s` is not one.
pub open spec fn spec_check(s: Seq<u8>) -> Result<BoxHeader, ParseError> {
    spec_check_box(s, BOX_TYPE, 0)
}

/// Common interface for accessing MediaDataBox data.
pub trait MediaDataBox {
    /// Returns the total size of the box in bytes.
    fn box_size(&self) -> u64;
    /// Returns the box type.
    fn box_type(&self) -> BoxCode;
    /// Returns the size of the media data (payload size).
    fn data_size(&self) -> u64;
    /// Returns the media data payload.
    fn media_data(&self) -> &[u8];
}

/// A borrowing view over raw MediaDataBox bytes.
///
/// Note: This view requires the entire mdat box data to be in memory.
/// For large files, consider using a streaming approach instead.
#[derive(Clone, Copy, Debug)]
pub struct MediaDataBoxView<'a> {
    data: &'a [u8],
    header: BoxHeader,
}

impl<'a> MediaDataBoxView<'a> {
    #[verifier::type_invariant]
    closed spec fn inv(&self) -> bool {
        spec_check(self.data@) == Ok::<BoxHeader, ParseError>(self.header)
    }

    /// The bytes of the box.
    pub closed spec fn spec_data(&self) -> Seq<u8> {
        self.data@
    }

    /// Creates a new view over the given bytes.
    pub fn new(data: &'a [u8]) -> (r: Result<Self, ParseError>)
        ensures
            match r {
                Ok(v) => v.spec_data() == data@ && spec_check(data@) is Ok,
                Err(e) => spec_check(data@) == Err::<BoxHeader, ParseError>(e),
            },
    {
        let header = BoxHeader::parse(data, data.len())?;
        header.validate(data, BOX_TYPE, 0)?;
        Ok(Self { data, header })
    }

    /// Returns the underlying byte slice.
    pub fn as_bytes(&self) -> (r: &'a [u8])
        ensures
            r@ == self.spec_data(),
    {
        self.data
    }

    /// Returns the media data payload.
    pub fn media_data(&self) -> (r: &'a [u8])
        ensures
            r@ == payload_of(self.spec_data()),
    {
        proof { use_type_invariant(self); }
        &self.data[self.header.header_size as usize..self.data.len()]
    }

    /// Returns the header size (8 or 16 bytes).
    pub fn header_size(&self) -> (r: usize)
        ensures
            r == self.spec_data().len() - payload_of(self.spec_data()).len(),
    {
        proof { use_type_invariant(self); }
        self.header.header_size as usize
    }
}

impl<'a> MediaDataBox for MediaDataBoxView<'a> {
    fn box_size(&self) -> (r: u64)
        ensures
            r == self.spec_data().len(),
    {
        proof { use_type_invariant(self); }
        self.header.size
    }

    fn box_type(&self) -> (r: BoxCode)
        ensures
            r == BOX_TYPE,
    {
        proof { use_type_invariant(self); }
        self.header.box_type
    }

    fn data_size(&self) -> (r: u64)
        ensures
            r == payload_of(self.spec_data()).len(),
    {
        proof { use_type_invariant(self); }
        self.header.size - self.header.header_size as u64
    }

    fn media_data(&self) -> (r: &[u8])
        ensures
            r@ == payload_of(self.spec_data()),
    {
        MediaDataBoxView::media_data(self)
    }
}

/// An owned representation of MediaDataBox data.
#[derive(Clone, Debug, PartialEq, Eq)]
pub struct MediaDataBoxOwned {
    /// The media data.
    pub data: Vec<u8>,
}

impl MediaDataBoxOwned {
    /// The serialized bytes of the box.
    pub open spec fn spec_bytes(&self) -> Seq<u8> {
        box_bytes(BOX_TYPE, self.data@)
    }

    /// The box fits in 64-bit size fields.
    pub open spec fn spec_fits(&self) -> bool {
        box_fits(self.data@.len() as int)
    }

    /// Creates a new empty MediaDataBoxOwned.
    pub fn new() -> (r: Self)
        ensures
            r.data@.len() == 0,
    {
        Self { data: Vec::new() }
    }

    /// Creates a MediaDataBoxOwned from raw media data.
    pub fn from_data(data: Vec<u8>) -> (r: Self)
        ensures
            r.data@ == data@,
    {
        Self { data }
    }

    /// Returns the serialized size of the box, or `u64::MAX` when it does not fit.
    fn serialized_size(&self) -> (r: u64)
        ensures
            r == if self.spec_fits() { self.spec_bytes().len() as int } else { 0xffff_ffff_ffff_ffff },
    {
        proof { if self.spec_fits() { lemma_box_roundtrip(BOX_TYPE, self.data@); } }
        saturating_box_size(self.data.len() as u64)
    }

    /// Writes the box to the given vector.
    pub fn write_to(&self, out: &mut Vec<u8>) -> (r: Result<(), WriteError>)
        ensures
            r is Ok <==> self.spec_fits(),
            r is Ok ==> final(out)@ == old(out)@ + self.spec_bytes(),
            r is Err ==> final(out)@ == old(out)@,
    {
        match begin_box(out, BOX_TYPE, self.data.len() as u64) {
            Ok(()) => {},
            Err(e) => {
                return Err(e);
            },
        }
        write_all(out, self.data.as_slice());
        Ok(())
    }

    /// Creates an owned copy of the box that `source` views.
    pub fn from(source: &MediaDataBoxView<'_>) -> (r: Self)
        ensures
            r.data@ == payload_of(source.spec_data()),
    {
        let mut data: Vec<u8> = Vec::new();
        write_all(&mut data, source.media_data());
        assert(data@ =~= payload_of(source.spec_data()));
        Self { data }
    }
}

impl Default for MediaDataBoxOwned {
    fn default() -> (r: Self)
        ensures
            r.data@.len() == 0,
    {
        Self::new()
    }
}

impl MediaDataBox for MediaDataBoxOwned {
    fn box_size(&self) -> (r: u64)
        ensures
            r == if self.spec_fits() { self.spec_bytes().len() as int } else { 0xffff_ffff_ffff_ffff },
    {
        self.serialized_size()
    }

    fn box_type(&self) -> (r: BoxCode)
        ensures
            r == BOX_TYPE,
    {
        BOX_TYPE
    }

    fn data_size(&self) -> (r: u64)
        ensures
            r == self.data@.len(),
    {
        self.data.len() as u64
    }

    fn media_data(&self) -> (r: &[u8])
        ensures
            r@ == self.data@,
    {
        self.data.as_slice()
    }
}

/// A reference to a MediaDataBox that stores only the header information.
///
/// This is useful for large files where you don't want to load the entire
/// mdat box into memory. The actual media data can be read from the file
/// using the offset and size information.
#[derive(Clone, Copy, Debug, PartialEq, Eq)]
pub struct MediaDataBoxRef {
    /// The offset of the mdat box in the file.
    pub file_offset: u64,
    /// The total size of the mdat box.
    pub box_size: u64,
    /// The size of the header (8 or 16 bytes).
    pub header_size: u8,
}

impl MediaDataBoxRef {
    /// Creates a new MediaDataBoxRef.
    pub fn new(file_offset: u64, box_size: u64, header_size: u8) -> (r: Self)
        ensures
            r.file_offset == file_offset,
            r.box_size == box_size,
            r.header_size == header_size,
    {
        Self { file_offset, box_size, header_size }
    }

    /// Returns the offset of the media data in the file.
    pub fn data_offset(&self) -> (r: u64)
        requires
            self.file_offset + self.header_size <= u64::MAX,
        ensures
            r == self.file_offset + self.header_size,
    {
        self.file_offset + self.header_size as u64
    }

    /// Returns the size of the media data.
    pub fn data_size(&self) -> (r: u64)
        ensures
            r == if self.box_size >= self.header_size { self.box_size - self.header_size } else { 0 },
    {
        self.box_size.saturating_sub(self.header_size as u64)
    }
}

/// Serializing an owned box gives a box that passes the checks and whose
/// payload is the media data.
pub proof fn lemma_roundtrip(o: &MediaDataBoxOwned)
    requires
        o.spec_fits(),
    ensures
        spec_check(o.spec_bytes()) is Ok,
        payload_of(o.spec_bytes()) == o.data@,
        whole_box(o.spec_bytes()),
        explicit_size(o.spec_bytes()),
{
    lemma_box_roundtrip(BOX_TYPE, o.data@);
    lemma_box_bytes_whole(BOX_TYPE, o.data@);
    assert(spec_check_box(o.spec_bytes(), BOX_TYPE, 0) is Ok);
}

} // verus!
