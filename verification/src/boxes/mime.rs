//! MIME Box (mime) parsing and serialization.
//!
//! The MIME Box contains the MIME type of the content.
//!
//! ```text
//! aligned(8) class MIMEBox()
//!    extends FullBox('mime', version = 0, 0) {
//!    utf8string content_type;
//! }
//! ```

use vstd::prelude::*;
use vstd::utf8::{decode_utf8, encode_utf8, encode_utf8_decode_utf8, encode_utf8_valid_utf8, valid_utf8};
use crate::bytes::{find_zero, first_zero, lemma_first_zero_at, read_u24, saturating_add, write_all, write_u8};
use crate::code::BoxCode;
use crate::error::{ParseError, WriteError};
use crate::header::{
    begin_fullbox, box_fits, flags_of, fullbox_bytes, header_len, lemma_fullbox_roundtrip,
    saturating_fullbox_size, spec_box_size, spec_check_fullbox, version_of, FullBoxHeader,
};
use crate::text::str_from_utf8;

verus! {

broadcast use crate::bytes::group_bytes_len;

/// The box type identifier for MIMEBox (`mime`).
pub const BOX_TYPE: BoxCode = 0x6d69_6d65;

/// The header of the MIMEBox `s`, or why `s` is not one.
pub open spec fn spec_check(s: Seq<u8>) -> Result<FullBoxHeader, ParseError> {
    spec_check_fullbox(s, BOX_TYPE, None, 0)
}

/// The content type bytes of the box `s`: up to the first zero byte, or to the
/// end of the box when there is none.
pub open spec fn spec_content_type(s: Seq<u8>) -> Seq<u8> {
    let start = header_len(s) + 4;
    if start < s.len() {
        match first_zero(s, start) {
            Some(p) => s.subrange(start, p),
            None => s.subrange(start, s.len() as int),
        }
    } else {
        Seq::empty()
    }
}

/// Common interface for accessing MIMEBox data.
pub trait MIMEBox {
    /// Returns the total size of the box in bytes.
    fn box_size(&self) -> u64;

    /// Returns the box type.
    fn box_type(&self) -> BoxCode;

    /// Returns the version of the box.
    fn version(&self) -> u8;

    /// Returns the flags.
    fn flags(&self) -> u32;

    /// Returns the content type as a string, if it is valid UTF-8.
    fn content_type_str(&self) -> Option<&str>;
}

/// A borrowing view over raw MIMEBox bytes.
#[derive(Clone, Copy, Debug)]
pub struct MIMEBoxView<'a> {
    data: &'a [u8],
    fullbox_offset: usize,
}

impl<'a> MIMEBoxView<'a> {
    #[verifier::type_invariant]
    closed spec fn inv(&self) -> bool {
        &&& spec_check(self.data@) is Ok
        &&& self.fullbox_offset == header_len(self.data@)
    }

    /// The bytes of the box.
    pub closed spec fn spec_data(&self) -> Seq<u8> {
        self.data@
    }

    /// Creates a new view over the given bytes.
    pub fn new(data: &'a [u8]) -> (r: Result<Self, ParseError>)
        ensures
            match r {
                Ok(v) => v.spec_data() == data@ && spec_check(data@) is Ok,
                Err(e) => spec_check(data@) == Err::<FullBoxHeader, ParseError>(e),
            },
    {
        let header = FullBoxHeader::parse(data, data.len())?;
        let fullbox_offset = header.validate(data, BOX_TYPE, None, 0)?;
        Ok(Self { data, fullbox_offset })
    }

    /// Returns the underlying byte slice.
    pub fn as_bytes(&self) -> (r: &'a [u8])
        ensures
            r@ == self.spec_data(),
    {
        self.data
    }

    /// Returns the content type bytes (the data is null-terminated).
    pub fn content_type(&self) -> (r: &'a [u8])
        ensures
            r@ == spec_content_type(self.spec_data()),
    {
        proof { use_type_invariant(self); }
        let start = self.fullbox_offset + 4;
        if start < self.data.len() {
            // Find null terminator
            match find_zero(self.data, start) {
                Some(pos) => vstd::slice::slice_subrange(self.data, start, pos),
                None => vstd::slice::slice_subrange(self.data, start, self.data.len()),
            }
        } else {
            &[]
        }
    }

    /// Returns the content type as a string, if it is valid UTF-8.
    pub fn content_type_str(&self) -> (r: Option<&'a str>)
        ensures
            r is Some <==> valid_utf8(spec_content_type(self.spec_data())),
            r matches Some(t) ==> t@ == decode_utf8(spec_content_type(self.spec_data())),
    {
        str_from_utf8(self.content_type())
    }
}

impl<'a> MIMEBox for MIMEBoxView<'a> {
    fn box_size(&self) -> (r: u64)
        ensures
            r == self.spec_data().len(),
    {
        self.data.len() as u64
    }

    fn box_type(&self) -> (r: BoxCode)
        ensures
            r == BOX_TYPE,
    {
        BOX_TYPE
    }

    fn version(&self) -> (r: u8)
        ensures
            r == version_of(self.spec_data()),
    {
        proof { use_type_invariant(self); }
        self.data[self.fullbox_offset]
    }

    fn flags(&self) -> (r: u32)
        ensures
            r == flags_of(self.spec_data()),
    {
        proof { use_type_invariant(self); }
        read_u24(self.data, self.fullbox_offset + 1)
    }

    fn content_type_str(&self) -> (r: Option<&str>)
        ensures
            r is Some <==> valid_utf8(spec_content_type(self.spec_data())),
            r matches Some(t) ==> t@ == decode_utf8(spec_content_type(self.spec_data())),
    {
        MIMEBoxView::content_type_str(self)
    }
}

/// An owned representation of MIMEBox data.
#[derive(Clone, Debug, PartialEq, Eq)]
pub struct MIMEBoxOwned {
    /// Flags.
    pub flags: u32,
    /// Content type (without null terminator).
    pub content_type: String,
}

impl MIMEBoxOwned {
    /// The payload bytes after version and flags: the UTF-8 content type and its terminator.
    pub open spec fn spec_payload(&self) -> Seq<u8> {
        encode_utf8(self.content_type@) + seq![0u8]
    }

    /// The serialized bytes of the box.
    pub open spec fn spec_bytes(&self) -> Seq<u8> {
        fullbox_bytes(BOX_TYPE, 0, self.flags, self.spec_payload())
    }

    /// The box fits in 64-bit size fields.
    pub open spec fn spec_fits(&self) -> bool {
        box_fits(self.spec_payload().len() + 4 as int)
    }

    /// Creates a new MIMEBoxOwned.
    pub fn new(content_type: String) -> (r: Self)
        ensures
            r.flags == 0,
            r.content_type@ == content_type@,
    {
        Self { flags: 0, content_type }
    }

    /// Returns the serialized size of the box, or `u64::MAX` when it does not fit.
    fn serialized_size(&self) -> (r: u64)
        ensures
            r == if self.spec_fits() { spec_box_size(self.spec_payload().len() + 4 as int) } else { 0xffff_ffff_ffff_ffff },
    {
        let bytes = self.content_type.as_str().as_bytes();
        saturating_fullbox_size(saturating_add(bytes.len() as u64, 1))
    }

    /// Writes the box to the given vector.
    pub fn write_to(&self, out: &mut Vec<u8>) -> (r: Result<(), WriteError>)
        ensures
            r is Ok <==> self.spec_fits(),
            r is Ok ==> final(out)@ == old(out)@ + self.spec_bytes(),
            r is Err ==> final(out)@ == old(out)@,
    {
        let bytes = self.content_type.as_str().as_bytes();
        match begin_fullbox(out, BOX_TYPE, 0, self.flags, saturating_add(bytes.len() as u64, 1)) {
            Ok(()) => {},
            Err(e) => return Err(e),
        }
        let ghost ck = out@;
        write_all(out, bytes);
        write_u8(out, 0); // null terminator
        assert(out@ =~= ck + self.spec_payload());
        Ok(())
    }

    /// Creates an owned copy of the box that `source` views; fails when its
    /// content type is not valid UTF-8.
    pub fn try_from(source: &MIMEBoxView<'_>) -> (r: Result<Self, ParseError>)
        ensures
            r is Ok <==> valid_utf8(spec_content_type(source.spec_data())),
            r matches Ok(o) ==> o.flags == flags_of(source.spec_data())
                && o.content_type@ == decode_utf8(spec_content_type(source.spec_data())),
            r matches Err(e) ==> e == (ParseError::InvalidStringEncoding { context: "content_type" }),
    {
        let content_type = match source.content_type_str() {
            Some(t) => t.to_owned(),
            None => return Err(ParseError::InvalidStringEncoding { context: "content_type" }),
        };
        Ok(Self { flags: source.flags(), content_type })
    }
}

impl MIMEBox for MIMEBoxOwned {
    fn box_size(&self) -> (r: u64)
        ensures
            r == if self.spec_fits() { self.spec_bytes().len() as int } else { 0xffff_ffff_ffff_ffff },
    {
        proof { if self.spec_fits() { lemma_fullbox_roundtrip(BOX_TYPE, 0, self.flags, self.spec_payload()); } }
        self.serialized_size()
    }

    fn box_type(&self) -> (r: BoxCode)
        ensures
            r == BOX_TYPE,
    {
        BOX_TYPE
    }

    fn version(&self) -> (r: u8)
        ensures
            r == 0,
    {
        0
    }

    fn flags(&self) -> (r: u32)
        ensures
            r == self.flags,
    {
        self.flags
    }

    fn content_type_str(&self) -> (r: Option<&str>)
        ensures
            r matches Some(t) && t@ == self.content_type@,
    {
        Some(self.content_type.as_str())
    }
}

/// Parsing the serialized bytes of an owned box whose content type encodes
/// without a zero byte succeeds and reads back its flags and content type.
pub proof fn lemma_roundtrip(o: &MIMEBoxOwned)
    requires
        o.spec_fits(),
        forall|i: int| 0 <= i < encode_utf8(o.content_type@).len() ==> encode_utf8(o.content_type@)[i] != 0,
    ensures
        spec_check(o.spec_bytes()) is Ok,
        flags_of(o.spec_bytes()) == o.flags % 0x100_0000,
        spec_content_type(o.spec_bytes()) == encode_utf8(o.content_type@),
        valid_utf8(spec_content_type(o.spec_bytes())),
        decode_utf8(spec_content_type(o.spec_bytes())) == o.content_type@,
{
    let s = o.spec_bytes();
    let p = o.spec_payload();
    let c = encode_utf8(o.content_type@);
    lemma_fullbox_roundtrip(BOX_TYPE, 0, o.flags, p);
    let base = header_len(s) + 4;
    let n = c.len() as int;
    assert(s.subrange(base, s.len() as int) == p);
    assert forall|i: int| 0 <= i < p.len() implies s[base + i] == p[i] by {
        assert(s.subrange(base, s.len() as int)[i] == p[i]);
    }
    assert(s[base + n] == p[n]);
    assert(forall|i: int| base <= i < base + n ==> s[i] == p[i - base]);
    lemma_first_zero_at(s, base, base + n);
    assert(spec_content_type(s) =~= c);
    encode_utf8_valid_utf8(o.content_type@);
    encode_utf8_decode_utf8(o.content_type@);
}

} // verus!
