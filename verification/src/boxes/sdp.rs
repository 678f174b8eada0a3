//! RTP Track SDP Hint Information Box (sdp ) parsing and serialization.
//!
//! ```text
//! aligned(8) class rtptracksdphintinformation extends Box('sdp ') {
//!    char sdptext[];
//! }
//! ```

use vstd::prelude::*;
use vstd::utf8::{decode_utf8, encode_utf8, encode_utf8_decode_utf8, encode_utf8_valid_utf8, valid_utf8};
use crate::bytes::write_all;
use crate::code::BoxCode;
use crate::error::{ParseError, WriteError};
use crate::header::{
    begin_box, box_bytes, box_fits, header_len, lemma_box_roundtrip, payload_of, saturating_box_size,
    spec_box_size, spec_check_box, BoxHeader,
};
use crate::text::str_from_utf8;

verus! {

broadcast use crate::bytes::group_bytes_len;

/// The box type identifier for SDPBox (`sdp `).
pub const BOX_TYPE: BoxCode = 0x7364_7020;

/// The header of the SDPBox `s`, or why `s` is not one.
pub open spec fn spec_check(s: Seq<u8>) -> Result<BoxHeader, ParseError> {
    spec_check_box(s, BOX_TYPE, 0)
}

/// Common interface for accessing SDPBox data.
pub trait SDPBox {
    /// Returns the total size of the box in bytes.
    fn box_size(&self) -> u64;

    /// Returns the box type.
    fn box_type(&self) -> BoxCode;

    /// Returns the SDP text as a string, if it is valid UTF-8.
    fn sdp_text_str(&self) -> Option<&str>;
}

/// A borrowing view over raw SDPBox bytes.
#[derive(Clone, Copy, Debug)]
pub struct SDPBoxView<'a> {
    data: &'a [u8],
    header_size: usize,
}

impl<'a> SDPBoxView<'a> {
    #[verifier::type_invariant]
    closed spec fn inv(&self) -> bool {
        &&& spec_check(self.data@) is Ok
        &&& self.header_size == header_len(self.data@)
    }

    /// The bytes of the box.
    pub closed spec fn spec_data(&self) -> Seq<u8> {
        self.data@
    }

    /// Creates a new view over the given bytes.
    pub fn new(data: &'a [u8]) -> (r: Result<Self, ParseError>)
        ensures
            match r {
                Ok(v) => v.spec_data() == data@ && spec_check(data@) is Ok,
                Err(e) => spec_check(data@) == Err::<BoxHeader, ParseError>(e),
            },
    {
        let header = BoxHeader::parse(data, data.len())?;
        header.validate(data, BOX_TYPE, 0)?;
        Ok(Self { data, header_size: header.header_size as usize })
    }

    /// Returns the underlying byte slice.
    pub fn as_bytes(&self) -> (r: &'a [u8])
        ensures
            r@ == self.spec_data(),
    {
        self.data
    }

    /// Returns the raw SDP text bytes.
    pub fn sdp_text(&self) -> (r: &'a [u8])
        ensures
            r@ == payload_of(self.spec_data()),
    {
        proof { use_type_invariant(self); }
        vstd::slice::slice_subrange(self.data, self.header_size, self.data.len())
    }

    /// Returns the SDP text as a string, if it is valid UTF-8.
    pub fn sdp_text_str(&self) -> (r: Option<&'a str>)
        ensures
            r is Some <==> valid_utf8(payload_of(self.spec_data())),
            r matches Some(t) ==> t@ == decode_utf8(payload_of(self.spec_data())),
    {
        str_from_utf8(self.sdp_text())
    }
}

impl<'a> SDPBox for SDPBoxView<'a> {
    fn box_size(&self) -> (r: u64)
        ensures
            r == self.spec_data().len(),
    {
        self.data.len() as u64
    }

    fn box_type(&self) -> (r: BoxCode)
        ensures
            r == BOX_TYPE,
    {
        BOX_TYPE
    }

    fn sdp_text_str(&self) -> (r: Option<&str>)
        ensures
            r is Some <==> valid_utf8(payload_of(self.spec_data())),
            r matches Some(t) ==> t@ == decode_utf8(payload_of(self.spec_data())),
    {
        SDPBoxView::sdp_text_str(self)
    }
}

/// An owned representation of SDPBox data.
#[derive(Clone, Debug, PartialEq, Eq)]
pub struct SDPBoxOwned {
    /// SDP text.
    pub sdp_text: String,
}

impl SDPBoxOwned {
    /// The payload bytes: the UTF-8 encoding of the text.
    pub open spec fn spec_payload(&self) -> Seq<u8> {
        encode_utf8(self.sdp_text@)
    }

    /// The serialized bytes of the box.
    pub open spec fn spec_bytes(&self) -> Seq<u8> {
        box_bytes(BOX_TYPE, self.spec_payload())
    }

    /// The box fits in 64-bit size fields.
    pub open spec fn spec_fits(&self) -> bool {
        box_fits(self.spec_payload().len() as int)
    }

    /// Creates a new SDPBoxOwned.
    pub fn new(sdp_text: String) -> (r: Self)
        ensures
            r.sdp_text@ == sdp_text@,
    {
        Self { sdp_text }
    }

    /// Returns the serialized size of the box, or `u64::MAX` when it does not fit.
    fn serialized_size(&self) -> (r: u64)
        ensures
            r == if self.spec_fits() { spec_box_size(self.spec_payload().len() as int) } else { 0xffff_ffff_ffff_ffff },
    {
        saturating_box_size(self.sdp_text.as_str().as_bytes().len() as u64)
    }

    /// Writes the box to the given vector.
    pub fn write_to(&self, out: &mut Vec<u8>) -> (r: Result<(), WriteError>)
        ensures
            r is Ok <==> self.spec_fits(),
            r is Ok ==> final(out)@ == old(out)@ + self.spec_bytes(),
            r is Err ==> final(out)@ == old(out)@,
    {
        let bytes = self.sdp_text.as_str().as_bytes();
        match begin_box(out, BOX_TYPE, bytes.len() as u64) {
            Ok(()) => {},
            Err(e) => return Err(e),
        }
        write_all(out, bytes);
        Ok(())
    }

    /// Creates an owned copy of the box that `source` views; fails when its
    /// text is not valid UTF-8.
    pub fn try_from(source: &SDPBoxView<'_>) -> (r: Result<Self, ParseError>)
        ensures
            r is Ok <==> valid_utf8(payload_of(source.spec_data())),
            r matches Ok(o) ==> o.sdp_text@ == decode_utf8(payload_of(source.spec_data())),
            r matches Err(e) ==> e == (ParseError::InvalidStringEncoding { context: "sdp_text" }),
    {
        let sdp_text = match source.sdp_text_str() {
            Some(t) => t.to_owned(),
            None => return Err(ParseError::InvalidStringEncoding { context: "sdp_text" }),
        };
        Ok(Self { sdp_text })
    }
}

impl Default for SDPBoxOwned {
    fn default() -> (r: Self)
        ensures
            r.sdp_text@ == Seq::<char>::empty(),
    {
        Self::new(String::new())
    }
}

impl SDPBox for SDPBoxOwned {
    fn box_size(&self) -> (r: u64)
        ensures
            r == if self.spec_fits() { self.spec_bytes().len() as int } else { 0xffff_ffff_ffff_ffff },
    {
        proof { if self.spec_fits() { lemma_box_roundtrip(BOX_TYPE, self.spec_payload()); } }
        self.serialized_size()
    }

    fn box_type(&self) -> (r: BoxCode)
        ensures
            r == BOX_TYPE,
    {
        BOX_TYPE
    }

    fn sdp_text_str(&self) -> (r: Option<&str>)
        ensures
            r matches Some(t) && t@ == self.sdp_text@,
    {
        Some(self.sdp_text.as_str())
    }
}

/// Parsing the serialized bytes of an owned box succeeds and reads back its text.
pub proof fn lemma_roundtrip(o: &SDPBoxOwned)
    requires
        o.spec_fits(),
    ensures
        spec_check(o.spec_bytes()) is Ok,
        payload_of(o.spec_bytes()) == encode_utf8(o.sdp_text@),
        valid_utf8(payload_of(o.spec_bytes())),
        decode_utf8(payload_of(o.spec_bytes())) == o.sdp_text@,
{
    lemma_box_roundtrip(BOX_TYPE, o.spec_payload());
    encode_utf8_valid_utf8(o.sdp_text@);
    encode_utf8_decode_utf8(o.sdp_text@);
}

} // verus!
