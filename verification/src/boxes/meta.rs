//! Metadata Box (meta) parsing and serialization.
//!
//! The Metadata Box contains metadata for the presentation.
//! Note: meta is a FullBox container, unlike most container boxes.
//!
//! ```text
//! aligned(8) class MetaBox (handler_type)
//!    extends FullBox('meta', version = 0, 0) {
//!    HandlerBox(handler_type) theHandler;
//!    PrimaryItemBox primary_resource; // optional
//!    DataInformationBox file_locations; // optional
//!    ItemLocationBox item_locations; // optional
//!    ItemProtectionBox protections; // optional
//!    ItemInfoBox item_infos; // optional
//!    IPMPControlBox IPMP_control; // optional
//!    ItemReferenceBox item_refs; // optional
//!    ItemDataBox item_data; // optional
//!    Box other_boxes[]; // optional
//! }
//! ```

use vstd::prelude::*;
use crate::bytes::saturating_add;
use crate::code::BoxCode;
use crate::container::{BoxIterator, OpaqueBoxOwned, RawBox, box_type_of, explicit_size, first_of_type, lemma_box_bytes_whole, lemma_children_of_flatten, lemma_fullbox_bytes_whole, spec_children, whole_box};
use crate::error::{ParseError, WriteError};
use crate::header::{FullBoxHeader, begin_fullbox, box_fits, flags_of, fullbox_bytes, fullbox_payload_of, header_len, lemma_fullbox_roundtrip, saturating_fullbox_size, spec_check_fullbox, spec_parse_fullbox_header, version_of};
use crate::bytes::read_u24;
use crate::boxes::pitm::{self, PrimaryItemBox, PrimaryItemBoxOwned, PrimaryItemBoxView};

verus! {

broadcast use crate::bytes::group_bytes_len;

/// The box type identifier for MetadataBox (`meta`).
pub const BOX_TYPE: BoxCode = 0x6d65_7461;

/// The box type of a HandlerReferenceBox child (`hdlr`), which this library keeps as raw bytes.
pub const HDLR_TYPE: BoxCode = 0x6864_6c72;

/// The box type of a DataInformationBox child (`dinf`), which this library keeps as raw bytes.
pub const DINF_TYPE: BoxCode = 0x6469_6e66;

/// The box type of a ItemLocationBox child (`iloc`), which this library keeps as raw bytes.
pub const ILOC_TYPE: BoxCode = 0x696c_6f63;

/// The box type of a ItemProtectionBox child (`ipro`), which this library keeps as raw bytes.
pub const IPRO_TYPE: BoxCode = 0x6970_726f;

/// The box type of a ItemInfoBox child (`iinf`), which this library keeps as raw bytes.
pub const IINF_TYPE: BoxCode = 0x6969_6e66;

/// The box type of a ItemReferenceBox child (`iref`), which this library keeps as raw bytes.
pub const IREF_TYPE: BoxCode = 0x6972_6566;

/// The box type of a ItemPropertiesBox child (`iprp`), which this library keeps as raw bytes.
pub const IPRP_TYPE: BoxCode = 0x6970_7270;

/// The box type of a ItemDataBox child (`idat`), which this library keeps as raw bytes.
pub const IDAT_TYPE: BoxCode = 0x6964_6174;

/// The box type of a BinaryXmlBox child (`bxml`), which this library keeps as raw bytes.
pub const BXML_TYPE: BoxCode = 0x6278_6d6c;

/// The box type of a XmlBox child (`xml `), which this library keeps as raw bytes.
pub const XML_TYPE: BoxCode = 0x786d_6c20;

/// The header of the MetadataBox `s`, or why `s` is not one.
pub open spec fn spec_check(s: Seq<u8>) -> Result<FullBoxHeader, ParseError> {
    spec_check_fullbox(s, BOX_TYPE, None, 0)
}

/// The payload of the box `s` that holds its child boxes.
pub open spec fn spec_payload_of(s: Seq<u8>) -> Seq<u8> {
    fullbox_payload_of(s)
}

/// A typed child of a MetadataBox.
#[derive(Clone, Debug, PartialEq, Eq)]
pub enum MetadataChild {
    /// A HandlerReferenceBox child.
    Hdlr(OpaqueBoxOwned),
    /// A DataInformationBox child.
    Dinf(OpaqueBoxOwned),
    /// An ItemLocationBox child.
    Iloc(OpaqueBoxOwned),
    /// An ItemProtectionBox child.
    Ipro(OpaqueBoxOwned),
    /// An ItemInfoBox child.
    Iinf(OpaqueBoxOwned),
    /// An ItemReferenceBox child.
    Iref(OpaqueBoxOwned),
    /// An ItemPropertiesBox child.
    Iprp(OpaqueBoxOwned),
    /// An ItemDataBox child.
    Idat(OpaqueBoxOwned),
    /// A PrimaryItemBox child.
    Pitm(PrimaryItemBoxOwned),
    /// A BinaryXmlBox child.
    Bxml(OpaqueBoxOwned),
    /// A XmlBox child.
    Xml(OpaqueBoxOwned),
    /// An unknown or unrecognized child box.
    Other(OpaqueBoxOwned),
}

impl MetadataChild {
    /// The serialized bytes of the child.
    pub open spec fn spec_bytes(&self) -> Seq<u8> {
        match self {
            Self::Hdlr(b) => b.spec_data(),
            Self::Dinf(b) => b.spec_data(),
            Self::Iloc(b) => b.spec_data(),
            Self::Ipro(b) => b.spec_data(),
            Self::Iinf(b) => b.spec_data(),
            Self::Iref(b) => b.spec_data(),
            Self::Iprp(b) => b.spec_data(),
            Self::Idat(b) => b.spec_data(),
            Self::Pitm(b) => b.spec_bytes(),
            Self::Bxml(b) => b.spec_data(),
            Self::Xml(b) => b.spec_data(),
            Self::Other(o) => o.spec_data(),
        }
    }

    /// The child can be serialized: its size fits in 64 bits.
    pub open spec fn spec_fits(&self) -> bool {
        true
    }

    /// Every box the child holds as raw bytes is a whole box with an explicit size.
    pub open spec fn spec_valid(&self) -> bool {
        match self {
            Self::Hdlr(o) => whole_box(o.spec_data()) && explicit_size(o.spec_data()),
            Self::Dinf(o) => whole_box(o.spec_data()) && explicit_size(o.spec_data()),
            Self::Iloc(o) => whole_box(o.spec_data()) && explicit_size(o.spec_data()),
            Self::Ipro(o) => whole_box(o.spec_data()) && explicit_size(o.spec_data()),
            Self::Iinf(o) => whole_box(o.spec_data()) && explicit_size(o.spec_data()),
            Self::Iref(o) => whole_box(o.spec_data()) && explicit_size(o.spec_data()),
            Self::Iprp(o) => whole_box(o.spec_data()) && explicit_size(o.spec_data()),
            Self::Idat(o) => whole_box(o.spec_data()) && explicit_size(o.spec_data()),
            Self::Bxml(o) => whole_box(o.spec_data()) && explicit_size(o.spec_data()),
            Self::Xml(o) => whole_box(o.spec_data()) && explicit_size(o.spec_data()),
            Self::Other(o) => whole_box(o.spec_data()) && explicit_size(o.spec_data()),
            _ => true,
        }
    }

    /// The box type of the child.
    pub open spec fn spec_box_type(&self) -> BoxCode {
        match self {
            Self::Hdlr(b) => box_type_of(b.spec_data()),
            Self::Dinf(b) => box_type_of(b.spec_data()),
            Self::Iloc(b) => box_type_of(b.spec_data()),
            Self::Ipro(b) => box_type_of(b.spec_data()),
            Self::Iinf(b) => box_type_of(b.spec_data()),
            Self::Iref(b) => box_type_of(b.spec_data()),
            Self::Iprp(b) => box_type_of(b.spec_data()),
            Self::Idat(b) => box_type_of(b.spec_data()),
            Self::Pitm(b) => pitm::BOX_TYPE,
            Self::Bxml(b) => box_type_of(b.spec_data()),
            Self::Xml(b) => box_type_of(b.spec_data()),
            Self::Other(o) => box_type_of(o.spec_data()),
        }
    }

    /// The child is what reading the child box `c` gives: the typed box where
    /// `c` has a known type and parses as it, else `c` itself as raw bytes.
    pub open spec fn spec_reads(&self, c: Seq<u8>) -> bool {
        match self {
            Self::Hdlr(o) => box_type_of(c) == HDLR_TYPE && o.spec_data() == c,
            Self::Dinf(o) => box_type_of(c) == DINF_TYPE && o.spec_data() == c,
            Self::Iloc(o) => box_type_of(c) == ILOC_TYPE && o.spec_data() == c,
            Self::Ipro(o) => box_type_of(c) == IPRO_TYPE && o.spec_data() == c,
            Self::Iinf(o) => box_type_of(c) == IINF_TYPE && o.spec_data() == c,
            Self::Iref(o) => box_type_of(c) == IREF_TYPE && o.spec_data() == c,
            Self::Iprp(o) => box_type_of(c) == IPRP_TYPE && o.spec_data() == c,
            Self::Idat(o) => box_type_of(c) == IDAT_TYPE && o.spec_data() == c,
            Self::Pitm(b) => box_type_of(c) == pitm::BOX_TYPE && pitm::spec_check(c) is Ok && pitm::spec_reads(b, c),
            Self::Bxml(o) => box_type_of(c) == BXML_TYPE && o.spec_data() == c,
            Self::Xml(o) => box_type_of(c) == XML_TYPE && o.spec_data() == c,
            Self::Other(o) => o.spec_data() == c
                && box_type_of(c) != HDLR_TYPE
                && box_type_of(c) != DINF_TYPE
                && box_type_of(c) != ILOC_TYPE
                && box_type_of(c) != IPRO_TYPE
                && box_type_of(c) != IINF_TYPE
                && box_type_of(c) != IREF_TYPE
                && box_type_of(c) != IPRP_TYPE
                && box_type_of(c) != IDAT_TYPE
                && !(box_type_of(c) == pitm::BOX_TYPE && pitm::spec_check(c) is Ok)
                && box_type_of(c) != BXML_TYPE
                && box_type_of(c) != XML_TYPE,
        }
    }

    /// Returns the box type.
    pub fn box_type(&self) -> (r: BoxCode)
        ensures
            r == self.spec_box_type(),
    {
        match self {
            Self::Hdlr(b) => b.box_type(),
            Self::Dinf(b) => b.box_type(),
            Self::Iloc(b) => b.box_type(),
            Self::Ipro(b) => b.box_type(),
            Self::Iinf(b) => b.box_type(),
            Self::Iref(b) => b.box_type(),
            Self::Iprp(b) => b.box_type(),
            Self::Idat(b) => b.box_type(),
            Self::Pitm(b) => pitm::BOX_TYPE,
            Self::Bxml(b) => b.box_type(),
            Self::Xml(b) => b.box_type(),
            Self::Other(o) => o.box_type(),
        }
    }

    /// Returns the serialized size of the child, or `u64::MAX` when it does not fit in 64 bits.
    pub fn box_size(&self) -> (r: u64)
        ensures
            r == if self.spec_fits() { self.spec_bytes().len() as int } else { 0xffff_ffff_ffff_ffff },
    {
        match self {
            Self::Hdlr(b) => b.box_size(),
            Self::Dinf(b) => b.box_size(),
            Self::Iloc(b) => b.box_size(),
            Self::Ipro(b) => b.box_size(),
            Self::Iinf(b) => b.box_size(),
            Self::Iref(b) => b.box_size(),
            Self::Iprp(b) => b.box_size(),
            Self::Idat(b) => b.box_size(),
            Self::Pitm(b) => b.box_size(),
            Self::Bxml(b) => b.box_size(),
            Self::Xml(b) => b.box_size(),
            Self::Other(o) => o.box_size(),
        }
    }

    /// Writes this child box to the given vector.
    pub fn write_to(&self, out: &mut Vec<u8>) -> (r: Result<(), WriteError>)
        ensures
            r is Ok <==> self.spec_fits(),
            r is Ok ==> final(out)@ == old(out)@ + self.spec_bytes(),
            r is Err ==> final(out)@ == old(out)@,
    {
        match self {
            Self::Hdlr(b) => {
                b.write_to(out);
                Ok(())
            },
            Self::Dinf(b) => {
                b.write_to(out);
                Ok(())
            },
            Self::Iloc(b) => {
                b.write_to(out);
                Ok(())
            },
            Self::Ipro(b) => {
                b.write_to(out);
                Ok(())
            },
            Self::Iinf(b) => {
                b.write_to(out);
                Ok(())
            },
            Self::Iref(b) => {
                b.write_to(out);
                Ok(())
            },
            Self::Iprp(b) => {
                b.write_to(out);
                Ok(())
            },
            Self::Idat(b) => {
                b.write_to(out);
                Ok(())
            },
            Self::Pitm(b) => b.write_to(out),
            Self::Bxml(b) => {
                b.write_to(out);
                Ok(())
            },
            Self::Xml(b) => {
                b.write_to(out);
                Ok(())
            },
            Self::Other(o) => {
                o.write_to(out);
                Ok(())
            },
        }
    }

    /// Reads the child box `raw`: as its typed box where its type is known
    /// and it parses as that type, else as raw bytes.
    pub fn from_raw(raw: &RawBox<'_>) -> (r: Self)
        ensures
            r.spec_reads(raw.spec_data()),
    {
        let t = raw.box_type();
        if t == HDLR_TYPE {
            Self::Hdlr(OpaqueBoxOwned::from_raw_box(raw))
        } else if t == DINF_TYPE {
            Self::Dinf(OpaqueBoxOwned::from_raw_box(raw))
        } else if t == ILOC_TYPE {
            Self::Iloc(OpaqueBoxOwned::from_raw_box(raw))
        } else if t == IPRO_TYPE {
            Self::Ipro(OpaqueBoxOwned::from_raw_box(raw))
        } else if t == IINF_TYPE {
            Self::Iinf(OpaqueBoxOwned::from_raw_box(raw))
        } else if t == IREF_TYPE {
            Self::Iref(OpaqueBoxOwned::from_raw_box(raw))
        } else if t == IPRP_TYPE {
            Self::Iprp(OpaqueBoxOwned::from_raw_box(raw))
        } else if t == IDAT_TYPE {
            Self::Idat(OpaqueBoxOwned::from_raw_box(raw))
        } else if t == pitm::BOX_TYPE {
            match PrimaryItemBoxView::new(raw.data()) {
                Ok(v) => Self::Pitm(PrimaryItemBoxOwned::from(&v)),
                Err(_) => Self::Other(OpaqueBoxOwned::from_raw_box(raw)),
            }
        } else if t == BXML_TYPE {
            Self::Bxml(OpaqueBoxOwned::from_raw_box(raw))
        } else if t == XML_TYPE {
            Self::Xml(OpaqueBoxOwned::from_raw_box(raw))
        } else {
            Self::Other(OpaqueBoxOwned::from_raw_box(raw))
        }
    }

    /// A child that fits and is valid serializes to one whole box with an explicit size.
    pub proof fn lemma_whole(&self)
        requires
            self.spec_fits(),
            self.spec_valid(),
        ensures
            whole_box(self.spec_bytes()),
            explicit_size(self.spec_bytes()),
    {
        match self {
            Self::Pitm(b) => { pitm::lemma_roundtrip(b); },
            _ => {},
        }
    }
}

/// Common interface for accessing MetadataBox data.
pub trait MetadataBox {
    /// Returns the total size of the box in bytes.
    fn box_size(&self) -> u64;

    /// Returns the box type.
    fn box_type(&self) -> BoxCode;

    /// Returns the version of the box.
    fn version(&self) -> u8;

    /// Returns the flags.
    fn flags(&self) -> u32;
}

/// A borrowing view over raw MetadataBox bytes.
#[derive(Clone, Copy, Debug)]
pub struct MetadataBoxView<'a> {
    data: &'a [u8],
    fullbox_offset: usize,
}

impl<'a> MetadataBoxView<'a> {
    #[verifier::type_invariant]
    closed spec fn inv(&self) -> bool {
        &&& spec_check(self.data@) is Ok
        &&& self.fullbox_offset == header_len(self.data@)
    }

    /// The bytes of the box.
    pub closed spec fn spec_data(&self) -> Seq<u8> {
        self.data@
    }

    /// The child boxes of the box, each as its bytes.
    pub open spec fn spec_child_boxes(&self) -> Seq<Seq<u8>> {
        spec_children(spec_payload_of(self.spec_data()))
    }

    /// Creates a new view over the given bytes.
    pub fn new(data: &'a [u8]) -> (r: Result<Self, ParseError>)
        ensures
            match r {
                Ok(v) => v.spec_data() == data@ && spec_check(data@) is Ok,
                Err(e) => spec_check(data@) == Err::<FullBoxHeader, ParseError>(e),
            },
    {
        let header = FullBoxHeader::parse(data, data.len())?;
        let fullbox_offset = header.validate(data, BOX_TYPE, None, 0)?;
        Ok(Self { data, fullbox_offset })
    }

    /// Returns the underlying byte slice.
    pub fn as_bytes(&self) -> (r: &'a [u8])
        ensures
            r@ == self.spec_data(),
    {
        self.data
    }

    /// Returns an iterator over child boxes.
    pub fn children(&self) -> (r: BoxIterator<'a>)
        ensures
            r.remaining() == self.spec_child_boxes(),
    {
        proof { use_type_invariant(self); }
        BoxIterator::new(&self.data[self.fullbox_offset + 4..self.data.len()])
    }

    /// Returns the first HandlerReferenceBox child, if present, kept as a raw box.
    pub fn hdlr(&self) -> (r: Option<RawBox<'a>>)
        ensures
            match r {
                Some(b) => first_of_type(self.spec_child_boxes(), HDLR_TYPE) == Some(b.spec_data()),
                None => first_of_type(self.spec_child_boxes(), HDLR_TYPE) is None,
            },
    {
        self.children().find_type(HDLR_TYPE)
    }

    /// Returns the first DataInformationBox child, if present, kept as a raw box.
    pub fn dinf(&self) -> (r: Option<RawBox<'a>>)
        ensures
            match r {
                Some(b) => first_of_type(self.spec_child_boxes(), DINF_TYPE) == Some(b.spec_data()),
                None => first_of_type(self.spec_child_boxes(), DINF_TYPE) is None,
            },
    {
        self.children().find_type(DINF_TYPE)
    }

    /// Returns the first ItemLocationBox child, if present, kept as a raw box.
    pub fn iloc(&self) -> (r: Option<RawBox<'a>>)
        ensures
            match r {
                Some(b) => first_of_type(self.spec_child_boxes(), ILOC_TYPE) == Some(b.spec_data()),
                None => first_of_type(self.spec_child_boxes(), ILOC_TYPE) is None,
            },
    {
        self.children().find_type(ILOC_TYPE)
    }

    /// Returns the first ItemProtectionBox child, if present, kept as a raw box.
    pub fn ipro(&self) -> (r: Option<RawBox<'a>>)
        ensures
            match r {
                Some(b) => first_of_type(self.spec_child_boxes(), IPRO_TYPE) == Some(b.spec_data()),
                None => first_of_type(self.spec_child_boxes(), IPRO_TYPE) is None,
            },
    {
        self.children().find_type(IPRO_TYPE)
    }

    /// Returns the first ItemInfoBox child, if present, kept as a raw box.
    pub fn iinf(&self) -> (r: Option<RawBox<'a>>)
        ensures
            match r {
                Some(b) => first_of_type(self.spec_child_boxes(), IINF_TYPE) == Some(b.spec_data()),
                None => first_of_type(self.spec_child_boxes(), IINF_TYPE) is None,
            },
    {
        self.children().find_type(IINF_TYPE)
    }

    /// Returns the first ItemReferenceBox child, if present, kept as a raw box.
    pub fn iref(&self) -> (r: Option<RawBox<'a>>)
        ensures
            match r {
                Some(b) => first_of_type(self.spec_child_boxes(), IREF_TYPE) == Some(b.spec_data()),
                None => first_of_type(self.spec_child_boxes(), IREF_TYPE) is None,
            },
    {
        self.children().find_type(IREF_TYPE)
    }

    /// Returns the first ItemPropertiesBox child, if present, kept as a raw box.
    pub fn iprp(&self) -> (r: Option<RawBox<'a>>)
        ensures
            match r {
                Some(b) => first_of_type(self.spec_child_boxes(), IPRP_TYPE) == Some(b.spec_data()),
                None => first_of_type(self.spec_child_boxes(), IPRP_TYPE) is None,
            },
    {
        self.children().find_type(IPRP_TYPE)
    }

    /// Returns the first ItemDataBox child, if present, kept as a raw box.
    pub fn idat(&self) -> (r: Option<RawBox<'a>>)
        ensures
            match r {
                Some(b) => first_of_type(self.spec_child_boxes(), IDAT_TYPE) == Some(b.spec_data()),
                None => first_of_type(self.spec_child_boxes(), IDAT_TYPE) is None,
            },
    {
        self.children().find_type(IDAT_TYPE)
    }

    /// Returns the first PrimaryItemBox child, if present and well formed.
    pub fn pitm(&self) -> (r: Option<PrimaryItemBoxView<'a>>)
        ensures
            match first_of_type(self.spec_child_boxes(), pitm::BOX_TYPE) {
                Some(c) => match r {
                    Some(v) => pitm::spec_check(c) is Ok && v.spec_data() == c,
                    None => pitm::spec_check(c) is Err,
                },
                None => r is None,
            },
    {
        match self.children().find_type(pitm::BOX_TYPE) {
            Some(raw) => match PrimaryItemBoxView::new(raw.data()) {
                Ok(v) => Some(v),
                Err(_) => None,
            },
            None => None,
        }
    }

    /// Returns the first BinaryXmlBox child, if present, kept as a raw box.
    pub fn bxml(&self) -> (r: Option<RawBox<'a>>)
        ensures
            match r {
                Some(b) => first_of_type(self.spec_child_boxes(), BXML_TYPE) == Some(b.spec_data()),
                None => first_of_type(self.spec_child_boxes(), BXML_TYPE) is None,
            },
    {
        self.children().find_type(BXML_TYPE)
    }

    /// Returns the first XmlBox child, if present, kept as a raw box.
    pub fn xml(&self) -> (r: Option<RawBox<'a>>)
        ensures
            match r {
                Some(b) => first_of_type(self.spec_child_boxes(), XML_TYPE) == Some(b.spec_data()),
                None => first_of_type(self.spec_child_boxes(), XML_TYPE) is None,
            },
    {
        self.children().find_type(XML_TYPE)
    }
}

impl<'a> MetadataBox for MetadataBoxView<'a> {
    fn box_size(&self) -> (r: u64)
        ensures
            r == self.spec_data().len(),
    {
        self.data.len() as u64
    }

    fn box_type(&self) -> (r: BoxCode)
        ensures
            r == BOX_TYPE,
    {
        BOX_TYPE
    }

    fn version(&self) -> (r: u8)
        ensures
            r == version_of(self.spec_data()),
    {
        proof { use_type_invariant(self); }
        self.data[self.fullbox_offset]
    }

    fn flags(&self) -> (r: u32)
        ensures
            r == flags_of(self.spec_data()),
    {
        proof { use_type_invariant(self); }
        read_u24(self.data, self.fullbox_offset + 1)
    }
}

/// An owned representation of MetadataBox data.
#[derive(Clone, Debug, PartialEq, Eq)]
pub struct MetadataBoxOwned {
    /// Flags.
    pub flags: u32,
    /// Typed child boxes.
    pub children: Vec<MetadataChild>,
}

impl MetadataBoxOwned {
    /// The serialized bytes of each child, in order.
    pub open spec fn spec_child_bytes(&self) -> Seq<Seq<u8>> {
        self.children@.map_values(|c: MetadataChild| c.spec_bytes())
    }

    /// The payload: the serialized children one after another.
    pub open spec fn spec_payload(&self) -> Seq<u8> {
        self.spec_child_bytes().flatten()
    }

    /// Every child can be serialized.
    pub open spec fn spec_children_fit(&self) -> bool {
        forall|i: int| 0 <= i < self.children@.len() ==> (#[trigger] self.children@[i]).spec_fits()
    }

    /// The box can be serialized: every child fits and so does the total size.
    pub open spec fn spec_fits(&self) -> bool {
        self.spec_children_fit() && box_fits(self.spec_payload().len() + 4 as int)
    }

    /// Every child is valid.
    pub open spec fn spec_valid(&self) -> bool {
        forall|i: int| 0 <= i < self.children@.len() ==> (#[trigger] self.children@[i]).spec_valid()
    }

    /// The serialized bytes of the box.
    pub open spec fn spec_bytes(&self) -> Seq<u8> {
        fullbox_bytes(BOX_TYPE, 0, self.flags, self.spec_payload())
    }

    /// Creates a new empty MetadataBoxOwned.
    pub fn new() -> (r: Self)
        ensures
            r.flags == 0,
            r.children@.len() == 0,
    {
        Self { flags: 0, children: Vec::new() }
    }

    /// Returns the payload size, or `u64::MAX` when a child does not fit or
    /// the sum does not fit below `u64::MAX`.
    fn payload_size(&self) -> (r: u64)
        ensures
            r == if self.spec_children_fit() && self.spec_payload().len() < 0xffff_ffff_ffff_ffff {
                self.spec_payload().len() as int
            } else {
                0xffff_ffff_ffff_ffff
            },
    {
        let mut acc: u64 = 0;
        let mut i: usize = 0;
        let ghost cb = self.spec_child_bytes();
        while i < self.children.len()
            invariant
                i <= self.children@.len(),
                cb == self.spec_child_bytes(),
                acc == if (forall|j: int| 0 <= j < i ==> (#[trigger] self.children@[j]).spec_fits())
                    && cb.take(i as int).flatten().len() < 0xffff_ffff_ffff_ffff {
                    cb.take(i as int).flatten().len() as int
                } else {
                    0xffff_ffff_ffff_ffff
                },
            decreases self.children@.len() - i,
        {
            let s = self.children[i].box_size();
            proof {
                assert(cb.take(i + 1) =~= cb.take(i as int).push(cb[i as int]));
                cb.take(i as int).lemma_flatten_push(cb[i as int]);
            }
            acc = saturating_add(acc, s);
            i = i + 1;
        }
        assert(cb.take(i as int) =~= cb);
        acc
    }

    /// Returns the serialized size of the box, or `u64::MAX` when it does not fit.
    fn serialized_size(&self) -> (r: u64)
        ensures
            r == if self.spec_fits() { self.spec_bytes().len() as int } else { 0xffff_ffff_ffff_ffff },
    {
        proof { if self.spec_fits() { lemma_fullbox_roundtrip(BOX_TYPE, 0, self.flags, self.spec_payload()); } }
        saturating_fullbox_size(self.payload_size())
    }

    /// Writes the box to the given vector.
    pub fn write_to(&self, out: &mut Vec<u8>) -> (r: Result<(), WriteError>)
        ensures
            r is Ok <==> self.spec_fits(),
            r is Ok ==> final(out)@ == old(out)@ + self.spec_bytes(),
            r is Err ==> final(out)@ == old(out)@,
    {
        let payload = self.payload_size();
        if payload == 0xffff_ffff_ffff_ffff {
            return Err(WriteError::SizeOverflow);
        }
        match begin_fullbox(out, BOX_TYPE, 0, self.flags, payload) {
            Ok(()) => {},
            Err(e) => {
                return Err(e);
            },
        }
        let ghost start = out@;
        let ghost cb = self.spec_child_bytes();
        let mut i: usize = 0;
        while i < self.children.len()
            invariant
                i <= self.children@.len(),
                cb == self.spec_child_bytes(),
                self.spec_children_fit(),
                out@ == start + cb.take(i as int).flatten(),
            decreases self.children@.len() - i,
        {
            match self.children[i].write_to(out) {
                Ok(()) => {},
                Err(e) => {
                    return Err(e);
                },
            }
            proof {
                assert(cb.take(i + 1) =~= cb.take(i as int).push(cb[i as int]));
                cb.take(i as int).lemma_flatten_push(cb[i as int]);
            }
            i = i + 1;
        }
        assert(cb.take(i as int) =~= cb);
        Ok(())
    }

    /// Returns the first HandlerReferenceBox child, if present.
    pub fn hdlr(&self) -> (r: Option<&OpaqueBoxOwned>)
        ensures
            match r {
                Some(b) => exists|i: int| 0 <= i < self.children@.len() && self.children@[i] == MetadataChild::Hdlr(*b)
                    && forall|j: int| 0 <= j < i ==> !(self.children@[j] is Hdlr),
                None => forall|j: int| 0 <= j < self.children@.len() ==> !(self.children@[j] is Hdlr),
            },
    {
        let mut i: usize = 0;
        while i < self.children.len()
            invariant
                i <= self.children@.len(),
                forall|j: int| 0 <= j < i ==> !(self.children@[j] is Hdlr),
            decreases self.children@.len() - i,
        {
            match &self.children[i] {
                MetadataChild::Hdlr(b) => {
                    return Some(b);
                },
                _ => {},
            }
            i = i + 1;
        }
        None
    }

    /// Returns the first DataInformationBox child, if present.
    pub fn dinf(&self) -> (r: Option<&OpaqueBoxOwned>)
        ensures
            match r {
                Some(b) => exists|i: int| 0 <= i < self.children@.len() && self.children@[i] == MetadataChild::Dinf(*b)
                    && forall|j: int| 0 <= j < i ==> !(self.children@[j] is Dinf),
                None => forall|j: int| 0 <= j < self.children@.len() ==> !(self.children@[j] is Dinf),
            },
    {
        let mut i: usize = 0;
        while i < self.children.len()
            invariant
                i <= self.children@.len(),
                forall|j: int| 0 <= j < i ==> !(self.children@[j] is Dinf),
            decreases self.children@.len() - i,
        {
            match &self.children[i] {
                MetadataChild::Dinf(b) => {
                    return Some(b);
                },
                _ => {},
            }
            i = i + 1;
        }
        None
    }

    /// Returns the first ItemLocationBox child, if present.
    pub fn iloc(&self) -> (r: Option<&OpaqueBoxOwned>)
        ensures
            match r {
                Some(b) => exists|i: int| 0 <= i < self.children@.len() && self.children@[i] == MetadataChild::Iloc(*b)
                    && forall|j: int| 0 <= j < i ==> !(self.children@[j] is Iloc),
                None => forall|j: int| 0 <= j < self.children@.len() ==> !(self.children@[j] is Iloc),
            },
    {
        let mut i: usize = 0;
        while i < self.children.len()
            invariant
                i <= self.children@.len(),
                forall|j: int| 0 <= j < i ==> !(self.children@[j] is Iloc),
            decreases self.children@.len() - i,
        {
            match &self.children[i] {
                MetadataChild::Iloc(b) => {
                    return Some(b);
                },
                _ => {},
            }
            i = i + 1;
        }
        None
    }

    /// Returns the first ItemProtectionBox child, if present.
    pub fn ipro(&self) -> (r: Option<&OpaqueBoxOwned>)
        ensures
            match r {
                Some(b) => exists|i: int| 0 <= i < self.children@.len() && self.children@[i] == MetadataChild::Ipro(*b)
                    && forall|j: int| 0 <= j < i ==> !(self.children@[j] is Ipro),
                None => forall|j: int| 0 <= j < self.children@.len() ==> !(self.children@[j] is Ipro),
            },
    {
        let mut i: usize = 0;
        while i < self.children.len()
            invariant
                i <= self.children@.len(),
                forall|j: int| 0 <= j < i ==> !(self.children@[j] is Ipro),
            decreases self.children@.len() - i,
        {
            match &self.children[i] {
                MetadataChild::Ipro(b) => {
                    return Some(b);
                },
                _ => {},
            }
            i = i + 1;
        }
        None
    }

    /// Returns the first ItemInfoBox child, if present.
    pub fn iinf(&self) -> (r: Option<&OpaqueBoxOwned>)
        ensures
            match r {
                Some(b) => exists|i: int| 0 <= i < self.children@.len() && self.children@[i] == MetadataChild::Iinf(*b)
                    && forall|j: int| 0 <= j < i ==> !(self.children@[j] is Iinf),
                None => forall|j: int| 0 <= j < self.children@.len() ==> !(self.children@[j] is Iinf),
            },
    {
        let mut i: usize = 0;
        while i < self.children.len()
            invariant
                i <= self.children@.len(),
                forall|j: int| 0 <= j < i ==> !(self.children@[j] is Iinf),
            decreases self.children@.len() - i,
        {
            match &self.children[i] {
                MetadataChild::Iinf(b) => {
                    return Some(b);
                },
                _ => {},
            }
            i = i + 1;
        }
        None
    }

    /// Returns the first ItemReferenceBox child, if present.
    pub fn iref(&self) -> (r: Option<&OpaqueBoxOwned>)
        ensures
            match r {
                Some(b) => exists|i: int| 0 <= i < self.children@.len() && self.children@[i] == MetadataChild::Iref(*b)
                    && forall|j: int| 0 <= j < i ==> !(self.children@[j] is Iref),
                None => forall|j: int| 0 <= j < self.children@.len() ==> !(self.children@[j] is Iref),
            },
    {
        let mut i: usize = 0;
        while i < self.children.len()
            invariant
                i <= self.children@.len(),
                forall|j: int| 0 <= j < i ==> !(self.children@[j] is Iref),
            decreases self.children@.len() - i,
        {
            match &self.children[i] {
                MetadataChild::Iref(b) => {
                    return Some(b);
                },
                _ => {},
            }
            i = i + 1;
        }
        None
    }

    /// Returns the first ItemPropertiesBox child, if present.
    pub fn iprp(&self) -> (r: Option<&OpaqueBoxOwned>)
        ensures
            match r {
                Some(b) => exists|i: int| 0 <= i < self.children@.len() && self.children@[i] == MetadataChild::Iprp(*b)
                    && forall|j: int| 0 <= j < i ==> !(self.children@[j] is Iprp),
                None => forall|j: int| 0 <= j < self.children@.len() ==> !(self.children@[j] is Iprp),
            },
    {
        let mut i: usize = 0;
        while i < self.children.len()
            invariant
                i <= self.children@.len(),
                forall|j: int| 0 <= j < i ==> !(self.children@[j] is Iprp),
            decreases self.children@.len() - i,
        {
            match &self.children[i] {
                MetadataChild::Iprp(b) => {
                    return Some(b);
                },
                _ => {},
            }
            i = i + 1;
        }
        None
    }

    /// Returns the first ItemDataBox child, if present.
    pub fn idat(&self) -> (r: Option<&OpaqueBoxOwned>)
        ensures
            match r {
                Some(b) => exists|i: int| 0 <= i < self.children@.len() && self.children@[i] == MetadataChild::Idat(*b)
                    && forall|j: int| 0 <= j < i ==> !(self.children@[j] is Idat),
                None => forall|j: int| 0 <= j < self.children@.len() ==> !(self.children@[j] is Idat),
            },
    {
        let mut i: usize = 0;
        while i < self.children.len()
            invariant
                i <= self.children@.len(),
                forall|j: int| 0 <= j < i ==> !(self.children@[j] is Idat),
            decreases self.children@.len() - i,
        {
            match &self.children[i] {
                MetadataChild::Idat(b) => {
                    return Some(b);
                },
                _ => {},
            }
            i = i + 1;
        }
        None
    }

    /// Returns the first PrimaryItemBox child, if present.
    pub fn pitm(&self) -> (r: Option<&PrimaryItemBoxOwned>)
        ensures
            match r {
                Some(b) => exists|i: int| 0 <= i < self.children@.len() && self.children@[i] == MetadataChild::Pitm(*b)
                    && forall|j: int| 0 <= j < i ==> !(self.children@[j] is Pitm),
                None => forall|j: int| 0 <= j < self.children@.len() ==> !(self.children@[j] is Pitm),
            },
    {
        let mut i: usize = 0;
        while i < self.children.len()
            invariant
                i <= self.children@.len(),
                forall|j: int| 0 <= j < i ==> !(self.children@[j] is Pitm),
            decreases self.children@.len() - i,
        {
            match &self.children[i] {
                MetadataChild::Pitm(b) => {
                    return Some(b);
                },
                _ => {},
            }
            i = i + 1;
        }
        None
    }

    /// Returns the first BinaryXmlBox child, if present.
    pub fn bxml(&self) -> (r: Option<&OpaqueBoxOwned>)
        ensures
            match r {
                Some(b) => exists|i: int| 0 <= i < self.children@.len() && self.children@[i] == MetadataChild::Bxml(*b)
                    && forall|j: int| 0 <= j < i ==> !(self.children@[j] is Bxml),
                None => forall|j: int| 0 <= j < self.children@.len() ==> !(self.children@[j] is Bxml),
            },
    {
        let mut i: usize = 0;
        while i < self.children.len()
            invariant
                i <= self.children@.len(),
                forall|j: int| 0 <= j < i ==> !(self.children@[j] is Bxml),
            decreases self.children@.len() - i,
        {
            match &self.children[i] {
                MetadataChild::Bxml(b) => {
                    return Some(b);
                },
                _ => {},
            }
            i = i + 1;
        }
        None
    }

    /// Returns the first XmlBox child, if present.
    pub fn xml(&self) -> (r: Option<&OpaqueBoxOwned>)
        ensures
            match r {
                Some(b) => exists|i: int| 0 <= i < self.children@.len() && self.children@[i] == MetadataChild::Xml(*b)
                    && forall|j: int| 0 <= j < i ==> !(self.children@[j] is Xml),
                None => forall|j: int| 0 <= j < self.children@.len() ==> !(self.children@[j] is Xml),
            },
    {
        let mut i: usize = 0;
        while i < self.children.len()
            invariant
                i <= self.children@.len(),
                forall|j: int| 0 <= j < i ==> !(self.children@[j] is Xml),
            decreases self.children@.len() - i,
        {
            match &self.children[i] {
                MetadataChild::Xml(b) => {
                    return Some(b);
                },
                _ => {},
            }
            i = i + 1;
        }
        None
    }

    /// Adds a HandlerReferenceBox child.
    pub fn add_hdlr(&mut self, b: OpaqueBoxOwned)
        ensures
            final(self).children@ == old(self).children@.push(MetadataChild::Hdlr(b)),
            final(self).flags == old(self).flags,
    {
        self.children.push(MetadataChild::Hdlr(b));
    }

    /// Adds a DataInformationBox child.
    pub fn add_dinf(&mut self, b: OpaqueBoxOwned)
        ensures
            final(self).children@ == old(self).children@.push(MetadataChild::Dinf(b)),
            final(self).flags == old(self).flags,
    {
        self.children.push(MetadataChild::Dinf(b));
    }

    /// Adds an ItemLocationBox child.
    pub fn add_iloc(&mut self, b: OpaqueBoxOwned)
        ensures
            final(self).children@ == old(self).children@.push(MetadataChild::Iloc(b)),
            final(self).flags == old(self).flags,
    {
        self.children.push(MetadataChild::Iloc(b));
    }

    /// Adds an ItemProtectionBox child.
    pub fn add_ipro(&mut self, b: OpaqueBoxOwned)
        ensures
            final(self).children@ == old(self).children@.push(MetadataChild::Ipro(b)),
            final(self).flags == old(self).flags,
    {
        self.children.push(MetadataChild::Ipro(b));
    }

    /// Adds an ItemInfoBox child.
    pub fn add_iinf(&mut self, b: OpaqueBoxOwned)
        ensures
            final(self).children@ == old(self).children@.push(MetadataChild::Iinf(b)),
            final(self).flags == old(self).flags,
    {
        self.children.push(MetadataChild::Iinf(b));
    }

    /// Adds an ItemReferenceBox child.
    pub fn add_iref(&mut self, b: OpaqueBoxOwned)
        ensures
            final(self).children@ == old(self).children@.push(MetadataChild::Iref(b)),
            final(self).flags == old(self).flags,
    {
        self.children.push(MetadataChild::Iref(b));
    }

    /// Adds an ItemPropertiesBox child.
    pub fn add_iprp(&mut self, b: OpaqueBoxOwned)
        ensures
            final(self).children@ == old(self).children@.push(MetadataChild::Iprp(b)),
            final(self).flags == old(self).flags,
    {
        self.children.push(MetadataChild::Iprp(b));
    }

    /// Adds an ItemDataBox child.
    pub fn add_idat(&mut self, b: OpaqueBoxOwned)
        ensures
            final(self).children@ == old(self).children@.push(MetadataChild::Idat(b)),
            final(self).flags == old(self).flags,
    {
        self.children.push(MetadataChild::Idat(b));
    }

    /// Adds a PrimaryItemBox child.
    pub fn add_pitm(&mut self, b: PrimaryItemBoxOwned)
        ensures
            final(self).children@ == old(self).children@.push(MetadataChild::Pitm(b)),
            final(self).flags == old(self).flags,
    {
        self.children.push(MetadataChild::Pitm(b));
    }

    /// Adds a BinaryXmlBox child.
    pub fn add_bxml(&mut self, b: OpaqueBoxOwned)
        ensures
            final(self).children@ == old(self).children@.push(MetadataChild::Bxml(b)),
            final(self).flags == old(self).flags,
    {
        self.children.push(MetadataChild::Bxml(b));
    }

    /// Adds a XmlBox child.
    pub fn add_xml(&mut self, b: OpaqueBoxOwned)
        ensures
            final(self).children@ == old(self).children@.push(MetadataChild::Xml(b)),
            final(self).flags == old(self).flags,
    {
        self.children.push(MetadataChild::Xml(b));
    }

    /// Creates an owned copy of the box that `source` views, reading each child.
    pub fn from(source: &MetadataBoxView<'_>) -> (r: Self)
        ensures
            spec_reads(&r, source.spec_data()),
    {
        proof { use_type_invariant(source); }
        let boxes = source.children().collect_boxes();
        let ghost kids = source.spec_child_boxes();
        let mut children: Vec<MetadataChild> = Vec::new();
        let mut i: usize = 0;
        while i < boxes.len()
            invariant
                i <= boxes@.len(),
                boxes@.len() == kids.len(),
                forall|j: int| 0 <= j < boxes@.len() ==> (#[trigger] boxes@[j]).spec_data() == kids[j],
                children@.len() == i,
                forall|j: int| 0 <= j < i ==> (#[trigger] children@[j]).spec_reads(kids[j]),
            decreases boxes@.len() - i,
        {
            children.push(MetadataChild::from_raw(&boxes[i]));
            i = i + 1;
        }
        Self { flags: source.flags(), children }
    }
}

impl Default for MetadataBoxOwned {
    fn default() -> (r: Self)
        ensures
            r.flags == 0,
            r.children@.len() == 0,
    {
        Self::new()
    }
}

impl MetadataBox for MetadataBoxOwned {
    fn box_size(&self) -> (r: u64)
        ensures
            r == if self.spec_fits() { self.spec_bytes().len() as int } else { 0xffff_ffff_ffff_ffff },
    {
        self.serialized_size()
    }

    fn box_type(&self) -> (r: BoxCode)
        ensures
            r == BOX_TYPE,
    {
        BOX_TYPE
    }

    fn version(&self) -> (r: u8)
        ensures
            r == 0,
    {
        0
    }

    fn flags(&self) -> (r: u32)
        ensures
            r == self.flags,
    {
        self.flags
    }
}

/// The owned box `o` holds what reading the MetadataBox `s` gives: its flags,
/// and one child per child box, in order, each read from that child box.
pub open spec fn spec_reads(o: &MetadataBoxOwned, s: Seq<u8>) -> bool {
    &&& spec_check(s) is Ok
    &&& o.flags == flags_of(s)
    &&& o.children@.len() == spec_children(spec_payload_of(s)).len()
    &&& forall|i: int| 0 <= i < o.children@.len() ==> (#[trigger] o.children@[i]).spec_reads(spec_children(spec_payload_of(s))[i])
}

/// Serializing an owned box gives a box that passes the checks of its type
/// and whose child boxes read back as the serialized children, in order.
pub proof fn lemma_roundtrip(o: &MetadataBoxOwned)
    requires
        o.spec_fits(),
        o.spec_valid(),
    ensures
        spec_check(o.spec_bytes()) is Ok,
        spec_children(spec_payload_of(o.spec_bytes())) == o.spec_child_bytes(),
        version_of(o.spec_bytes()) == 0,
        flags_of(o.spec_bytes()) == o.flags % 0x100_0000,
        whole_box(o.spec_bytes()),
        explicit_size(o.spec_bytes()),
{
    lemma_fullbox_roundtrip(BOX_TYPE, 0, o.flags, o.spec_payload());
    lemma_fullbox_bytes_whole(BOX_TYPE, 0, o.flags, o.spec_payload());
    let cs = o.spec_child_bytes();
    assert forall|i: int| 0 <= i < cs.len() implies whole_box(#[trigger] cs[i]) && explicit_size(cs[i]) by {
        o.children@[i].lemma_whole();
    }
    lemma_children_of_flatten(cs);
    assert(spec_check_fullbox(o.spec_bytes(), BOX_TYPE, None, 0) is Ok);
}

} // verus!
