//! Protection Scheme Information Box (sinf) parsing and serialization.
//!
//! The Protection Scheme Information Box contains all the information
//! required both to understand the encryption transform applied and its parameters.
//!
//! ```text
//! aligned(8) class ProtectionSchemeInfoBox(fmt)
//!    extends Box('sinf') {
//!    OriginalFormatBox(fmt) original_format;
//!    SchemeTypeBox scheme_type_box; // optional
//!    SchemeInformationBox info; // optional
//! }
//! ```

use vstd::prelude::*;
use crate::bytes::saturating_add;
use crate::code::BoxCode;
use crate::container::{BoxIterator, OpaqueBoxOwned, RawBox, box_type_of, explicit_size, first_of_type, lemma_box_bytes_whole, lemma_children_of_flatten, lemma_fullbox_bytes_whole, spec_children, whole_box};
use crate::error::{ParseError, WriteError};
use crate::header::{BoxHeader, begin_box, box_bytes, box_fits, lemma_box_roundtrip, payload_of, saturating_box_size, spec_check_box};
use crate::boxes::schm::{self, SchemeTypeBox, SchemeTypeBoxOwned, SchemeTypeBoxView};
use crate::boxes::schi::{self, SchemeInformationBox, SchemeInformationBoxOwned, SchemeInformationBoxView};

verus! {

broadcast use crate::bytes::group_bytes_len;

/// The box type identifier for ProtectionSchemeInfoBox (`sinf`).
pub const BOX_TYPE: BoxCode = 0x7369_6e66;

/// The box type of a OriginalFormatBox child (`frma`), which this library keeps as raw bytes.
pub const FRMA_TYPE: BoxCode = 0x6672_6d61;

/// The header of the ProtectionSchemeInfoBox `s`, or why `s` is not one.
pub open spec fn spec_check(s: Seq<u8>) -> Result<BoxHeader, ParseError> {
    spec_check_box(s, BOX_TYPE, 0)
}

/// The payload of the box `s` that holds its child boxes.
pub open spec fn spec_payload_of(s: Seq<u8>) -> Seq<u8> {
    payload_of(s)
}

/// A typed child of a ProtectionSchemeInfoBox.
#[derive(Clone, Debug, PartialEq, Eq)]
pub enum ProtectionSchemeInfoChild {
    /// An OriginalFormatBox child.
    Frma(OpaqueBoxOwned),
    /// A SchemeTypeBox child.
    Schm(SchemeTypeBoxOwned),
    /// A SchemeInformationBox child.
    Schi(SchemeInformationBoxOwned),
    /// An unknown or unrecognized child box.
    Other(OpaqueBoxOwned),
}

impl ProtectionSchemeInfoChild {
    /// The serialized bytes of the child.
    pub open spec fn spec_bytes(&self) -> Seq<u8> {
        match self {
            Self::Frma(b) => b.spec_data(),
            Self::Schm(b) => b.spec_bytes(),
            Self::Schi(b) => b.spec_bytes(),
            Self::Other(o) => o.spec_data(),
        }
    }

    /// The child can be serialized: its size fits in 64 bits.
    pub open spec fn spec_fits(&self) -> bool {
        match self {
            Self::Schm(b) => b.spec_fits(),
            Self::Schi(b) => b.spec_fits(),
            _ => true,
        }
    }

    /// Every box the child holds as raw bytes is a whole box with an explicit size.
    pub open spec fn spec_valid(&self) -> bool {
        match self {
            Self::Frma(o) => whole_box(o.spec_data()) && explicit_size(o.spec_data()),
            Self::Schi(b) => b.spec_valid(),
            Self::Other(o) => whole_box(o.spec_data()) && explicit_size(o.spec_data()),
            _ => true,
        }
    }

    /// The box type of the child.
    pub open spec fn spec_box_type(&self) -> BoxCode {
        match self {
            Self::Frma(b) => box_type_of(b.spec_data()),
            Self::Schm(b) => schm::BOX_TYPE,
            Self::Schi(b) => schi::BOX_TYPE,
            Self::Other(o) => box_type_of(o.spec_data()),
        }
    }

    /// The child is what reading the child box `c` gives: the typed box where
    /// `c` has a known type and parses as it, else `c` itself as raw bytes.
    pub open spec fn spec_reads(&self, c: Seq<u8>) -> bool {
        match self {
            Self::Frma(o) => box_type_of(c) == FRMA_TYPE && o.spec_data() == c,
            Self::Schm(b) => box_type_of(c) == schm::BOX_TYPE && schm::spec_check(c) is Ok && schm::spec_reads(b, c),
            Self::Schi(b) => box_type_of(c) == schi::BOX_TYPE && schi::spec_check(c) is Ok && schi::spec_reads(b, c),
            Self::Other(o) => o.spec_data() == c
                && box_type_of(c) != FRMA_TYPE
                && !(box_type_of(c) == schm::BOX_TYPE && schm::spec_check(c) is Ok)
                && !(box_type_of(c) == schi::BOX_TYPE && schi::spec_check(c) is Ok),
        }
    }

    /// Returns the box type.
    pub fn box_type(&self) -> (r: BoxCode)
        ensures
            r == self.spec_box_type(),
    {
        match self {
            Self::Frma(b) => b.box_type(),
            Self::Schm(b) => schm::BOX_TYPE,
            Self::Schi(b) => schi::BOX_TYPE,
            Self::Other(o) => o.box_type(),
        }
    }

    /// Returns the serialized size of the child, or `u64::MAX` when it does not fit in 64 bits.
    pub fn box_size(&self) -> (r: u64)
        ensures
            r == if self.spec_fits() { self.spec_bytes().len() as int } else { 0xffff_ffff_ffff_ffff },
    {
        match self {
            Self::Frma(b) => b.box_size(),
            Self::Schm(b) => b.box_size(),
            Self::Schi(b) => b.box_size(),
            Self::Other(o) => o.box_size(),
        }
    }

    /// Writes this child box to the given vector.
    pub fn write_to(&self, out: &mut Vec<u8>) -> (r: Result<(), WriteError>)
        ensures
            r is Ok <==> self.spec_fits(),
            r is Ok ==> final(out)@ == old(out)@ + self.spec_bytes(),
            r is Err ==> final(out)@ == old(out)@,
    {
        match self {
            Self::Frma(b) => {
                b.write_to(out);
                Ok(())
            },
            Self::Schm(b) => b.write_to(out),
            Self::Schi(b) => b.write_to(out),
            Self::Other(o) => {
                o.write_to(out);
                Ok(())
            },
        }
    }

    /// Reads the child box `raw`: as its typed box where its type is known
    /// and it parses as that type, else as raw bytes.
    pub fn from_raw(raw: &RawBox<'_>) -> (r: Self)
        ensures
            r.spec_reads(raw.spec_data()),
    {
        let t = raw.box_type();
        if t == FRMA_TYPE {
            Self::Frma(OpaqueBoxOwned::from_raw_box(raw))
        } else if t == schm::BOX_TYPE {
            match SchemeTypeBoxView::new(raw.data()) {
                Ok(v) => Self::Schm(SchemeTypeBoxOwned::from(&v)),
                Err(_) => Self::Other(OpaqueBoxOwned::from_raw_box(raw)),
            }
        } else if t == schi::BOX_TYPE {
            match SchemeInformationBoxView::new(raw.data()) {
                Ok(v) => Self::Schi(SchemeInformationBoxOwned::from(&v)),
                Err(_) => Self::Other(OpaqueBoxOwned::from_raw_box(raw)),
            }
        } else {
            Self::Other(OpaqueBoxOwned::from_raw_box(raw))
        }
    }

    /// A child that fits and is valid serializes to one whole box with an explicit size.
    pub proof fn lemma_whole(&self)
        requires
            self.spec_fits(),
            self.spec_valid(),
        ensures
            whole_box(self.spec_bytes()),
            explicit_size(self.spec_bytes()),
    {
        match self {
            Self::Schm(b) => { schm::lemma_whole(b); },
            Self::Schi(b) => { schi::lemma_roundtrip(b); },
            _ => {},
        }
    }
}

/// Common interface for accessing ProtectionSchemeInfoBox data.
pub trait ProtectionSchemeInfoBox {
    /// Returns the total size of the box in bytes.
    fn box_size(&self) -> u64;

    /// Returns the box type.
    fn box_type(&self) -> BoxCode;
}

/// A borrowing view over raw ProtectionSchemeInfoBox bytes.
#[derive(Clone, Copy, Debug)]
pub struct ProtectionSchemeInfoBoxView<'a> {
    data: &'a [u8],
    header: BoxHeader,
}

impl<'a> ProtectionSchemeInfoBoxView<'a> {
    #[verifier::type_invariant]
    closed spec fn inv(&self) -> bool {
        spec_check(self.data@) == Ok::<BoxHeader, ParseError>(self.header)
    }

    /// The bytes of the box.
    pub closed spec fn spec_data(&self) -> Seq<u8> {
        self.data@
    }

    /// The child boxes of the box, each as its bytes.
    pub open spec fn spec_child_boxes(&self) -> Seq<Seq<u8>> {
        spec_children(spec_payload_of(self.spec_data()))
    }

    /// Creates a new view over the given bytes.
    pub fn new(data: &'a [u8]) -> (r: Result<Self, ParseError>)
        ensures
            match r {
                Ok(v) => v.spec_data() == data@ && spec_check(data@) is Ok,
                Err(e) => spec_check(data@) == Err::<BoxHeader, ParseError>(e),
            },
    {
        let header = BoxHeader::parse(data, data.len())?;
        header.validate(data, BOX_TYPE, 0)?;
        Ok(Self { data, header })
    }

    /// Returns the underlying byte slice.
    pub fn as_bytes(&self) -> (r: &'a [u8])
        ensures
            r@ == self.spec_data(),
    {
        self.data
    }

    /// Returns an iterator over child boxes.
    pub fn children(&self) -> (r: BoxIterator<'a>)
        ensures
            r.remaining() == self.spec_child_boxes(),
    {
        proof { use_type_invariant(self); }
        let hs = self.header.header_size as usize;
        BoxIterator::new(&self.data[hs..self.data.len()])
    }

    /// Returns the first OriginalFormatBox child, if present, kept as a raw box.
    pub fn frma(&self) -> (r: Option<RawBox<'a>>)
        ensures
            match r {
                Some(b) => first_of_type(self.spec_child_boxes(), FRMA_TYPE) == Some(b.spec_data()),
                None => first_of_type(self.spec_child_boxes(), FRMA_TYPE) is None,
            },
    {
        self.children().find_type(FRMA_TYPE)
    }

    /// Returns the first SchemeTypeBox child, if present and well formed.
    pub fn schm(&self) -> (r: Option<SchemeTypeBoxView<'a>>)
        ensures
            match first_of_type(self.spec_child_boxes(), schm::BOX_TYPE) {
                Some(c) => match r {
                    Some(v) => schm::spec_check(c) is Ok && v.spec_data() == c,
                    None => schm::spec_check(c) is Err,
                },
                None => r is None,
            },
    {
        match self.children().find_type(schm::BOX_TYPE) {
            Some(raw) => match SchemeTypeBoxView::new(raw.data()) {
                Ok(v) => Some(v),
                Err(_) => None,
            },
            None => None,
        }
    }

    /// Returns the first SchemeInformationBox child, if present and well formed.
    pub fn schi(&self) -> (r: Option<SchemeInformationBoxView<'a>>)
        ensures
            match first_of_type(self.spec_child_boxes(), schi::BOX_TYPE) {
                Some(c) => match r {
                    Some(v) => schi::spec_check(c) is Ok && v.spec_data() == c,
                    None => schi::spec_check(c) is Err,
                },
                None => r is None,
            },
    {
        match self.children().find_type(schi::BOX_TYPE) {
            Some(raw) => match SchemeInformationBoxView::new(raw.data()) {
                Ok(v) => Some(v),
                Err(_) => None,
            },
            None => None,
        }
    }
}

impl<'a> ProtectionSchemeInfoBox for ProtectionSchemeInfoBoxView<'a> {
    fn box_size(&self) -> (r: u64)
        ensures
            r == self.spec_data().len(),
    {
        self.data.len() as u64
    }

    fn box_type(&self) -> (r: BoxCode)
        ensures
            r == BOX_TYPE,
    {
        BOX_TYPE
    }
}

/// An owned representation of ProtectionSchemeInfoBox data.
#[derive(Clone, Debug, PartialEq, Eq)]
pub struct ProtectionSchemeInfoBoxOwned {
    /// Typed child boxes.
    pub children: Vec<ProtectionSchemeInfoChild>,
}

impl ProtectionSchemeInfoBoxOwned {
    /// The serialized bytes of each child, in order.
    pub open spec fn spec_child_bytes(&self) -> Seq<Seq<u8>> {
        self.children@.map_values(|c: ProtectionSchemeInfoChild| c.spec_bytes())
    }

    /// The payload: the serialized children one after another.
    pub open spec fn spec_payload(&self) -> Seq<u8> {
        self.spec_child_bytes().flatten()
    }

    /// Every child can be serialized.
    pub open spec fn spec_children_fit(&self) -> bool {
        forall|i: int| 0 <= i < self.children@.len() ==> (#[trigger] self.children@[i]).spec_fits()
    }

    /// The box can be serialized: every child fits and so does the total size.
    pub open spec fn spec_fits(&self) -> bool {
        self.spec_children_fit() && box_fits(self.spec_payload().len() as int)
    }

    /// Every child is valid.
    pub open spec fn spec_valid(&self) -> bool {
        forall|i: int| 0 <= i < self.children@.len() ==> (#[trigger] self.children@[i]).spec_valid()
    }

    /// The serialized bytes of the box.
    pub open spec fn spec_bytes(&self) -> Seq<u8> {
        box_bytes(BOX_TYPE, self.spec_payload())
    }

    /// Creates a new empty ProtectionSchemeInfoBoxOwned.
    pub fn new() -> (r: Self)
        ensures
            r.children@.len() == 0,
    {
        Self { children: Vec::new() }
    }

    /// Returns the payload size, or `u64::MAX` when a child does not fit or
    /// the sum does not fit below `u64::MAX`.
    fn payload_size(&self) -> (r: u64)
        ensures
            r == if self.spec_children_fit() && self.spec_payload().len() < 0xffff_ffff_ffff_ffff {
                self.spec_payload().len() as int
            } else {
                0xffff_ffff_ffff_ffff
            },
    {
        let mut acc: u64 = 0;
        let mut i: usize = 0;
        let ghost cb = self.spec_child_bytes();
        while i < self.children.len()
            invariant
                i <= self.children@.len(),
                cb == self.spec_child_bytes(),
                acc == if (forall|j: int| 0 <= j < i ==> (#[trigger] self.children@[j]).spec_fits())
                    && cb.take(i as int).flatten().len() < 0xffff_ffff_ffff_ffff {
                    cb.take(i as int).flatten().len() as int
                } else {
                    0xffff_ffff_ffff_ffff
                },
            decreases self.children@.len() - i,
        {
            let s = self.children[i].box_size();
            proof {
                assert(cb.take(i + 1) =~= cb.take(i as int).push(cb[i as int]));
                cb.take(i as int).lemma_flatten_push(cb[i as int]);
            }
            acc = saturating_add(acc, s);
            i = i + 1;
        }
        assert(cb.take(i as int) =~= cb);
        acc
    }

    /// Returns the serialized size of the box, or `u64::MAX` when it does not fit.
    fn serialized_size(&self) -> (r: u64)
        ensures
            r == if self.spec_fits() { self.spec_bytes().len() as int } else { 0xffff_ffff_ffff_ffff },
    {
        proof { if self.spec_fits() { lemma_box_roundtrip(BOX_TYPE, self.spec_payload()); } }
        saturating_box_size(self.payload_size())
    }

    /// Writes the box to the given vector.
    pub fn write_to(&self, out: &mut Vec<u8>) -> (r: Result<(), WriteError>)
        ensures
            r is Ok <==> self.spec_fits(),
            r is Ok ==> final(out)@ == old(out)@ + self.spec_bytes(),
            r is Err ==> final(out)@ == old(out)@,
    {
        let payload = self.payload_size();
        if payload == 0xffff_ffff_ffff_ffff {
            return Err(WriteError::SizeOverflow);
        }
        match begin_box(out, BOX_TYPE, payload) {
            Ok(()) => {},
            Err(e) => {
                return Err(e);
            },
        }
        let ghost start = out@;
        let ghost cb = self.spec_child_bytes();
        let mut i: usize = 0;
        while i < self.children.len()
            invariant
                i <= self.children@.len(),
                cb == self.spec_child_bytes(),
                self.spec_children_fit(),
                out@ == start + cb.take(i as int).flatten(),
            decreases self.children@.len() - i,
        {
            match self.children[i].write_to(out) {
                Ok(()) => {},
                Err(e) => {
                    return Err(e);
                },
            }
            proof {
                assert(cb.take(i + 1) =~= cb.take(i as int).push(cb[i as int]));
                cb.take(i as int).lemma_flatten_push(cb[i as int]);
            }
            i = i + 1;
        }
        assert(cb.take(i as int) =~= cb);
        Ok(())
    }

    /// Returns the first OriginalFormatBox child, if present.
    pub fn frma(&self) -> (r: Option<&OpaqueBoxOwned>)
        ensures
            match r {
                Some(b) => exists|i: int| 0 <= i < self.children@.len() && self.children@[i] == ProtectionSchemeInfoChild::Frma(*b)
                    && forall|j: int| 0 <= j < i ==> !(self.children@[j] is Frma),
                None => forall|j: int| 0 <= j < self.children@.len() ==> !(self.children@[j] is Frma),
            },
    {
        let mut i: usize = 0;
        while i < self.children.len()
            invariant
                i <= self.children@.len(),
                forall|j: int| 0 <= j < i ==> !(self.children@[j] is Frma),
            decreases self.children@.len() - i,
        {
            match &self.children[i] {
                ProtectionSchemeInfoChild::Frma(b) => {
                    return Some(b);
                },
                _ => {},
            }
            i = i + 1;
        }
        None
    }

    /// Returns the first SchemeTypeBox child, if present.
    pub fn schm(&self) -> (r: Option<&SchemeTypeBoxOwned>)
        ensures
            match r {
                Some(b) => exists|i: int| 0 <= i < self.children@.len() && self.children@[i] == ProtectionSchemeInfoChild::Schm(*b)
                    && forall|j: int| 0 <= j < i ==> !(self.children@[j] is Schm),
                None => forall|j: int| 0 <= j < self.children@.len() ==> !(self.children@[j] is Schm),
            },
    {
        let mut i: usize = 0;
        while i < self.children.len()
            invariant
                i <= self.children@.len(),
                forall|j: int| 0 <= j < i ==> !(self.children@[j] is Schm),
            decreases self.children@.len() - i,
        {
            match &self.children[i] {
                ProtectionSchemeInfoChild::Schm(b) => {
                    return Some(b);
                },
                _ => {},
            }
            i = i + 1;
        }
        None
    }

    /// Returns the first SchemeInformationBox child, if present.
    pub fn schi(&self) -> (r: Option<&SchemeInformationBoxOwned>)
        ensures
            match r {
                Some(b) => exists|i: int| 0 <= i < self.children@.len() && self.children@[i] == ProtectionSchemeInfoChild::Schi(*b)
                    && forall|j: int| 0 <= j < i ==> !(self.children@[j] is Schi),
                None => forall|j: int| 0 <= j < self.children@.len() ==> !(self.children@[j] is Schi),
            },
    {
        let mut i: usize = 0;
        while i < self.children.len()
            invariant
                i <= self.children@.len(),
                forall|j: int| 0 <= j < i ==> !(self.children@[j] is Schi),
            decreases self.children@.len() - i,
        {
            match &self.children[i] {
                ProtectionSchemeInfoChild::Schi(b) => {
                    return Some(b);
                },
                _ => {},
            }
            i = i + 1;
        }
        None
    }

    /// Adds an OriginalFormatBox child.
    pub fn add_frma(&mut self, b: OpaqueBoxOwned)
        ensures
            final(self).children@ == old(self).children@.push(ProtectionSchemeInfoChild::Frma(b)),
    {
        self.children.push(ProtectionSchemeInfoChild::Frma(b));
    }

    /// Adds a SchemeTypeBox child.
    pub fn add_schm(&mut self, b: SchemeTypeBoxOwned)
        ensures
            final(self).children@ == old(self).children@.push(ProtectionSchemeInfoChild::Schm(b)),
    {
        self.children.push(ProtectionSchemeInfoChild::Schm(b));
    }

    /// Adds a SchemeInformationBox child.
    pub fn add_schi(&mut self, b: SchemeInformationBoxOwned)
        ensures
            final(self).children@ == old(self).children@.push(ProtectionSchemeInfoChild::Schi(b)),
    {
        self.children.push(ProtectionSchemeInfoChild::Schi(b));
    }

    /// Creates an owned copy of the box that `source` views, reading each child.
    pub fn from(source: &ProtectionSchemeInfoBoxView<'_>) -> (r: Self)
        ensures
            spec_reads(&r, source.spec_data()),
    {
        proof { use_type_invariant(source); }
        let boxes = source.children().collect_boxes();
        let ghost kids = source.spec_child_boxes();
        let mut children: Vec<ProtectionSchemeInfoChild> = Vec::new();
        let mut i: usize = 0;
        while i < boxes.len()
            invariant
                i <= boxes@.len(),
                boxes@.len() == kids.len(),
                forall|j: int| 0 <= j < boxes@.len() ==> (#[trigger] boxes@[j]).spec_data() == kids[j],
                children@.len() == i,
                forall|j: int| 0 <= j < i ==> (#[trigger] children@[j]).spec_reads(kids[j]),
            decreases boxes@.len() - i,
        {
            children.push(ProtectionSchemeInfoChild::from_raw(&boxes[i]));
            i = i + 1;
        }
        Self { children }
    }
}

impl Default for ProtectionSchemeInfoBoxOwned {
    fn default() -> (r: Self)
        ensures
            r.children@.len() == 0,
    {
        Self::new()
    }
}

impl ProtectionSchemeInfoBox for ProtectionSchemeInfoBoxOwned {
    fn box_size(&self) -> (r: u64)
        ensures
            r == if self.spec_fits() { self.spec_bytes().len() as int } else { 0xffff_ffff_ffff_ffff },
    {
        self.serialized_size()
    }

    fn box_type(&self) -> (r: BoxCode)
        ensures
            r == BOX_TYPE,
    {
        BOX_TYPE
    }
}

/// The owned box `o` holds what reading the ProtectionSchemeInfoBox `s` gives: its flags,
/// one child per child box, in order, each read from that child box.
pub open spec fn spec_reads(o: &ProtectionSchemeInfoBoxOwned, s: Seq<u8>) -> bool {
    &&& spec_check(s) is Ok
    &&& o.children@.len() == spec_children(spec_payload_of(s)).len()
    &&& forall|i: int| 0 <= i < o.children@.len() ==> (#[trigger] o.children@[i]).spec_reads(spec_children(spec_payload_of(s))[i])
}

/// Serializing an owned box gives a box that passes the checks of its type
/// and whose child boxes read back as the serialized children, in order.
pub proof fn lemma_roundtrip(o: &ProtectionSchemeInfoBoxOwned)
    requires
        o.spec_fits(),
        o.spec_valid(),
    ensures
        spec_check(o.spec_bytes()) is Ok,
        spec_children(spec_payload_of(o.spec_bytes())) == o.spec_child_bytes(),
        whole_box(o.spec_bytes()),
        explicit_size(o.spec_bytes()),
{
    lemma_box_roundtrip(BOX_TYPE, o.spec_payload());
    lemma_box_bytes_whole(BOX_TYPE, o.spec_payload());
    let cs = o.spec_child_bytes();
    assert forall|i: int| 0 <= i < cs.len() implies whole_box(#[trigger] cs[i]) && explicit_size(cs[i]) by {
        o.children@[i].lemma_whole();
    }
    lemma_children_of_flatten(cs);
    assert(spec_check_box(o.spec_bytes(), BOX_TYPE, 0) is Ok);
}

} // verus!
