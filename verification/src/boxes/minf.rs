//! Media Information Box (minf) parsing and serialization.
//!
//! The Media Information Box contains all the objects that declare the media information.
//!
//! ```text
//! aligned(8) class MediaInformationBox extends Box('minf') {
//! }
//! ```

use vstd::prelude::*;
use crate::bytes::saturating_add;
use crate::code::BoxCode;
use crate::container::{BoxIterator, OpaqueBoxOwned, RawBox, box_type_of, explicit_size, first_of_type, lemma_box_bytes_whole, lemma_children_of_flatten, lemma_fullbox_bytes_whole, spec_children, whole_box};
use crate::error::{ParseError, WriteError};
use crate::header::{BoxHeader, begin_box, box_bytes, box_fits, lemma_box_roundtrip, payload_of, saturating_box_size, spec_check_box};
use crate::boxes::smhd::{self, SoundMediaHeaderBox, SoundMediaHeaderBoxOwned, SoundMediaHeaderBoxView};
use crate::boxes::nmhd::{self, NullMediaHeaderBox, NullMediaHeaderBoxOwned, NullMediaHeaderBoxView};

verus! {

broadcast use crate::bytes::group_bytes_len;

/// The box type identifier for MediaInformationBox (`minf`).
pub const BOX_TYPE: BoxCode = 0x6d69_6e66;

/// The box type of a VideoMediaHeaderBox child (`vmhd`), which this library keeps as raw bytes.
pub const VMHD_TYPE: BoxCode = 0x766d_6864;

/// The box type of a HintMediaHeaderBox child (`hmhd`), which this library keeps as raw bytes.
pub const HMHD_TYPE: BoxCode = 0x686d_6864;

/// The box type of a SubtitleMediaHeaderBox child (`sthd`), which this library keeps as raw bytes.
pub const STHD_TYPE: BoxCode = 0x7374_6864;

/// The box type of a DataInformationBox child (`dinf`), which this library keeps as raw bytes.
pub const DINF_TYPE: BoxCode = 0x6469_6e66;

/// The box type of a SampleTableBox child (`stbl`), which this library keeps as raw bytes.
pub const STBL_TYPE: BoxCode = 0x7374_626c;

/// The header of the MediaInformationBox `s`, or why `s` is not one.
pub open spec fn spec_check(s: Seq<u8>) -> Result<BoxHeader, ParseError> {
    spec_check_box(s, BOX_TYPE, 0)
}

/// The payload of the box `s` that holds its child boxes.
pub open spec fn spec_payload_of(s: Seq<u8>) -> Seq<u8> {
    payload_of(s)
}

/// A typed child of a MediaInformationBox.
#[derive(Clone, Debug, PartialEq, Eq)]
pub enum MediaInformationChild {
    /// A VideoMediaHeaderBox child.
    Vmhd(OpaqueBoxOwned),
    /// A SoundMediaHeaderBox child.
    Smhd(SoundMediaHeaderBoxOwned),
    /// A HintMediaHeaderBox child.
    Hmhd(OpaqueBoxOwned),
    /// A SubtitleMediaHeaderBox child.
    Sthd(OpaqueBoxOwned),
    /// A NullMediaHeaderBox child.
    Nmhd(NullMediaHeaderBoxOwned),
    /// A DataInformationBox child.
    Dinf(OpaqueBoxOwned),
    /// A SampleTableBox child.
    Stbl(OpaqueBoxOwned),
    /// An unknown or unrecognized child box.
    Other(OpaqueBoxOwned),
}

impl MediaInformationChild {
    /// The serialized bytes of the child.
    pub open spec fn spec_bytes(&self) -> Seq<u8> {
        match self {
            Self::Vmhd(b) => b.spec_data(),
            Self::Smhd(b) => b.spec_bytes(),
            Self::Hmhd(b) => b.spec_data(),
            Self::Sthd(b) => b.spec_data(),
            Self::Nmhd(b) => b.spec_bytes(),
            Self::Dinf(b) => b.spec_data(),
            Self::Stbl(b) => b.spec_data(),
            Self::Other(o) => o.spec_data(),
        }
    }

    /// The child can be serialized: its size fits in 64 bits.
    pub open spec fn spec_fits(&self) -> bool {
        true
    }

    /// Every box the child holds as raw bytes is a whole box with an explicit size.
    pub open spec fn spec_valid(&self) -> bool {
        match self {
            Self::Vmhd(o) => whole_box(o.spec_data()) && explicit_size(o.spec_data()),
            Self::Hmhd(o) => whole_box(o.spec_data()) && explicit_size(o.spec_data()),
            Self::Sthd(o) => whole_box(o.spec_data()) && explicit_size(o.spec_data()),
            Self::Dinf(o) => whole_box(o.spec_data()) && explicit_size(o.spec_data()),
            Self::Stbl(o) => whole_box(o.spec_data()) && explicit_size(o.spec_data()),
            Self::Other(o) => whole_box(o.spec_data()) && explicit_size(o.spec_data()),
            _ => true,
        }
    }

    /// The box type of the child.
    pub open spec fn spec_box_type(&self) -> BoxCode {
        match self {
            Self::Vmhd(b) => box_type_of(b.spec_data()),
            Self::Smhd(b) => smhd::BOX_TYPE,
            Self::Hmhd(b) => box_type_of(b.spec_data()),
            Self::Sthd(b) => box_type_of(b.spec_data()),
            Self::Nmhd(b) => nmhd::BOX_TYPE,
            Self::Dinf(b) => box_type_of(b.spec_data()),
            Self::Stbl(b) => box_type_of(b.spec_data()),
            Self::Other(o) => box_type_of(o.spec_data()),
        }
    }

    /// The child is what reading the child box `c` gives: the typed box where
    /// `c` has a known type and parses as it, else `c` itself as raw bytes.
    pub open spec fn spec_reads(&self, c: Seq<u8>) -> bool {
        match self {
            Self::Vmhd(o) => box_type_of(c) == VMHD_TYPE && o.spec_data() == c,
            Self::Smhd(b) => box_type_of(c) == smhd::BOX_TYPE && smhd::spec_check(c) is Ok && smhd::spec_reads(b, c),
            Self::Hmhd(o) => box_type_of(c) == HMHD_TYPE && o.spec_data() == c,
            Self::Sthd(o) => box_type_of(c) == STHD_TYPE && o.spec_data() == c,
            Self::Nmhd(b) => box_type_of(c) == nmhd::BOX_TYPE && nmhd::spec_check(c) is Ok && nmhd::spec_reads(b, c),
            Self::Dinf(o) => box_type_of(c) == DINF_TYPE && o.spec_data() == c,
            Self::Stbl(o) => box_type_of(c) == STBL_TYPE && o.spec_data() == c,
            Self::Other(o) => o.spec_data() == c
                && box_type_of(c) != VMHD_TYPE
                && !(box_type_of(c) == smhd::BOX_TYPE && smhd::spec_check(c) is Ok)
                && box_type_of(c) != HMHD_TYPE
                && box_type_of(c) != STHD_TYPE
                && !(box_type_of(c) == nmhd::BOX_TYPE && nmhd::spec_check(c) is Ok)
                && box_type_of(c) != DINF_TYPE
                && box_type_of(c) != STBL_TYPE,
        }
    }

    /// Returns the box type.
    pub fn box_type(&self) -> (r: BoxCode)
        ensures
            r == self.spec_box_type(),
    {
        match self {
            Self::Vmhd(b) => b.box_type(),
            Self::Smhd(b) => smhd::BOX_TYPE,
            Self::Hmhd(b) => b.box_type(),
            Self::Sthd(b) => b.box_type(),
            Self::Nmhd(b) => nmhd::BOX_TYPE,
            Self::Dinf(b) => b.box_type(),
            Self::Stbl(b) => b.box_type(),
            Self::Other(o) => o.box_type(),
        }
    }

    /// Returns the serialized size of the child, or `u64::MAX` when it does not fit in 64 bits.
    pub fn box_size(&self) -> (r: u64)
        ensures
            r == if self.spec_fits() { self.spec_bytes().len() as int } else { 0xffff_ffff_ffff_ffff },
    {
        match self {
            Self::Vmhd(b) => b.box_size(),
            Self::Smhd(b) => b.box_size(),
            Self::Hmhd(b) => b.box_size(),
            Self::Sthd(b) => b.box_size(),
            Self::Nmhd(b) => b.box_size(),
            Self::Dinf(b) => b.box_size(),
            Self::Stbl(b) => b.box_size(),
            Self::Other(o) => o.box_size(),
        }
    }

    /// Writes this child box to the given vector.
    pub fn write_to(&self, out: &mut Vec<u8>) -> (r: Result<(), WriteError>)
        ensures
            r is Ok <==> self.spec_fits(),
            r is Ok ==> final(out)@ == old(out)@ + self.spec_bytes(),
            r is Err ==> final(out)@ == old(out)@,
    {
        match self {
            Self::Vmhd(b) => {
                b.write_to(out);
                Ok(())
            },
            Self::Smhd(b) => b.write_to(out),
            Self::Hmhd(b) => {
                b.write_to(out);
                Ok(())
            },
            Self::Sthd(b) => {
                b.write_to(out);
                Ok(())
            },
            Self::Nmhd(b) => b.write_to(out),
            Self::Dinf(b) => {
                b.write_to(out);
                Ok(())
            },
            Self::Stbl(b) => {
                b.write_to(out);
                Ok(())
            },
            Self::Other(o) => {
                o.write_to(out);
                Ok(())
            },
        }
    }

    /// Reads the child box `raw`: as its typed box where its type is known
    /// and it parses as that type, else as raw bytes.
    pub fn from_raw(raw: &RawBox<'_>) -> (r: Self)
        ensures
            r.spec_reads(raw.spec_data()),
    {
        let t = raw.box_type();
        if t == VMHD_TYPE {
            Self::Vmhd(OpaqueBoxOwned::from_raw_box(raw))
        } else if t == smhd::BOX_TYPE {
            match SoundMediaHeaderBoxView::new(raw.data()) {
                Ok(v) => Self::Smhd(SoundMediaHeaderBoxOwned::from(&v)),
                Err(_) => Self::Other(OpaqueBoxOwned::from_raw_box(raw)),
            }
        } else if t == HMHD_TYPE {
            Self::Hmhd(OpaqueBoxOwned::from_raw_box(raw))
        } else if t == STHD_TYPE {
            Self::Sthd(OpaqueBoxOwned::from_raw_box(raw))
        } else if t == nmhd::BOX_TYPE {
            match NullMediaHeaderBoxView::new(raw.data()) {
                Ok(v) => Self::Nmhd(NullMediaHeaderBoxOwned::from(&v)),
                Err(_) => Self::Other(OpaqueBoxOwned::from_raw_box(raw)),
            }
        } else if t == DINF_TYPE {
            Self::Dinf(OpaqueBoxOwned::from_raw_box(raw))
        } else if t == STBL_TYPE {
            Self::Stbl(OpaqueBoxOwned::from_raw_box(raw))
        } else {
            Self::Other(OpaqueBoxOwned::from_raw_box(raw))
        }
    }

    /// A child that fits and is valid serializes to one whole box with an explicit size.
    pub proof fn lemma_whole(&self)
        requires
            self.spec_fits(),
            self.spec_valid(),
        ensures
            whole_box(self.spec_bytes()),
            explicit_size(self.spec_bytes()),
    {
        match self {
            Self::Smhd(b) => { smhd::lemma_roundtrip(b); },
            Self::Nmhd(b) => { nmhd::lemma_roundtrip(b); },
            _ => {},
        }
    }
}

/// Common interface for accessing MediaInformationBox data.
pub trait MediaInformationBox {
    /// Returns the total size of the box in bytes.
    fn box_size(&self) -> u64;

    /// Returns the box type.
    fn box_type(&self) -> BoxCode;
}

/// A borrowing view over raw MediaInformationBox bytes.
#[derive(Clone, Copy, Debug)]
pub struct MediaInformationBoxView<'a> {
    data: &'a [u8],
    header: BoxHeader,
}

impl<'a> MediaInformationBoxView<'a> {
    #[verifier::type_invariant]
    closed spec fn inv(&self) -> bool {
        spec_check(self.data@) == Ok::<BoxHeader, ParseError>(self.header)
    }

    /// The bytes of the box.
    pub closed spec fn spec_data(&self) -> Seq<u8> {
        self.data@
    }

    /// The child boxes of the box, each as its bytes.
    pub open spec fn spec_child_boxes(&self) -> Seq<Seq<u8>> {
        spec_children(spec_payload_of(self.spec_data()))
    }

    /// Creates a new view over the given bytes.
    pub fn new(data: &'a [u8]) -> (r: Result<Self, ParseError>)
        ensures
            match r {
                Ok(v) => v.spec_data() == data@ && spec_check(data@) is Ok,
                Err(e) => spec_check(data@) == Err::<BoxHeader, ParseError>(e),
            },
    {
        let header = BoxHeader::parse(data, data.len())?;
        header.validate(data, BOX_TYPE, 0)?;
        Ok(Self { data, header })
    }

    /// Returns the underlying byte slice.
    pub fn as_bytes(&self) -> (r: &'a [u8])
        ensures
            r@ == self.spec_data(),
    {
        self.data
    }

    /// Returns an iterator over child boxes.
    pub fn children(&self) -> (r: BoxIterator<'a>)
        ensures
            r.remaining() == self.spec_child_boxes(),
    {
        proof { use_type_invariant(self); }
        let hs = self.header.header_size as usize;
        BoxIterator::new(&self.data[hs..self.data.len()])
    }

    /// Returns the first VideoMediaHeaderBox child, if present, kept as a raw box.
    pub fn vmhd(&self) -> (r: Option<RawBox<'a>>)
        ensures
            match r {
                Some(b) => first_of_type(self.spec_child_boxes(), VMHD_TYPE) == Some(b.spec_data()),
                None => first_of_type(self.spec_child_boxes(), VMHD_TYPE) is None,
            },
    {
        self.children().find_type(VMHD_TYPE)
    }

    /// Returns the first SoundMediaHeaderBox child, if present and well formed.
    pub fn smhd(&self) -> (r: Option<SoundMediaHeaderBoxView<'a>>)
        ensures
            match first_of_type(self.spec_child_boxes(), smhd::BOX_TYPE) {
                Some(c) => match r {
                    Some(v) => smhd::spec_check(c) is Ok && v.spec_data() == c,
                    None => smhd::spec_check(c) is Err,
                },
                None => r is None,
            },
    {
        match self.children().find_type(smhd::BOX_TYPE) {
            Some(raw) => match SoundMediaHeaderBoxView::new(raw.data()) {
                Ok(v) => Some(v),
                Err(_) => None,
            },
            None => None,
        }
    }

    /// Returns the first HintMediaHeaderBox child, if present, kept as a raw box.
    pub fn hmhd(&self) -> (r: Option<RawBox<'a>>)
        ensures
            match r {
                Some(b) => first_of_type(self.spec_child_boxes(), HMHD_TYPE) == Some(b.spec_data()),
                None => first_of_type(self.spec_child_boxes(), HMHD_TYPE) is None,
            },
    {
        self.children().find_type(HMHD_TYPE)
    }

    /// Returns the first SubtitleMediaHeaderBox child, if present, kept as a raw box.
    pub fn sthd(&self) -> (r: Option<RawBox<'a>>)
        ensures
            match r {
                Some(b) => first_of_type(self.spec_child_boxes(), STHD_TYPE) == Some(b.spec_data()),
                None => first_of_type(self.spec_child_boxes(), STHD_TYPE) is None,
            },
    {
        self.children().find_type(STHD_TYPE)
    }

    /// Returns the first NullMediaHeaderBox child, if present and well formed.
    pub fn nmhd(&self) -> (r: Option<NullMediaHeaderBoxView<'a>>)
        ensures
            match first_of_type(self.spec_child_boxes(), nmhd::BOX_TYPE) {
                Some(c) => match r {
                    Some(v) => nmhd::spec_check(c) is Ok && v.spec_data() == c,
                    None => nmhd::spec_check(c) is Err,
                },
                None => r is None,
            },
    {
        match self.children().find_type(nmhd::BOX_TYPE) {
            Some(raw) => match NullMediaHeaderBoxView::new(raw.data()) {
                Ok(v) => Some(v),
                Err(_) => None,
            },
            None => None,
        }
    }

    /// Returns the first DataInformationBox child, if present, kept as a raw box.
    pub fn dinf(&self) -> (r: Option<RawBox<'a>>)
        ensures
            match r {
                Some(b) => first_of_type(self.spec_child_boxes(), DINF_TYPE) == Some(b.spec_data()),
                None => first_of_type(self.spec_child_boxes(), DINF_TYPE) is None,
            },
    {
        self.children().find_type(DINF_TYPE)
    }

    /// Returns the first SampleTableBox child, if present, kept as a raw box.
    pub fn stbl(&self) -> (r: Option<RawBox<'a>>)
        ensures
            match r {
                Some(b) => first_of_type(self.spec_child_boxes(), STBL_TYPE) == Some(b.spec_data()),
                None => first_of_type(self.spec_child_boxes(), STBL_TYPE) is None,
            },
    {
        self.children().find_type(STBL_TYPE)
    }
}

impl<'a> MediaInformationBox for MediaInformationBoxView<'a> {
    fn box_size(&self) -> (r: u64)
        ensures
            r == self.spec_data().len(),
    {
        self.data.len() as u64
    }

    fn box_type(&self) -> (r: BoxCode)
        ensures
            r == BOX_TYPE,
    {
        BOX_TYPE
    }
}

/// An owned representation of MediaInformationBox data.
#[derive(Clone, Debug, PartialEq, Eq)]
pub struct MediaInformationBoxOwned {
    /// Typed child boxes.
    pub children: Vec<MediaInformationChild>,
}

impl MediaInformationBoxOwned {
    /// The serialized bytes of each child, in order.
    pub open spec fn spec_child_bytes(&self) -> Seq<Seq<u8>> {
        self.children@.map_values(|c: MediaInformationChild| c.spec_bytes())
    }

    /// The payload: the serialized children one after another.
    pub open spec fn spec_payload(&self) -> Seq<u8> {
        self.spec_child_bytes().flatten()
    }

    /// Every child can be serialized.
    pub open spec fn spec_children_fit(&self) -> bool {
        forall|i: int| 0 <= i < self.children@.len() ==> (#[trigger] self.children@[i]).spec_fits()
    }

    /// The box can be serialized: every child fits and so does the total size.
    pub open spec fn spec_fits(&self) -> bool {
        self.spec_children_fit() && box_fits(self.spec_payload().len() as int)
    }

    /// Every child is valid.
    pub open spec fn spec_valid(&self) -> bool {
        forall|i: int| 0 <= i < self.children@.len() ==> (#[trigger] self.children@[i]).spec_valid()
    }

    /// The serialized bytes of the box.
    pub open spec fn spec_bytes(&self) -> Seq<u8> {
        box_bytes(BOX_TYPE, self.spec_payload())
    }

    /// Creates a new empty MediaInformationBoxOwned.
    pub fn new() -> (r: Self)
        ensures
            r.children@.len() == 0,
    {
        Self { children: Vec::new() }
    }

    /// Returns the payload size, or `u64::MAX` when a child does not fit or
    /// the sum does not fit below `u64::MAX`.
    fn payload_size(&self) -> (r: u64)
        ensures
            r == if self.spec_children_fit() && self.spec_payload().len() < 0xffff_ffff_ffff_ffff {
                self.spec_payload().len() as int
            } else {
                0xffff_ffff_ffff_ffff
            },
    {
        let mut acc: u64 = 0;
        let mut i: usize = 0;
        let ghost cb = self.spec_child_bytes();
        while i < self.children.len()
            invariant
                i <= self.children@.len(),
                cb == self.spec_child_bytes(),
                acc == if (forall|j: int| 0 <= j < i ==> (#[trigger] self.children@[j]).spec_fits())
                    && cb.take(i as int).flatten().len() < 0xffff_ffff_ffff_ffff {
                    cb.take(i as int).flatten().len() as int
                } else {
                    0xffff_ffff_ffff_ffff
                },
            decreases self.children@.len() - i,
        {
            let s = self.children[i].box_size();
            proof {
                assert(cb.take(i + 1) =~= cb.take(i as int).push(cb[i as int]));
                cb.take(i as int).lemma_flatten_push(cb[i as int]);
            }
            acc = saturating_add(acc, s);
            i = i + 1;
        }
        assert(cb.take(i as int) =~= cb);
        acc
    }

    /// Returns the serialized size of the box, or `u64::MAX` when it does not fit.
    fn serialized_size(&self) -> (r: u64)
        ensures
            r == if self.spec_fits() { self.spec_bytes().len() as int } else { 0xffff_ffff_ffff_ffff },
    {
        proof { if self.spec_fits() { lemma_box_roundtrip(BOX_TYPE, self.spec_payload()); } }
        saturating_box_size(self.payload_size())
    }

    /// Writes the box to the given vector.
    pub fn write_to(&self, out: &mut Vec<u8>) -> (r: Result<(), WriteError>)
        ensures
            r is Ok <==> self.spec_fits(),
            r is Ok ==> final(out)@ == old(out)@ + self.spec_bytes(),
            r is Err ==> final(out)@ == old(out)@,
    {
        let payload = self.payload_size();
        if payload == 0xffff_ffff_ffff_ffff {
            return Err(WriteError::SizeOverflow);
        }
        match begin_box(out, BOX_TYPE, payload) {
            Ok(()) => {},
            Err(e) => {
                return Err(e);
            },
        }
        let ghost start = out@;
        let ghost cb = self.spec_child_bytes();
        let mut i: usize = 0;
        while i < self.children.len()
            invariant
                i <= self.children@.len(),
                cb == self.spec_child_bytes(),
                self.spec_children_fit(),
                out@ == start + cb.take(i as int).flatten(),
            decreases self.children@.len() - i,
        {
            match self.children[i].write_to(out) {
                Ok(()) => {},
                Err(e) => {
                    return Err(e);
                },
            }
            proof {
                assert(cb.take(i + 1) =~= cb.take(i as int).push(cb[i as int]));
                cb.take(i as int).lemma_flatten_push(cb[i as int]);
            }
            i = i + 1;
        }
        assert(cb.take(i as int) =~= cb);
        Ok(())
    }

    /// Returns the first VideoMediaHeaderBox child, if present.
    pub fn vmhd(&self) -> (r: Option<&OpaqueBoxOwned>)
        ensures
            match r {
                Some(b) => exists|i: int| 0 <= i < self.children@.len() && self.children@[i] == MediaInformationChild::Vmhd(*b)
                    && forall|j: int| 0 <= j < i ==> !(self.children@[j] is Vmhd),
                None => forall|j: int| 0 <= j < self.children@.len() ==> !(self.children@[j] is Vmhd),
            },
    {
        let mut i: usize = 0;
        while i < self.children.len()
            invariant
                i <= self.children@.len(),
                forall|j: int| 0 <= j < i ==> !(self.children@[j] is Vmhd),
            decreases self.children@.len() - i,
        {
            match &self.children[i] {
                MediaInformationChild::Vmhd(b) => {
                    return Some(b);
                },
                _ => {},
            }
            i = i + 1;
        }
        None
    }

    /// Returns the first SoundMediaHeaderBox child, if present.
    pub fn smhd(&self) -> (r: Option<&SoundMediaHeaderBoxOwned>)
        ensures
            match r {
                Some(b) => exists|i: int| 0 <= i < self.children@.len() && self.children@[i] == MediaInformationChild::Smhd(*b)
                    && forall|j: int| 0 <= j < i ==> !(self.children@[j] is Smhd),
                None => forall|j: int| 0 <= j < self.children@.len() ==> !(self.children@[j] is Smhd),
            },
    {
        let mut i: usize = 0;
        while i < self.children.len()
            invariant
                i <= self.children@.len(),
                forall|j: int| 0 <= j < i ==> !(self.children@[j] is Smhd),
            decreases self.children@.len() - i,
        {
            match &self.children[i] {
                MediaInformationChild::Smhd(b) => {
                    return Some(b);
                },
                _ => {},
            }
            i = i + 1;
        }
        None
    }

    /// Returns the first HintMediaHeaderBox child, if present.
    pub fn hmhd(&self) -> (r: Option<&OpaqueBoxOwned>)
        ensures
            match r {
                Some(b) => exists|i: int| 0 <= i < self.children@.len() && self.children@[i] == MediaInformationChild::Hmhd(*b)
                    && forall|j: int| 0 <= j < i ==> !(self.children@[j] is Hmhd),
                None => forall|j: int| 0 <= j < self.children@.len() ==> !(self.children@[j] is Hmhd),
            },
    {
        let mut i: usize = 0;
        while i < self.children.len()
            invariant
                i <= self.children@.len(),
                forall|j: int| 0 <= j < i ==> !(self.children@[j] is Hmhd),
            decreases self.children@.len() - i,
        {
            match &self.children[i] {
                MediaInformationChild::Hmhd(b) => {
                    return Some(b);
                },
                _ => {},
            }
            i = i + 1;
        }
        None
    }

    /// Returns the first SubtitleMediaHeaderBox child, if present.
    pub fn sthd(&self) -> (r: Option<&OpaqueBoxOwned>)
        ensures
            match r {
                Some(b) => exists|i: int| 0 <= i < self.children@.len() && self.children@[i] == MediaInformationChild::Sthd(*b)
                    && forall|j: int| 0 <= j < i ==> !(self.children@[j] is Sthd),
                None => forall|j: int| 0 <= j < self.children@.len() ==> !(self.children@[j] is Sthd),
            },
    {
        let mut i: usize = 0;
        while i < self.children.len()
            invariant
                i <= self.children@.len(),
                forall|j: int| 0 <= j < i ==> !(self.children@[j] is Sthd),
            decreases self.children@.len() - i,
        {
            match &self.children[i] {
                MediaInformationChild::Sthd(b) => {
                    return Some(b);
                },
                _ => {},
            }
            i = i + 1;
        }
        None
    }

    /// Returns the first NullMediaHeaderBox child, if present.
    pub fn nmhd(&self) -> (r: Option<&NullMediaHeaderBoxOwned>)
        ensures
            match r {
                Some(b) => exists|i: int| 0 <= i < self.children@.len() && self.children@[i] == MediaInformationChild::Nmhd(*b)
                    && forall|j: int| 0 <= j < i ==> !(self.children@[j] is Nmhd),
                None => forall|j: int| 0 <= j < self.children@.len() ==> !(self.children@[j] is Nmhd),
            },
    {
        let mut i: usize = 0;
        while i < self.children.len()
            invariant
                i <= self.children@.len(),
                forall|j: int| 0 <= j < i ==> !(self.children@[j] is Nmhd),
            decreases self.children@.len() - i,
        {
            match &self.children[i] {
                MediaInformationChild::Nmhd(b) => {
                    return Some(b);
                },
                _ => {},
            }
            i = i + 1;
        }
        None
    }

    /// Returns the first DataInformationBox child, if present.
    pub fn dinf(&self) -> (r: Option<&OpaqueBoxOwned>)
        ensures
            match r {
                Some(b) => exists|i: int| 0 <= i < self.children@.len() && self.children@[i] == MediaInformationChild::Dinf(*b)
                    && forall|j: int| 0 <= j < i ==> !(self.children@[j] is Dinf),
                None => forall|j: int| 0 <= j < self.children@.len() ==> !(self.children@[j] is Dinf),
            },
    {
        let mut i: usize = 0;
        while i < self.children.len()
            invariant
                i <= self.children@.len(),
                forall|j: int| 0 <= j < i ==> !(self.children@[j] is Dinf),
            decreases self.children@.len() - i,
        {
            match &self.children[i] {
                MediaInformationChild::Dinf(b) => {
                    return Some(b);
                },
                _ => {},
            }
            i = i + 1;
        }
        None
    }

    /// Returns the first SampleTableBox child, if present.
    pub fn stbl(&self) -> (r: Option<&OpaqueBoxOwned>)
        ensures
            match r {
                Some(b) => exists|i: int| 0 <= i < self.children@.len() && self.children@[i] == MediaInformationChild::Stbl(*b)
                    && forall|j: int| 0 <= j < i ==> !(self.children@[j] is Stbl),
                None => forall|j: int| 0 <= j < self.children@.len() ==> !(self.children@[j] is Stbl),
            },
    {
        let mut i: usize = 0;
        while i < self.children.len()
            invariant
                i <= self.children@.len(),
                forall|j: int| 0 <= j < i ==> !(self.children@[j] is Stbl),
            decreases self.children@.len() - i,
        {
            match &self.children[i] {
                MediaInformationChild::Stbl(b) => {
                    return Some(b);
                },
                _ => {},
            }
            i = i + 1;
        }
        None
    }

    /// Adds a VideoMediaHeaderBox child.
    pub fn add_vmhd(&mut self, b: OpaqueBoxOwned)
        ensures
            final(self).children@ == old(self).children@.push(MediaInformationChild::Vmhd(b)),
    {
        self.children.push(MediaInformationChild::Vmhd(b));
    }

    /// Adds a SoundMediaHeaderBox child.
    pub fn add_smhd(&mut self, b: SoundMediaHeaderBoxOwned)
        ensures
            final(self).children@ == old(self).children@.push(MediaInformationChild::Smhd(b)),
    {
        self.children.push(MediaInformationChild::Smhd(b));
    }

    /// Adds a HintMediaHeaderBox child.
    pub fn add_hmhd(&mut self, b: OpaqueBoxOwned)
        ensures
            final(self).children@ == old(self).children@.push(MediaInformationChild::Hmhd(b)),
    {
        self.children.push(MediaInformationChild::Hmhd(b));
    }

    /// Adds a SubtitleMediaHeaderBox child.
    pub fn add_sthd(&mut self, b: OpaqueBoxOwned)
        ensures
            final(self).children@ == old(self).children@.push(MediaInformationChild::Sthd(b)),
    {
        self.children.push(MediaInformationChild::Sthd(b));
    }

    /// Adds a NullMediaHeaderBox child.
    pub fn add_nmhd(&mut self, b: NullMediaHeaderBoxOwned)
        ensures
            final(self).children@ == old(self).children@.push(MediaInformationChild::Nmhd(b)),
    {
        self.children.push(MediaInformationChild::Nmhd(b));
    }

    /// Adds a DataInformationBox child.
    pub fn add_dinf(&mut self, b: OpaqueBoxOwned)
        ensures
            final(self).children@ == old(self).children@.push(MediaInformationChild::Dinf(b)),
    {
        self.children.push(MediaInformationChild::Dinf(b));
    }

    /// Adds a SampleTableBox child.
    pub fn add_stbl(&mut self, b: OpaqueBoxOwned)
        ensures
            final(self).children@ == old(self).children@.push(MediaInformationChild::Stbl(b)),
    {
        self.children.push(MediaInformationChild::Stbl(b));
    }

    /// Creates an owned copy of the box that `source` views, reading each child.
    pub fn from(source: &MediaInformationBoxView<'_>) -> (r: Self)
        ensures
            spec_reads(&r, source.spec_data()),
    {
        proof { use_type_invariant(source); }
        let boxes = source.children().collect_boxes();
        let ghost kids = source.spec_child_boxes();
        let mut children: Vec<MediaInformationChild> = Vec::new();
        let mut i: usize = 0;
        while i < boxes.len()
            invariant
                i <= boxes@.len(),
                boxes@.len() == kids.len(),
                forall|j: int| 0 <= j < boxes@.len() ==> (#[trigger] boxes@[j]).spec_data() == kids[j],
                children@.len() == i,
                forall|j: int| 0 <= j < i ==> (#[trigger] children@[j]).spec_reads(kids[j]),
            decreases boxes@.len() - i,
        {
            children.push(MediaInformationChild::from_raw(&boxes[i]));
            i = i + 1;
        }
        Self { children }
    }
}

impl Default for MediaInformationBoxOwned {
    fn default() -> (r: Self)
        ensures
            r.children@.len() == 0,
    {
        Self::new()
    }
}

impl MediaInformationBox for MediaInformationBoxOwned {
    fn box_size(&self) -> (r: u64)
        ensures
            r == if self.spec_fits() { self.spec_bytes().len() as int } else { 0xffff_ffff_ffff_ffff },
    {
        self.serialized_size()
    }

    fn box_type(&self) -> (r: BoxCode)
        ensures
            r == BOX_TYPE,
    {
        BOX_TYPE
    }
}

/// The owned box `o` holds what reading the MediaInformationBox `s` gives: its flags,
/// one child per child box, in order, each read from that child box.
pub open spec fn spec_reads(o: &MediaInformationBoxOwned, s: Seq<u8>) -> bool {
    &&& spec_check(s) is Ok
    &&& o.children@.len() == spec_children(spec_payload_of(s)).len()
    &&& forall|i: int| 0 <= i < o.children@.len() ==> (#[trigger] o.children@[i]).spec_reads(spec_children(spec_payload_of(s))[i])
}

/// Serializing an owned box gives a box that passes the checks of its type
/// and whose child boxes read back as the serialized children, in order.
pub proof fn lemma_roundtrip(o: &MediaInformationBoxOwned)
    requires
        o.spec_fits(),
        o.spec_valid(),
    ensures
        spec_check(o.spec_bytes()) is Ok,
        spec_children(spec_payload_of(o.spec_bytes())) == o.spec_child_bytes(),
        whole_box(o.spec_bytes()),
        explicit_size(o.spec_bytes()),
{
    lemma_box_roundtrip(BOX_TYPE, o.spec_payload());
    lemma_box_bytes_whole(BOX_TYPE, o.spec_payload());
    let cs = o.spec_child_bytes();
    assert forall|i: int| 0 <= i < cs.len() implies whole_box(#[trigger] cs[i]) && explicit_size(cs[i]) by {
        o.children@[i].lemma_whole();
    }
    lemma_children_of_flatten(cs);
    assert(spec_check_box(o.spec_bytes(), BOX_TYPE, 0) is Ok);
}

} // verus!
