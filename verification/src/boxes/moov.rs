//! Movie Box (moov) parsing and serialization.
//!
//! The Movie Box is a container for all the metadata about a presentation.
//!
//! ```text
//! aligned(8) class MovieBox extends Box('moov') {
//! }
//! ```

use vstd::prelude::*;
use crate::bytes::saturating_add;
use crate::code::BoxCode;
use crate::container::{BoxIterator, OpaqueBoxOwned, RawBox, box_type_of, explicit_size, first_of_type, lemma_box_bytes_whole, lemma_children_of_flatten, lemma_fullbox_bytes_whole, spec_children, whole_box};
use crate::error::{ParseError, WriteError};
use crate::header::{BoxHeader, begin_box, box_bytes, box_fits, lemma_box_roundtrip, payload_of, saturating_box_size, spec_check_box};
use crate::boxes::mvhd::{self, MovieHeaderBox, MovieHeaderBoxOwned, MovieHeaderBoxView};
use crate::boxes::meta::{self, MetadataBox, MetadataBoxOwned, MetadataBoxView};
use crate::boxes::mvex::{self, MovieExtendsBox, MovieExtendsBoxOwned, MovieExtendsBoxView};

verus! {

broadcast use crate::bytes::group_bytes_len;

/// The box type identifier for MovieBox (`moov`).
pub const BOX_TYPE: BoxCode = 0x6d6f_6f76;

/// The box type of a TrackBox child (`trak`), which this library keeps as raw bytes.
pub const TRAK_TYPE: BoxCode = 0x7472_616b;

/// The box type of a UserDataBox child (`udta`), which this library keeps as raw bytes.
pub const UDTA_TYPE: BoxCode = 0x7564_7461;

/// The header of the MovieBox `s`, or why `s` is not one.
pub open spec fn spec_check(s: Seq<u8>) -> Result<BoxHeader, ParseError> {
    spec_check_box(s, BOX_TYPE, 0)
}

/// The payload of the box `s` that holds its child boxes.
pub open spec fn spec_payload_of(s: Seq<u8>) -> Seq<u8> {
    payload_of(s)
}

/// A typed child of a MovieBox.
#[derive(Clone, Debug, PartialEq, Eq)]
pub enum MovieChild {
    /// A MovieHeaderBox child.
    Mvhd(MovieHeaderBoxOwned),
    /// A TrackBox child.
    Trak(OpaqueBoxOwned),
    /// A MetadataBox child.
    Meta(MetadataBoxOwned),
    /// A MovieExtendsBox child.
    Mvex(MovieExtendsBoxOwned),
    /// An UserDataBox child.
    Udta(OpaqueBoxOwned),
    /// An unknown or unrecognized child box.
    Other(OpaqueBoxOwned),
}

impl MovieChild {
    /// The serialized bytes of the child.
    pub open spec fn spec_bytes(&self) -> Seq<u8> {
        match self {
            Self::Mvhd(b) => b.spec_bytes(),
            Self::Trak(b) => b.spec_data(),
            Self::Meta(b) => b.spec_bytes(),
            Self::Mvex(b) => b.spec_bytes(),
            Self::Udta(b) => b.spec_data(),
            Self::Other(o) => o.spec_data(),
        }
    }

    /// The child can be serialized: its size fits in 64 bits.
    pub open spec fn spec_fits(&self) -> bool {
        match self {
            Self::Meta(b) => b.spec_fits(),
            Self::Mvex(b) => b.spec_fits(),
            _ => true,
        }
    }

    /// Every box the child holds as raw bytes is a whole box with an explicit size.
    pub open spec fn spec_valid(&self) -> bool {
        match self {
            Self::Trak(o) => whole_box(o.spec_data()) && explicit_size(o.spec_data()),
            Self::Meta(b) => b.spec_valid(),
            Self::Mvex(b) => b.spec_valid(),
            Self::Udta(o) => whole_box(o.spec_data()) && explicit_size(o.spec_data()),
            Self::Other(o) => whole_box(o.spec_data()) && explicit_size(o.spec_data()),
            _ => true,
        }
    }

    /// The box type of the child.
    pub open spec fn spec_box_type(&self) -> BoxCode {
        match self {
            Self::Mvhd(b) => mvhd::BOX_TYPE,
            Self::Trak(b) => box_type_of(b.spec_data()),
            Self::Meta(b) => meta::BOX_TYPE,
            Self::Mvex(b) => mvex::BOX_TYPE,
            Self::Udta(b) => box_type_of(b.spec_data()),
            Self::Other(o) => box_type_of(o.spec_data()),
        }
    }

    /// The child is what reading the child box `c` gives: the typed box where
    /// `c` has a known type and parses as it, else `c` itself as raw bytes.
    pub open spec fn spec_reads(&self, c: Seq<u8>) -> bool {
        match self {
            Self::Mvhd(b) => box_type_of(c) == mvhd::BOX_TYPE && mvhd::spec_check(c) is Ok && mvhd::spec_reads(b, c),
            Self::Trak(o) => box_type_of(c) == TRAK_TYPE && o.spec_data() == c,
            Self::Meta(b) => box_type_of(c) == meta::BOX_TYPE && meta::spec_check(c) is Ok && meta::spec_reads(b, c),
            Self::Mvex(b) => box_type_of(c) == mvex::BOX_TYPE && mvex::spec_check(c) is Ok && mvex::spec_reads(b, c),
            Self::Udta(o) => box_type_of(c) == UDTA_TYPE && o.spec_data() == c,
            Self::Other(o) => o.spec_data() == c
                && !(box_type_of(c) == mvhd::BOX_TYPE && mvhd::spec_check(c) is Ok)
                && box_type_of(c) != TRAK_TYPE
                && !(box_type_of(c) == meta::BOX_TYPE && meta::spec_check(c) is Ok)
                && !(box_type_of(c) == mvex::BOX_TYPE && mvex::spec_check(c) is Ok)
                && box_type_of(c) != UDTA_TYPE,
        }
    }

    /// Returns the box type.
    pub fn box_type(&self) -> (r: BoxCode)
        ensures
            r == self.spec_box_type(),
    {
        match self {
            Self::Mvhd(b) => mvhd::BOX_TYPE,
            Self::Trak(b) => b.box_type(),
            Self::Meta(b) => meta::BOX_TYPE,
            Self::Mvex(b) => mvex::BOX_TYPE,
            Self::Udta(b) => b.box_type(),
            Self::Other(o) => o.box_type(),
        }
    }

    /// Returns the serialized size of the child, or `u64::MAX` when it does not fit in 64 bits.
    pub fn box_size(&self) -> (r: u64)
        ensures
            r == if self.spec_fits() { self.spec_bytes().len() as int } else { 0xffff_ffff_ffff_ffff },
    {
        match self {
            Self::Mvhd(b) => b.box_size(),
            Self::Trak(b) => b.box_size(),
            Self::Meta(b) => b.box_size(),
            Self::Mvex(b) => b.box_size(),
            Self::Udta(b) => b.box_size(),
            Self::Other(o) => o.box_size(),
        }
    }

    /// Writes this child box to the given vector.
    pub fn write_to(&self, out: &mut Vec<u8>) -> (r: Result<(), WriteError>)
        ensures
            r is Ok <==> self.spec_fits(),
            r is Ok ==> final(out)@ == old(out)@ + self.spec_bytes(),
            r is Err ==> final(out)@ == old(out)@,
    {
        match self {
            Self::Mvhd(b) => b.write_to(out),
            Self::Trak(b) => {
                b.write_to(out);
                Ok(())
            },
            Self::Meta(b) => b.write_to(out),
            Self::Mvex(b) => b.write_to(out),
            Self::Udta(b) => {
                b.write_to(out);
                Ok(())
            },
            Self::Other(o) => {
                o.write_to(out);
                Ok(())
            },
        }
    }

    /// Reads the child box `raw`: as its typed box where its type is known
    /// and it parses as that type, else as raw bytes.
    pub fn from_raw(raw: &RawBox<'_>) -> (r: Self)
        ensures
            r.spec_reads(raw.spec_data()),
    {
        let t = raw.box_type();
        if t == mvhd::BOX_TYPE {
            match MovieHeaderBoxView::new(raw.data()) {
                Ok(v) => Self::Mvhd(MovieHeaderBoxOwned::from(&v)),
                Err(_) => Self::Other(OpaqueBoxOwned::from_raw_box(raw)),
            }
        } else if t == TRAK_TYPE {
            Self::Trak(OpaqueBoxOwned::from_raw_box(raw))
        } else if t == meta::BOX_TYPE {
            match MetadataBoxView::new(raw.data()) {
                Ok(v) => Self::Meta(MetadataBoxOwned::from(&v)),
                Err(_) => Self::Other(OpaqueBoxOwned::from_raw_box(raw)),
            }
        } else if t == mvex::BOX_TYPE {
            match MovieExtendsBoxView::new(raw.data()) {
                Ok(v) => Self::Mvex(MovieExtendsBoxOwned::from(&v)),
                Err(_) => Self::Other(OpaqueBoxOwned::from_raw_box(raw)),
            }
        } else if t == UDTA_TYPE {
            Self::Udta(OpaqueBoxOwned::from_raw_box(raw))
        } else {
            Self::Other(OpaqueBoxOwned::from_raw_box(raw))
        }
    }

    /// A child that fits and is valid serializes to one whole box with an explicit size.
    pub proof fn lemma_whole(&self)
        requires
            self.spec_fits(),
            self.spec_valid(),
        ensures
            whole_box(self.spec_bytes()),
            explicit_size(self.spec_bytes()),
    {
        match self {
            Self::Mvhd(b) => { mvhd::lemma_roundtrip(b); },
            Self::Meta(b) => { meta::lemma_roundtrip(b); },
            Self::Mvex(b) => { mvex::lemma_roundtrip(b); },
            _ => {},
        }
    }
}

/// Common interface for accessing MovieBox data.
pub trait MovieBox {
    /// Returns the total size of the box in bytes.
    fn box_size(&self) -> u64;

    /// Returns the box type.
    fn box_type(&self) -> BoxCode;
}

/// A borrowing view over raw MovieBox bytes.
#[derive(Clone, Copy, Debug)]
pub struct MovieBoxView<'a> {
    data: &'a [u8],
    header: BoxHeader,
}

impl<'a> MovieBoxView<'a> {
    #[verifier::type_invariant]
    closed spec fn inv(&self) -> bool {
        spec_check(self.data@) == Ok::<BoxHeader, ParseError>(self.header)
    }

    /// The bytes of the box.
    pub closed spec fn spec_data(&self) -> Seq<u8> {
        self.data@
    }

    /// The child boxes of the box, each as its bytes.
    pub open spec fn spec_child_boxes(&self) -> Seq<Seq<u8>> {
        spec_children(spec_payload_of(self.spec_data()))
    }

    /// Creates a new view over the given bytes.
    pub fn new(data: &'a [u8]) -> (r: Result<Self, ParseError>)
        ensures
            match r {
                Ok(v) => v.spec_data() == data@ && spec_check(data@) is Ok,
                Err(e) => spec_check(data@) == Err::<BoxHeader, ParseError>(e),
            },
    {
        let header = BoxHeader::parse(data, data.len())?;
        header.validate(data, BOX_TYPE, 0)?;
        Ok(Self { data, header })
    }

    /// Returns the underlying byte slice.
    pub fn as_bytes(&self) -> (r: &'a [u8])
        ensures
            r@ == self.spec_data(),
    {
        self.data
    }

    /// Returns an iterator over child boxes.
    pub fn children(&self) -> (r: BoxIterator<'a>)
        ensures
            r.remaining() == self.spec_child_boxes(),
    {
        proof { use_type_invariant(self); }
        let hs = self.header.header_size as usize;
        BoxIterator::new(&self.data[hs..self.data.len()])
    }

    /// Returns the first MovieHeaderBox child, if present and well formed.
    pub fn mvhd(&self) -> (r: Option<MovieHeaderBoxView<'a>>)
        ensures
            match first_of_type(self.spec_child_boxes(), mvhd::BOX_TYPE) {
                Some(c) => match r {
                    Some(v) => mvhd::spec_check(c) is Ok && v.spec_data() == c,
                    None => mvhd::spec_check(c) is Err,
                },
                None => r is None,
            },
    {
        match self.children().find_type(mvhd::BOX_TYPE) {
            Some(raw) => match MovieHeaderBoxView::new(raw.data()) {
                Ok(v) => Some(v),
                Err(_) => None,
            },
            None => None,
        }
    }

    /// Returns the TrackBox children, kept as raw boxes.
    pub fn trak(&self) -> (r: Vec<RawBox<'a>>)
        ensures
            r@.len() == self.spec_child_boxes().filter(|c: Seq<u8>| box_type_of(c) == TRAK_TYPE).len(),
            forall|i: int| 0 <= i < r@.len() ==> (#[trigger] r@[i]).spec_data()
                == self.spec_child_boxes().filter(|c: Seq<u8>| box_type_of(c) == TRAK_TYPE)[i],
    {
        self.children().filter_type(TRAK_TYPE)
    }

    /// Returns the first MetadataBox child, if present and well formed.
    pub fn meta(&self) -> (r: Option<MetadataBoxView<'a>>)
        ensures
            match first_of_type(self.spec_child_boxes(), meta::BOX_TYPE) {
                Some(c) => match r {
                    Some(v) => meta::spec_check(c) is Ok && v.spec_data() == c,
                    None => meta::spec_check(c) is Err,
                },
                None => r is None,
            },
    {
        match self.children().find_type(meta::BOX_TYPE) {
            Some(raw) => match MetadataBoxView::new(raw.data()) {
                Ok(v) => Some(v),
                Err(_) => None,
            },
            None => None,
        }
    }

    /// Returns the first MovieExtendsBox child, if present and well formed.
    pub fn mvex(&self) -> (r: Option<MovieExtendsBoxView<'a>>)
        ensures
            match first_of_type(self.spec_child_boxes(), mvex::BOX_TYPE) {
                Some(c) => match r {
                    Some(v) => mvex::spec_check(c) is Ok && v.spec_data() == c,
                    None => mvex::spec_check(c) is Err,
                },
                None => r is None,
            },
    {
        match self.children().find_type(mvex::BOX_TYPE) {
            Some(raw) => match MovieExtendsBoxView::new(raw.data()) {
                Ok(v) => Some(v),
                Err(_) => None,
            },
            None => None,
        }
    }

    /// Returns the first UserDataBox child, if present, kept as a raw box.
    pub fn udta(&self) -> (r: Option<RawBox<'a>>)
        ensures
            match r {
                Some(b) => first_of_type(self.spec_child_boxes(), UDTA_TYPE) == Some(b.spec_data()),
                None => first_of_type(self.spec_child_boxes(), UDTA_TYPE) is None,
            },
    {
        self.children().find_type(UDTA_TYPE)
    }
}

impl<'a> MovieBox for MovieBoxView<'a> {
    fn box_size(&self) -> (r: u64)
        ensures
            r == self.spec_data().len(),
    {
        self.data.len() as u64
    }

    fn box_type(&self) -> (r: BoxCode)
        ensures
            r == BOX_TYPE,
    {
        BOX_TYPE
    }
}

/// An owned representation of MovieBox data.
#[derive(Clone, Debug, PartialEq, Eq)]
pub struct MovieBoxOwned {
    /// Typed child boxes.
    pub children: Vec<MovieChild>,
}

impl MovieBoxOwned {
    /// The serialized bytes of each child, in order.
    pub open spec fn spec_child_bytes(&self) -> Seq<Seq<u8>> {
        self.children@.map_values(|c: MovieChild| c.spec_bytes())
    }

    /// The payload: the serialized children one after another.
    pub open spec fn spec_payload(&self) -> Seq<u8> {
        self.spec_child_bytes().flatten()
    }

    /// Every child can be serialized.
    pub open spec fn spec_children_fit(&self) -> bool {
        forall|i: int| 0 <= i < self.children@.len() ==> (#[trigger] self.children@[i]).spec_fits()
    }

    /// The box can be serialized: every child fits and so does the total size.
    pub open spec fn spec_fits(&self) -> bool {
        self.spec_children_fit() && box_fits(self.spec_payload().len() as int)
    }

    /// Every child is valid.
    pub open spec fn spec_valid(&self) -> bool {
        forall|i: int| 0 <= i < self.children@.len() ==> (#[trigger] self.children@[i]).spec_valid()
    }

    /// The serialized bytes of the box.
    pub open spec fn spec_bytes(&self) -> Seq<u8> {
        box_bytes(BOX_TYPE, self.spec_payload())
    }

    /// Creates a new empty MovieBoxOwned.
    pub fn new() -> (r: Self)
        ensures
            r.children@.len() == 0,
    {
        Self { children: Vec::new() }
    }

    /// Returns the payload size, or `u64::MAX` when a child does not fit or
    /// the sum does not fit below `u64::MAX`.
    fn payload_size(&self) -> (r: u64)
        ensures
            r == if self.spec_children_fit() && self.spec_payload().len() < 0xffff_ffff_ffff_ffff {
                self.spec_payload().len() as int
            } else {
                0xffff_ffff_ffff_ffff
            },
    {
        let mut acc: u64 = 0;
        let mut i: usize = 0;
        let ghost cb = self.spec_child_bytes();
        while i < self.children.len()
            invariant
                i <= self.children@.len(),
                cb == self.spec_child_bytes(),
                acc == if (forall|j: int| 0 <= j < i ==> (#[trigger] self.children@[j]).spec_fits())
                    && cb.take(i as int).flatten().len() < 0xffff_ffff_ffff_ffff {
                    cb.take(i as int).flatten().len() as int
                } else {
                    0xffff_ffff_ffff_ffff
                },
            decreases self.children@.len() - i,
        {
            let s = self.children[i].box_size();
            proof {
                assert(cb.take(i + 1) =~= cb.take(i as int).push(cb[i as int]));
                cb.take(i as int).lemma_flatten_push(cb[i as int]);
            }
            acc = saturating_add(acc, s);
            i = i + 1;
        }
        assert(cb.take(i as int) =~= cb);
        acc
    }

    /// Returns the serialized size of the box, or `u64::MAX` when it does not fit.
    fn serialized_size(&self) -> (r: u64)
        ensures
            r == if self.spec_fits() { self.spec_bytes().len() as int } else { 0xffff_ffff_ffff_ffff },
    {
        proof { if self.spec_fits() { lemma_box_roundtrip(BOX_TYPE, self.spec_payload()); } }
        saturating_box_size(self.payload_size())
    }

    /// Writes the box to the given vector.
    pub fn write_to(&self, out: &mut Vec<u8>) -> (r: Result<(), WriteError>)
        ensures
            r is Ok <==> self.spec_fits(),
            r is Ok ==> final(out)@ == old(out)@ + self.spec_bytes(),
            r is Err ==> final(out)@ == old(out)@,
    {
        let payload = self.payload_size();
        if payload == 0xffff_ffff_ffff_ffff {
            return Err(WriteError::SizeOverflow);
        }
        match begin_box(out, BOX_TYPE, payload) {
            Ok(()) => {},
            Err(e) => {
                return Err(e);
            },
        }
        let ghost start = out@;
        let ghost cb = self.spec_child_bytes();
        let mut i: usize = 0;
        while i < self.children.len()
            invariant
                i <= self.children@.len(),
                cb == self.spec_child_bytes(),
                self.spec_children_fit(),
                out@ == start + cb.take(i as int).flatten(),
            decreases self.children@.len() - i,
        {
            match self.children[i].write_to(out) {
                Ok(()) => {},
                Err(e) => {
                    return Err(e);
                },
            }
            proof {
                assert(cb.take(i + 1) =~= cb.take(i as int).push(cb[i as int]));
                cb.take(i as int).lemma_flatten_push(cb[i as int]);
            }
            i = i + 1;
        }
        assert(cb.take(i as int) =~= cb);
        Ok(())
    }

    /// Returns the first MovieHeaderBox child, if present.
    pub fn mvhd(&self) -> (r: Option<&MovieHeaderBoxOwned>)
        ensures
            match r {
                Some(b) => exists|i: int| 0 <= i < self.children@.len() && self.children@[i] == MovieChild::Mvhd(*b)
                    && forall|j: int| 0 <= j < i ==> !(self.children@[j] is Mvhd),
                None => forall|j: int| 0 <= j < self.children@.len() ==> !(self.children@[j] is Mvhd),
            },
    {
        let mut i: usize = 0;
        while i < self.children.len()
            invariant
                i <= self.children@.len(),
                forall|j: int| 0 <= j < i ==> !(self.children@[j] is Mvhd),
            decreases self.children@.len() - i,
        {
            match &self.children[i] {
                MovieChild::Mvhd(b) => {
                    return Some(b);
                },
                _ => {},
            }
            i = i + 1;
        }
        None
    }

    /// The TrackBox children, in order.
    pub open spec fn spec_trak(&self) -> Seq<OpaqueBoxOwned> {
        self.children@.filter(|c: MovieChild| c is Trak).map_values(|c: MovieChild| c->Trak_0)
    }

    /// Returns the TrackBox children.
    pub fn trak(&self) -> (r: Vec<&OpaqueBoxOwned>)
        ensures
            r@.len() == self.spec_trak().len(),
            forall|i: int| 0 <= i < r@.len() ==> *(#[trigger] r@[i]) == self.spec_trak()[i],
    {
        let mut r: Vec<&OpaqueBoxOwned> = Vec::new();
        let mut i: usize = 0;
        let ghost pred = |c: MovieChild| c is Trak;
        while i < self.children.len()
            invariant
                i <= self.children@.len(),
                pred == (|c: MovieChild| c is Trak),
                r@.len() == self.children@.take(i as int).filter(pred).len(),
                forall|j: int| 0 <= j < r@.len() ==> *(#[trigger] r@[j]) == self.children@.take(i as int).filter(pred)[j]->Trak_0,
            decreases self.children@.len() - i,
        {
            proof {
                assert(self.children@.take(i + 1) =~= self.children@.take(i as int).push(self.children@[i as int]));
                self.children@.take(i as int).lemma_filter_push(self.children@[i as int], pred);
            }
            match &self.children[i] {
                MovieChild::Trak(b) => {
                    r.push(b);
                },
                _ => {},
            }
            i = i + 1;
        }
        assert(self.children@.take(i as int) =~= self.children@);
        r
    }

    /// Returns the first MetadataBox child, if present.
    pub fn meta(&self) -> (r: Option<&MetadataBoxOwned>)
        ensures
            match r {
                Some(b) => exists|i: int| 0 <= i < self.children@.len() && self.children@[i] == MovieChild::Meta(*b)
                    && forall|j: int| 0 <= j < i ==> !(self.children@[j] is Meta),
                None => forall|j: int| 0 <= j < self.children@.len() ==> !(self.children@[j] is Meta),
            },
    {
        let mut i: usize = 0;
        while i < self.children.len()
            invariant
                i <= self.children@.len(),
                forall|j: int| 0 <= j < i ==> !(self.children@[j] is Meta),
            decreases self.children@.len() - i,
        {
            match &self.children[i] {
                MovieChild::Meta(b) => {
                    return Some(b);
                },
                _ => {},
            }
            i = i + 1;
        }
        None
    }

    /// Returns the first MovieExtendsBox child, if present.
    pub fn mvex(&self) -> (r: Option<&MovieExtendsBoxOwned>)
        ensures
            match r {
                Some(b) => exists|i: int| 0 <= i < self.children@.len() && self.children@[i] == MovieChild::Mvex(*b)
                    && forall|j: int| 0 <= j < i ==> !(self.children@[j] is Mvex),
                None => forall|j: int| 0 <= j < self.children@.len() ==> !(self.children@[j] is Mvex),
            },
    {
        let mut i: usize = 0;
        while i < self.children.len()
            invariant
                i <= self.children@.len(),
                forall|j: int| 0 <= j < i ==> !(self.children@[j] is Mvex),
            decreases self.children@.len() - i,
        {
            match &self.children[i] {
                MovieChild::Mvex(b) => {
                    return Some(b);
                },
                _ => {},
            }
            i = i + 1;
        }
        None
    }

    /// Returns the first UserDataBox child, if present.
    pub fn udta(&self) -> (r: Option<&OpaqueBoxOwned>)
        ensures
            match r {
                Some(b) => exists|i: int| 0 <= i < self.children@.len() && self.children@[i] == MovieChild::Udta(*b)
                    && forall|j: int| 0 <= j < i ==> !(self.children@[j] is Udta),
                None => forall|j: int| 0 <= j < self.children@.len() ==> !(self.children@[j] is Udta),
            },
    {
        let mut i: usize = 0;
        while i < self.children.len()
            invariant
                i <= self.children@.len(),
                forall|j: int| 0 <= j < i ==> !(self.children@[j] is Udta),
            decreases self.children@.len() - i,
        {
            match &self.children[i] {
                MovieChild::Udta(b) => {
                    return Some(b);
                },
                _ => {},
            }
            i = i + 1;
        }
        None
    }

    /// Adds a MovieHeaderBox child.
    pub fn add_mvhd(&mut self, b: MovieHeaderBoxOwned)
        ensures
            final(self).children@ == old(self).children@.push(MovieChild::Mvhd(b)),
    {
        self.children.push(MovieChild::Mvhd(b));
    }

    /// Adds a TrackBox child.
    pub fn add_trak(&mut self, b: OpaqueBoxOwned)
        ensures
            final(self).children@ == old(self).children@.push(MovieChild::Trak(b)),
    {
        self.children.push(MovieChild::Trak(b));
    }

    /// Adds a MetadataBox child.
    pub fn add_meta(&mut self, b: MetadataBoxOwned)
        ensures
            final(self).children@ == old(self).children@.push(MovieChild::Meta(b)),
    {
        self.children.push(MovieChild::Meta(b));
    }

    /// Adds a MovieExtendsBox child.
    pub fn add_mvex(&mut self, b: MovieExtendsBoxOwned)
        ensures
            final(self).children@ == old(self).children@.push(MovieChild::Mvex(b)),
    {
        self.children.push(MovieChild::Mvex(b));
    }

    /// Adds an UserDataBox child.
    pub fn add_udta(&mut self, b: OpaqueBoxOwned)
        ensures
            final(self).children@ == old(self).children@.push(MovieChild::Udta(b)),
    {
        self.children.push(MovieChild::Udta(b));
    }

    /// Creates an owned copy of the box that `source` views, reading each child.
    pub fn from(source: &MovieBoxView<'_>) -> (r: Self)
        ensures
            spec_reads(&r, source.spec_data()),
    {
        proof { use_type_invariant(source); }
        let boxes = source.children().collect_boxes();
        let ghost kids = source.spec_child_boxes();
        let mut children: Vec<MovieChild> = Vec::new();
        let mut i: usize = 0;
        while i < boxes.len()
            invariant
                i <= boxes@.len(),
                boxes@.len() == kids.len(),
                forall|j: int| 0 <= j < boxes@.len() ==> (#[trigger] boxes@[j]).spec_data() == kids[j],
                children@.len() == i,
                forall|j: int| 0 <= j < i ==> (#[trigger] children@[j]).spec_reads(kids[j]),
            decreases boxes@.len() - i,
        {
            children.push(MovieChild::from_raw(&boxes[i]));
            i = i + 1;
        }
        Self { children }
    }
}

impl Default for MovieBoxOwned {
    fn default() -> (r: Self)
        ensures
            r.children@.len() == 0,
    {
        Self::new()
    }
}

impl MovieBox for MovieBoxOwned {
    fn box_size(&self) -> (r: u64)
        ensures
            r == if self.spec_fits() { self.spec_bytes().len() as int } else { 0xffff_ffff_ffff_ffff },
    {
        self.serialized_size()
    }

    fn box_type(&self) -> (r: BoxCode)
        ensures
            r == BOX_TYPE,
    {
        BOX_TYPE
    }
}

/// The owned box `o` holds what reading the MovieBox `s` gives: its flags,
/// one child per child box, in order, each read from that child box.
pub open spec fn spec_reads(o: &MovieBoxOwned, s: Seq<u8>) -> bool {
    &&& spec_check(s) is Ok
    &&& o.children@.len() == spec_children(spec_payload_of(s)).len()
    &&& forall|i: int| 0 <= i < o.children@.len() ==> (#[trigger] o.children@[i]).spec_reads(spec_children(spec_payload_of(s))[i])
}

/// Serializing an owned box gives a box that passes the checks of its type
/// and whose child boxes read back as the serialized children, in order.
pub proof fn lemma_roundtrip(o: &MovieBoxOwned)
    requires
        o.spec_fits(),
        o.spec_valid(),
    ensures
        spec_check(o.spec_bytes()) is Ok,
        spec_children(spec_payload_of(o.spec_bytes())) == o.spec_child_bytes(),
        whole_box(o.spec_bytes()),
        explicit_size(o.spec_bytes()),
{
    lemma_box_roundtrip(BOX_TYPE, o.spec_payload());
    lemma_box_bytes_whole(BOX_TYPE, o.spec_payload());
    let cs = o.spec_child_bytes();
    assert forall|i: int| 0 <= i < cs.len() implies whole_box(#[trigger] cs[i]) && explicit_size(cs[i]) by {
        o.children@[i].lemma_whole();
    }
    lemma_children_of_flatten(cs);
    assert(spec_check_box(o.spec_bytes(), BOX_TYPE, 0) is Ok);
}

} // verus!
