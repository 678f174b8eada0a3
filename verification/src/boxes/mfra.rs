//! Movie Fragment Random Access Box (mfra) parsing and serialization.
//!
//! The Movie Fragment Random Access Box provides random access points
//! within a fragmented movie.
//!
//! ```text
//! aligned(8) class MovieFragmentRandomAccessBox
//!    extends Box('mfra') {
//! }
//! ```

use vstd::prelude::*;
use crate::bytes::saturating_add;
use crate::code::BoxCode;
use crate::container::{BoxIterator, OpaqueBoxOwned, RawBox, box_type_of, explicit_size, first_of_type, lemma_box_bytes_whole, lemma_children_of_flatten, lemma_fullbox_bytes_whole, spec_children, whole_box};
use crate::error::{ParseError, WriteError};
use crate::header::{BoxHeader, begin_box, box_bytes, box_fits, lemma_box_roundtrip, payload_of, saturating_box_size, spec_check_box};
use crate::boxes::mfro::{self, MovieFragmentRandomAccessOffsetBox, MovieFragmentRandomAccessOffsetBoxOwned, MovieFragmentRandomAccessOffsetBoxView};

verus! {

broadcast use crate::bytes::group_bytes_len;

/// The box type identifier for MovieFragmentRandomAccessBox (`mfra`).
pub const BOX_TYPE: BoxCode = 0x6d66_7261;

/// The box type of a TrackFragmentRandomAccessBox child (`tfra`), which this library keeps as raw bytes.
pub const TFRA_TYPE: BoxCode = 0x7466_7261;

/// The header of the MovieFragmentRandomAccessBox `s`, or why `s` is not one.
pub open spec fn spec_check(s: Seq<u8>) -> Result<BoxHeader, ParseError> {
    spec_check_box(s, BOX_TYPE, 0)
}

/// The payload of the box `s` that holds its child boxes.
pub open spec fn spec_payload_of(s: Seq<u8>) -> Seq<u8> {
    payload_of(s)
}

/// A typed child of a MovieFragmentRandomAccessBox.
#[derive(Clone, Debug, PartialEq, Eq)]
pub enum MovieFragmentRandomAccessChild {
    /// A TrackFragmentRandomAccessBox child.
    Tfra(OpaqueBoxOwned),
    /// A MovieFragmentRandomAccessOffsetBox child.
    Mfro(MovieFragmentRandomAccessOffsetBoxOwned),
    /// An unknown or unrecognized child box.
    Other(OpaqueBoxOwned),
}

impl MovieFragmentRandomAccessChild {
    /// The serialized bytes of the child.
    pub open spec fn spec_bytes(&self) -> Seq<u8> {
        match self {
            Self::Tfra(b) => b.spec_data(),
            Self::Mfro(b) => b.spec_bytes(),
            Self::Other(o) => o.spec_data(),
        }
    }

    /// The child can be serialized: its size fits in 64 bits.
    pub open spec fn spec_fits(&self) -> bool {
        true
    }

    /// Every box the child holds as raw bytes is a whole box with an explicit size.
    pub open spec fn spec_valid(&self) -> bool {
        match self {
            Self::Tfra(o) => whole_box(o.spec_data()) && explicit_size(o.spec_data()),
            Self::Other(o) => whole_box(o.spec_data()) && explicit_size(o.spec_data()),
            _ => true,
        }
    }

    /// The box type of the child.
    pub open spec fn spec_box_type(&self) -> BoxCode {
        match self {
            Self::Tfra(b) => box_type_of(b.spec_data()),
            Self::Mfro(b) => mfro::BOX_TYPE,
            Self::Other(o) => box_type_of(o.spec_data()),
        }
    }

    /// The child is what reading the child box `c` gives: the typed box where
    /// `c` has a known type and parses as it, else `c` itself as raw bytes.
    pub open spec fn spec_reads(&self, c: Seq<u8>) -> bool {
        match self {
            Self::Tfra(o) => box_type_of(c) == TFRA_TYPE && o.spec_data() == c,
            Self::Mfro(b) => box_type_of(c) == mfro::BOX_TYPE && mfro::spec_check(c) is Ok && mfro::spec_reads(b, c),
            Self::Other(o) => o.spec_data() == c
                && box_type_of(c) != TFRA_TYPE
                && !(box_type_of(c) == mfro::BOX_TYPE && mfro::spec_check(c) is Ok),
        }
    }

    /// Returns the box type.
    pub fn box_type(&self) -> (r: BoxCode)
        ensures
            r == self.spec_box_type(),
    {
        match self {
            Self::Tfra(b) => b.box_type(),
            Self::Mfro(b) => mfro::BOX_TYPE,
            Self::Other(o) => o.box_type(),
        }
    }

    /// Returns the serialized size of the child, or `u64::MAX` when it does not fit in 64 bits.
    pub fn box_size(&self) -> (r: u64)
        ensures
            r == if self.spec_fits() { self.spec_bytes().len() as int } else { 0xffff_ffff_ffff_ffff },
    {
        match self {
            Self::Tfra(b) => b.box_size(),
            Self::Mfro(b) => b.box_size(),
            Self::Other(o) => o.box_size(),
        }
    }

    /// Writes this child box to the given vector.
    pub fn write_to(&self, out: &mut Vec<u8>) -> (r: Result<(), WriteError>)
        ensures
            r is Ok <==> self.spec_fits(),
            r is Ok ==> final(out)@ == old(out)@ + self.spec_bytes(),
            r is Err ==> final(out)@ == old(out)@,
    {
        match self {
            Self::Tfra(b) => {
                b.write_to(out);
                Ok(())
            },
            Self::Mfro(b) => b.write_to(out),
            Self::Other(o) => {
                o.write_to(out);
                Ok(())
            },
        }
    }

    /// Reads the child box `raw`: as its typed box where its type is known
    /// and it parses as that type, else as raw bytes.
    pub fn from_raw(raw: &RawBox<'_>) -> (r: Self)
        ensures
            r.spec_reads(raw.spec_data()),
    {
        let t = raw.box_type();
        if t == TFRA_TYPE {
            Self::Tfra(OpaqueBoxOwned::from_raw_box(raw))
        } else if t == mfro::BOX_TYPE {
            match MovieFragmentRandomAccessOffsetBoxView::new(raw.data()) {
                Ok(v) => Self::Mfro(MovieFragmentRandomAccessOffsetBoxOwned::from(&v)),
                Err(_) => Self::Other(OpaqueBoxOwned::from_raw_box(raw)),
            }
        } else {
            Self::Other(OpaqueBoxOwned::from_raw_box(raw))
        }
    }

    /// A child that fits and is valid serializes to one whole box with an explicit size.
    pub proof fn lemma_whole(&self)
        requires
            self.spec_fits(),
            self.spec_valid(),
        ensures
            whole_box(self.spec_bytes()),
            explicit_size(self.spec_bytes()),
    {
        match self {
            Self::Mfro(b) => { mfro::lemma_roundtrip(b); },
            _ => {},
        }
    }
}

/// Common interface for accessing MovieFragmentRandomAccessBox data.
pub trait MovieFragmentRandomAccessBox {
    /// Returns the total size of the box in bytes.
    fn box_size(&self) -> u64;

    /// Returns the box type.
    fn box_type(&self) -> BoxCode;
}

/// A borrowing view over raw MovieFragmentRandomAccessBox bytes.
#[derive(Clone, Copy, Debug)]
pub struct MovieFragmentRandomAccessBoxView<'a> {
    data: &'a [u8],
    header: BoxHeader,
}

impl<'a> MovieFragmentRandomAccessBoxView<'a> {
    #[verifier::type_invariant]
    closed spec fn inv(&self) -> bool {
        spec_check(self.data@) == Ok::<BoxHeader, ParseError>(self.header)
    }

    /// The bytes of the box.
    pub closed spec fn spec_data(&self) -> Seq<u8> {
        self.data@
    }

    /// The child boxes of the box, each as its bytes.
    pub open spec fn spec_child_boxes(&self) -> Seq<Seq<u8>> {
        spec_children(spec_payload_of(self.spec_data()))
    }

    /// Creates a new view over the given bytes.
    pub fn new(data: &'a [u8]) -> (r: Result<Self, ParseError>)
        ensures
            match r {
                Ok(v) => v.spec_data() == data@ && spec_check(data@) is Ok,
                Err(e) => spec_check(data@) == Err::<BoxHeader, ParseError>(e),
            },
    {
        let header = BoxHeader::parse(data, data.len())?;
        header.validate(data, BOX_TYPE, 0)?;
        Ok(Self { data, header })
    }

    /// Returns the underlying byte slice.
    pub fn as_bytes(&self) -> (r: &'a [u8])
        ensures
            r@ == self.spec_data(),
    {
        self.data
    }

    /// Returns an iterator over child boxes.
    pub fn children(&self) -> (r: BoxIterator<'a>)
        ensures
            r.remaining() == self.spec_child_boxes(),
    {
        proof { use_type_invariant(self); }
        let hs = self.header.header_size as usize;
        BoxIterator::new(&self.data[hs..self.data.len()])
    }

    /// Returns the TrackFragmentRandomAccessBox children, kept as raw boxes.
    pub fn tfras(&self) -> (r: Vec<RawBox<'a>>)
        ensures
            r@.len() == self.spec_child_boxes().filter(|c: Seq<u8>| box_type_of(c) == TFRA_TYPE).len(),
            forall|i: int| 0 <= i < r@.len() ==> (#[trigger] r@[i]).spec_data()
                == self.spec_child_boxes().filter(|c: Seq<u8>| box_type_of(c) == TFRA_TYPE)[i],
    {
        self.children().filter_type(TFRA_TYPE)
    }

    /// Returns the first MovieFragmentRandomAccessOffsetBox child, if present and well formed.
    pub fn mfro(&self) -> (r: Option<MovieFragmentRandomAccessOffsetBoxView<'a>>)
        ensures
            match first_of_type(self.spec_child_boxes(), mfro::BOX_TYPE) {
                Some(c) => match r {
                    Some(v) => mfro::spec_check(c) is Ok && v.spec_data() == c,
                    None => mfro::spec_check(c) is Err,
                },
                None => r is None,
            },
    {
        match self.children().find_type(mfro::BOX_TYPE) {
            Some(raw) => match MovieFragmentRandomAccessOffsetBoxView::new(raw.data()) {
                Ok(v) => Some(v),
                Err(_) => None,
            },
            None => None,
        }
    }
}

impl<'a> MovieFragmentRandomAccessBox for MovieFragmentRandomAccessBoxView<'a> {
    fn box_size(&self) -> (r: u64)
        ensures
            r == self.spec_data().len(),
    {
        self.data.len() as u64
    }

    fn box_type(&self) -> (r: BoxCode)
        ensures
            r == BOX_TYPE,
    {
        BOX_TYPE
    }
}

/// An owned representation of MovieFragmentRandomAccessBox data.
#[derive(Clone, Debug, PartialEq, Eq)]
pub struct MovieFragmentRandomAccessBoxOwned {
    /// Typed child boxes.
    pub children: Vec<MovieFragmentRandomAccessChild>,
}

impl MovieFragmentRandomAccessBoxOwned {
    /// The serialized bytes of each child, in order.
    pub open spec fn spec_child_bytes(&self) -> Seq<Seq<u8>> {
        self.children@.map_values(|c: MovieFragmentRandomAccessChild| c.spec_bytes())
    }

    /// The payload: the serialized children one after another.
    pub open spec fn spec_payload(&self) -> Seq<u8> {
        self.spec_child_bytes().flatten()
    }

    /// Every child can be serialized.
    pub open spec fn spec_children_fit(&self) -> bool {
        forall|i: int| 0 <= i < self.children@.len() ==> (#[trigger] self.children@[i]).spec_fits()
    }

    /// The box can be serialized: every child fits and so does the total size.
    pub open spec fn spec_fits(&self) -> bool {
        self.spec_children_fit() && box_fits(self.spec_payload().len() as int)
    }

    /// Every child is valid.
    pub open spec fn spec_valid(&self) -> bool {
        forall|i: int| 0 <= i < self.children@.len() ==> (#[trigger] self.children@[i]).spec_valid()
    }

    /// The serialized bytes of the box.
    pub open spec fn spec_bytes(&self) -> Seq<u8> {
        box_bytes(BOX_TYPE, self.spec_payload())
    }

    /// Creates a new empty MovieFragmentRandomAccessBoxOwned.
    pub fn new() -> (r: Self)
        ensures
            r.children@.len() == 0,
    {
        Self { children: Vec::new() }
    }

    /// Returns the payload size, or `u64::MAX` when a child does not fit or
    /// the sum does not fit below `u64::MAX`.
    fn payload_size(&self) -> (r: u64)
        ensures
            r == if self.spec_children_fit() && self.spec_payload().len() < 0xffff_ffff_ffff_ffff {
                self.spec_payload().len() as int
            } else {
                0xffff_ffff_ffff_ffff
            },
    {
        let mut acc: u64 = 0;
        let mut i: usize = 0;
        let ghost cb = self.spec_child_bytes();
        while i < self.children.len()
            invariant
                i <= self.children@.len(),
                cb == self.spec_child_bytes(),
                acc == if (forall|j: int| 0 <= j < i ==> (#[trigger] self.children@[j]).spec_fits())
                    && cb.take(i as int).flatten().len() < 0xffff_ffff_ffff_ffff {
                    cb.take(i as int).flatten().len() as int
                } else {
                    0xffff_ffff_ffff_ffff
                },
            decreases self.children@.len() - i,
        {
            let s = self.children[i].box_size();
            proof {
                assert(cb.take(i + 1) =~= cb.take(i as int).push(cb[i as int]));
                cb.take(i as int).lemma_flatten_push(cb[i as int]);
            }
            acc = saturating_add(acc, s);
            i = i + 1;
        }
        assert(cb.take(i as int) =~= cb);
        acc
    }

    /// Returns the serialized size of the box, or `u64::MAX` when it does not fit.
    fn serialized_size(&self) -> (r: u64)
        ensures
            r == if self.spec_fits() { self.spec_bytes().len() as int } else { 0xffff_ffff_ffff_ffff },
    {
        proof { if self.spec_fits() { lemma_box_roundtrip(BOX_TYPE, self.spec_payload()); } }
        saturating_box_size(self.payload_size())
    }

    /// Writes the box to the given vector.
    pub fn write_to(&self, out: &mut Vec<u8>) -> (r: Result<(), WriteError>)
        ensures
            r is Ok <==> self.spec_fits(),
            r is Ok ==> final(out)@ == old(out)@ + self.spec_bytes(),
            r is Err ==> final(out)@ == old(out)@,
    {
        let payload = self.payload_size();
        if payload == 0xffff_ffff_ffff_ffff {
            return Err(WriteError::SizeOverflow);
        }
        match begin_box(out, BOX_TYPE, payload) {
            Ok(()) => {},
            Err(e) => {
                return Err(e);
            },
        }
        let ghost start = out@;
        let ghost cb = self.spec_child_bytes();
        let mut i: usize = 0;
        while i < self.children.len()
            invariant
                i <= self.children@.len(),
                cb == self.spec_child_bytes(),
                self.spec_children_fit(),
                out@ == start + cb.take(i as int).flatten(),
            decreases self.children@.len() - i,
        {
            match self.children[i].write_to(out) {
                Ok(()) => {},
                Err(e) => {
                    return Err(e);
                },
            }
            proof {
                assert(cb.take(i + 1) =~= cb.take(i as int).push(cb[i as int]));
                cb.take(i as int).lemma_flatten_push(cb[i as int]);
            }
            i = i + 1;
        }
        assert(cb.take(i as int) =~= cb);
        Ok(())
    }

    /// The TrackFragmentRandomAccessBox children, in order.
    pub open spec fn spec_tfras(&self) -> Seq<OpaqueBoxOwned> {
        self.children@.filter(|c: MovieFragmentRandomAccessChild| c is Tfra).map_values(|c: MovieFragmentRandomAccessChild| c->Tfra_0)
    }

    /// Returns the TrackFragmentRandomAccessBox children.
    pub fn tfras(&self) -> (r: Vec<&OpaqueBoxOwned>)
        ensures
            r@.len() == self.spec_tfras().len(),
            forall|i: int| 0 <= i < r@.len() ==> *(#[trigger] r@[i]) == self.spec_tfras()[i],
    {
        let mut r: Vec<&OpaqueBoxOwned> = Vec::new();
        let mut i: usize = 0;
        let ghost pred = |c: MovieFragmentRandomAccessChild| c is Tfra;
        while i < self.children.len()
            invariant
                i <= self.children@.len(),
                pred == (|c: MovieFragmentRandomAccessChild| c is Tfra),
                r@.len() == self.children@.take(i as int).filter(pred).len(),
                forall|j: int| 0 <= j < r@.len() ==> *(#[trigger] r@[j]) == self.children@.take(i as int).filter(pred)[j]->Tfra_0,
            decreases self.children@.len() - i,
        {
            proof {
                assert(self.children@.take(i + 1) =~= self.children@.take(i as int).push(self.children@[i as int]));
                self.children@.take(i as int).lemma_filter_push(self.children@[i as int], pred);
            }
            match &self.children[i] {
                MovieFragmentRandomAccessChild::Tfra(b) => {
                    r.push(b);
                },
                _ => {},
            }
            i = i + 1;
        }
        assert(self.children@.take(i as int) =~= self.children@);
        r
    }

    /// Returns the first MovieFragmentRandomAccessOffsetBox child, if present.
    pub fn mfro(&self) -> (r: Option<&MovieFragmentRandomAccessOffsetBoxOwned>)
        ensures
            match r {
                Some(b) => exists|i: int| 0 <= i < self.children@.len() && self.children@[i] == MovieFragmentRandomAccessChild::Mfro(*b)
                    && forall|j: int| 0 <= j < i ==> !(self.children@[j] is Mfro),
                None => forall|j: int| 0 <= j < self.children@.len() ==> !(self.children@[j] is Mfro),
            },
    {
        let mut i: usize = 0;
        while i < self.children.len()
            invariant
                i <= self.children@.len(),
                forall|j: int| 0 <= j < i ==> !(self.children@[j] is Mfro),
            decreases self.children@.len() - i,
        {
            match &self.children[i] {
                MovieFragmentRandomAccessChild::Mfro(b) => {
                    return Some(b);
                },
                _ => {},
            }
            i = i + 1;
        }
        None
    }

    /// Adds a TrackFragmentRandomAccessBox child.
    pub fn add_tfra(&mut self, b: OpaqueBoxOwned)
        ensures
            final(self).children@ == old(self).children@.push(MovieFragmentRandomAccessChild::Tfra(b)),
    {
        self.children.push(MovieFragmentRandomAccessChild::Tfra(b));
    }

    /// Adds a MovieFragmentRandomAccessOffsetBox child.
    pub fn add_mfro(&mut self, b: MovieFragmentRandomAccessOffsetBoxOwned)
        ensures
            final(self).children@ == old(self).children@.push(MovieFragmentRandomAccessChild::Mfro(b)),
    {
        self.children.push(MovieFragmentRandomAccessChild::Mfro(b));
    }

    /// Creates an owned copy of the box that `source` views, reading each child.
    pub fn from(source: &MovieFragmentRandomAccessBoxView<'_>) -> (r: Self)
        ensures
            spec_reads(&r, source.spec_data()),
    {
        proof { use_type_invariant(source); }
        let boxes = source.children().collect_boxes();
        let ghost kids = source.spec_child_boxes();
        let mut children: Vec<MovieFragmentRandomAccessChild> = Vec::new();
        let mut i: usize = 0;
        while i < boxes.len()
            invariant
                i <= boxes@.len(),
                boxes@.len() == kids.len(),
                forall|j: int| 0 <= j < boxes@.len() ==> (#[trigger] boxes@[j]).spec_data() == kids[j],
                children@.len() == i,
                forall|j: int| 0 <= j < i ==> (#[trigger] children@[j]).spec_reads(kids[j]),
            decreases boxes@.len() - i,
        {
            children.push(MovieFragmentRandomAccessChild::from_raw(&boxes[i]));
            i = i + 1;
        }
        Self { children }
    }
}

impl Default for MovieFragmentRandomAccessBoxOwned {
    fn default() -> (r: Self)
        ensures
            r.children@.len() == 0,
    {
        Self::new()
    }
}

impl MovieFragmentRandomAccessBox for MovieFragmentRandomAccessBoxOwned {
    fn box_size(&self) -> (r: u64)
        ensures
            r == if self.spec_fits() { self.spec_bytes().len() as int } else { 0xffff_ffff_ffff_ffff },
    {
        self.serialized_size()
    }

    fn box_type(&self) -> (r: BoxCode)
        ensures
            r == BOX_TYPE,
    {
        BOX_TYPE
    }
}

/// The owned box `o` holds what reading the MovieFragmentRandomAccessBox `s` gives: its flags,
/// one child per child box, in order, each read from that child box.
pub open spec fn spec_reads(o: &MovieFragmentRandomAccessBoxOwned, s: Seq<u8>) -> bool {
    &&& spec_check(s) is Ok
    &&& o.children@.len() == spec_children(spec_payload_of(s)).len()
    &&& forall|i: int| 0 <= i < o.children@.len() ==> (#[trigger] o.children@[i]).spec_reads(spec_children(spec_payload_of(s))[i])
}

/// Serializing an owned box gives a box that passes the checks of its type
/// and whose child boxes read back as the serialized children, in order.
pub proof fn lemma_roundtrip(o: &MovieFragmentRandomAccessBoxOwned)
    requires
        o.spec_fits(),
        o.spec_valid(),
    ensures
        spec_check(o.spec_bytes()) is Ok,
        spec_children(spec_payload_of(o.spec_bytes())) == o.spec_child_bytes(),
        whole_box(o.spec_bytes()),
        explicit_size(o.spec_bytes()),
{
    lemma_box_roundtrip(BOX_TYPE, o.spec_payload());
    lemma_box_bytes_whole(BOX_TYPE, o.spec_payload());
    let cs = o.spec_child_bytes();
    assert forall|i: int| 0 <= i < cs.len() implies whole_box(#[trigger] cs[i]) && explicit_size(cs[i]) by {
        o.children@[i].lemma_whole();
    }
    lemma_children_of_flatten(cs);
    assert(spec_check_box(o.spec_bytes(), BOX_TYPE, 0) is Ok);
}

} // verus!
