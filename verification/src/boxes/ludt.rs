//! Loudness Base Box (ludt) parsing and serialization.
//!
//! The Loudness Base Box is a container for loudness information.
//!
//! ```text
//! aligned(8) class LoudnessBox extends Box('ludt') {
//!    // not more than one TrackLoudnessInfo box with version>=1 is allowed
//!    loudness TrackLoudnessInfo[];
//!    // not more than one AlbumLoudnessInfo box with version>=1 is allowed
//!    albumLoudness AlbumLoudnessInfo[];
//! }
//! ```

use vstd::prelude::*;
use crate::bytes::saturating_add;
use crate::code::BoxCode;
use crate::boxes::loudness::{parse_loudness_payload, spec_layout};
use crate::container::{BoxIterator, OpaqueBoxOwned, RawBox, box_type_of, explicit_size, first_of_type, lemma_box_bytes_whole, lemma_children_of_flatten, lemma_fullbox_bytes_whole, spec_children, whole_box};
use crate::error::{ParseError, WriteError};
use crate::header::{FullBoxHeader, spec_parse_fullbox_header, version_of, fullbox_payload_of, header_len, BoxHeader, begin_box, box_bytes, box_fits, lemma_box_roundtrip, payload_of, saturating_box_size, spec_check_box};

verus! {

broadcast use crate::bytes::group_bytes_len;

/// The box type identifier for LoudnessBaseBox (`ludt`).
pub const BOX_TYPE: BoxCode = 0x6c75_6474;

/// The box type of a TrackLoudnessInfoBox child (`tlou`), which this library keeps as raw bytes.
pub const TLOU_TYPE: BoxCode = 0x746c_6f75;

/// The box type of a AlbumLoudnessInfoBox child (`alou`), which this library keeps as raw bytes.
pub const ALOU_TYPE: BoxCode = 0x616c_6f75;

/// The header of the LoudnessBaseBox `s`, or why `s` is not one.
pub open spec fn spec_check(s: Seq<u8>) -> Result<BoxHeader, ParseError> {
    spec_check_box(s, BOX_TYPE, 0)
}

/// The payload of the box `s` that holds its child boxes.
pub open spec fn spec_payload_of(s: Seq<u8>) -> Seq<u8> {
    payload_of(s)
}

/// The whole box `c` reads as a loudness info box (track or album): its full
/// box header parses and its payload reads as loudness data of its version.
pub open spec fn loudness_box_ok(c: Seq<u8>) -> bool {
    &&& spec_parse_fullbox_header(c, c.len() as int) is Ok
    &&& spec_layout(version_of(c), fullbox_payload_of(c)) is Ok
}

/// Whether the whole box `data` reads as a loudness info box.
fn reads_as_loudness(data: &[u8]) -> (r: bool)
    ensures
        r == loudness_box_ok(data@),
{
    match FullBoxHeader::parse(data, data.len()) {
        Err(_) => false,
        Ok(h) => {
            let start = h.box_header.header_size as usize + 4;
            match parse_loudness_payload(h.version, &data[start..data.len()]) {
                Ok(_) => true,
                Err(_) => false,
            }
        },
    }
}

/// A typed child of a LoudnessBaseBox.
#[derive(Clone, Debug, PartialEq, Eq)]
pub enum LoudnessBaseChild {
    /// A TrackLoudnessInfoBox child.
    Tlou(OpaqueBoxOwned),
    /// An AlbumLoudnessInfoBox child.
    Alou(OpaqueBoxOwned),
    /// An unknown or unrecognized child box.
    Other(OpaqueBoxOwned),
}

impl LoudnessBaseChild {
    /// The serialized bytes of the child.
    pub open spec fn spec_bytes(&self) -> Seq<u8> {
        match self {
            Self::Tlou(b) => b.spec_data(),
            Self::Alou(b) => b.spec_data(),
            Self::Other(o) => o.spec_data(),
        }
    }

    /// The child can be serialized: its size fits in 64 bits.
    pub open spec fn spec_fits(&self) -> bool {
        true
    }

    /// Every box the child holds as raw bytes is a whole box with an explicit size.
    pub open spec fn spec_valid(&self) -> bool {
        match self {
            Self::Tlou(o) => whole_box(o.spec_data()) && explicit_size(o.spec_data()),
            Self::Alou(o) => whole_box(o.spec_data()) && explicit_size(o.spec_data()),
            Self::Other(o) => whole_box(o.spec_data()) && explicit_size(o.spec_data()),
        }
    }

    /// The box type of the child.
    pub open spec fn spec_box_type(&self) -> BoxCode {
        match self {
            Self::Tlou(b) => box_type_of(b.spec_data()),
            Self::Alou(b) => box_type_of(b.spec_data()),
            Self::Other(o) => box_type_of(o.spec_data()),
        }
    }

    /// The child is what reading the child box `c` gives: the typed box where
    /// `c` has a known type and parses as it, else `c` itself as raw bytes.
    pub open spec fn spec_reads(&self, c: Seq<u8>) -> bool {
        match self {
            Self::Tlou(o) => box_type_of(c) == TLOU_TYPE && loudness_box_ok(c) && o.spec_data() == c,
            Self::Alou(o) => box_type_of(c) == ALOU_TYPE && loudness_box_ok(c) && o.spec_data() == c,
            Self::Other(o) => o.spec_data() == c
                && !(box_type_of(c) == TLOU_TYPE && loudness_box_ok(c))
                && !(box_type_of(c) == ALOU_TYPE && loudness_box_ok(c)),
        }
    }

    /// Returns the box type.
    pub fn box_type(&self) -> (r: BoxCode)
        ensures
            r == self.spec_box_type(),
    {
        match self {
            Self::Tlou(b) => b.box_type(),
            Self::Alou(b) => b.box_type(),
            Self::Other(o) => o.box_type(),
        }
    }

    /// Returns the serialized size of the child, or `u64::MAX` when it does not fit in 64 bits.
    pub fn box_size(&self) -> (r: u64)
        ensures
            r == if self.spec_fits() { self.spec_bytes().len() as int } else { 0xffff_ffff_ffff_ffff },
    {
        match self {
            Self::Tlou(b) => b.box_size(),
            Self::Alou(b) => b.box_size(),
            Self::Other(o) => o.box_size(),
        }
    }

    /// Writes this child box to the given vector.
    pub fn write_to(&self, out: &mut Vec<u8>) -> (r: Result<(), WriteError>)
        ensures
            r is Ok <==> self.spec_fits(),
            r is Ok ==> final(out)@ == old(out)@ + self.spec_bytes(),
            r is Err ==> final(out)@ == old(out)@,
    {
        match self {
            Self::Tlou(b) => {
                b.write_to(out);
                Ok(())
            },
            Self::Alou(b) => {
                b.write_to(out);
                Ok(())
            },
            Self::Other(o) => {
                o.write_to(out);
                Ok(())
            },
        }
    }

    /// Reads the child box `raw`: as its typed box where its type is known
    /// and it parses as that type, else as raw bytes.
    pub fn from_raw(raw: &RawBox<'_>) -> (r: Self)
        ensures
            r.spec_reads(raw.spec_data()),
    {
        let t = raw.box_type();
        let ok = (t == TLOU_TYPE || t == ALOU_TYPE) && reads_as_loudness(raw.data());
        if t == TLOU_TYPE && ok {
            Self::Tlou(OpaqueBoxOwned::from_raw_box(raw))
        } else if t == ALOU_TYPE && ok {
            Self::Alou(OpaqueBoxOwned::from_raw_box(raw))
        } else {
            Self::Other(OpaqueBoxOwned::from_raw_box(raw))
        }
    }

    /// A child that fits and is valid serializes to one whole box with an explicit size.
    pub proof fn lemma_whole(&self)
        requires
            self.spec_fits(),
            self.spec_valid(),
        ensures
            whole_box(self.spec_bytes()),
            explicit_size(self.spec_bytes()),
    {
        match self {
            _ => {},
        }
    }
}

/// Common interface for accessing LoudnessBaseBox data.
pub trait LoudnessBaseBox {
    /// Returns the total size of the box in bytes.
    fn box_size(&self) -> u64;

    /// Returns the box type.
    fn box_type(&self) -> BoxCode;
}

/// A borrowing view over raw LoudnessBaseBox bytes.
#[derive(Clone, Copy, Debug)]
pub struct LoudnessBaseBoxView<'a> {
    data: &'a [u8],
    header: BoxHeader,
}

impl<'a> LoudnessBaseBoxView<'a> {
    #[verifier::type_invariant]
    closed spec fn inv(&self) -> bool {
        spec_check(self.data@) == Ok::<BoxHeader, ParseError>(self.header)
    }

    /// The bytes of the box.
    pub closed spec fn spec_data(&self) -> Seq<u8> {
        self.data@
    }

    /// The child boxes of the box, each as its bytes.
    pub open spec fn spec_child_boxes(&self) -> Seq<Seq<u8>> {
        spec_children(spec_payload_of(self.spec_data()))
    }

    /// Creates a new view over the given bytes.
    pub fn new(data: &'a [u8]) -> (r: Result<Self, ParseError>)
        ensures
            match r {
                Ok(v) => v.spec_data() == data@ && spec_check(data@) is Ok,
                Err(e) => spec_check(data@) == Err::<BoxHeader, ParseError>(e),
            },
    {
        let header = BoxHeader::parse(data, data.len())?;
        header.validate(data, BOX_TYPE, 0)?;
        Ok(Self { data, header })
    }

    /// Returns the underlying byte slice.
    pub fn as_bytes(&self) -> (r: &'a [u8])
        ensures
            r@ == self.spec_data(),
    {
        self.data
    }

    /// Returns an iterator over child boxes.
    pub fn children(&self) -> (r: BoxIterator<'a>)
        ensures
            r.remaining() == self.spec_child_boxes(),
    {
        proof { use_type_invariant(self); }
        let hs = self.header.header_size as usize;
        BoxIterator::new(&self.data[hs..self.data.len()])
    }

    /// Returns the first TrackLoudnessInfoBox child, where it reads as one,
    /// kept as a raw box.
    pub fn tlou(&self) -> (r: Option<RawBox<'a>>)
        ensures
            match r {
                Some(b) => first_of_type(self.spec_child_boxes(), TLOU_TYPE) == Some(b.spec_data())
                    && loudness_box_ok(b.spec_data()),
                None => !(first_of_type(self.spec_child_boxes(), TLOU_TYPE) matches Some(c) && loudness_box_ok(c)),
            },
    {
        match self.children().find_type(TLOU_TYPE) {
            Some(b) => if reads_as_loudness(b.data()) { Some(b) } else { None },
            None => None,
        }
    }

    /// Returns the first AlbumLoudnessInfoBox child, where it reads as one,
    /// kept as a raw box.
    pub fn alou(&self) -> (r: Option<RawBox<'a>>)
        ensures
            match r {
                Some(b) => first_of_type(self.spec_child_boxes(), ALOU_TYPE) == Some(b.spec_data())
                    && loudness_box_ok(b.spec_data()),
                None => !(first_of_type(self.spec_child_boxes(), ALOU_TYPE) matches Some(c) && loudness_box_ok(c)),
            },
    {
        match self.children().find_type(ALOU_TYPE) {
            Some(b) => if reads_as_loudness(b.data()) { Some(b) } else { None },
            None => None,
        }
    }
}

impl<'a> LoudnessBaseBox for LoudnessBaseBoxView<'a> {
    fn box_size(&self) -> (r: u64)
        ensures
            r == self.spec_data().len(),
    {
        self.data.len() as u64
    }

    fn box_type(&self) -> (r: BoxCode)
        ensures
            r == BOX_TYPE,
    {
        BOX_TYPE
    }
}

/// An owned representation of LoudnessBaseBox data.
#[derive(Clone, Debug, PartialEq, Eq)]
pub struct LoudnessBaseBoxOwned {
    /// Typed child boxes.
    pub children: Vec<LoudnessBaseChild>,
}

impl LoudnessBaseBoxOwned {
    /// The serialized bytes of each child, in order.
    pub open spec fn spec_child_bytes(&self) -> Seq<Seq<u8>> {
        self.children@.map_values(|c: LoudnessBaseChild| c.spec_bytes())
    }

    /// The payload: the serialized children one after another.
    pub open spec fn spec_payload(&self) -> Seq<u8> {
        self.spec_child_bytes().flatten()
    }

    /// Every child can be serialized.
    pub open spec fn spec_children_fit(&self) -> bool {
        forall|i: int| 0 <= i < self.children@.len() ==> (#[trigger] self.children@[i]).spec_fits()
    }

    /// The box can be serialized: every child fits and so does the total size.
    pub open spec fn spec_fits(&self) -> bool {
        self.spec_children_fit() && box_fits(self.spec_payload().len() as int)
    }

    /// Every child is valid.
    pub open spec fn spec_valid(&self) -> bool {
        forall|i: int| 0 <= i < self.children@.len() ==> (#[trigger] self.children@[i]).spec_valid()
    }

    /// The serialized bytes of the box.
    pub open spec fn spec_bytes(&self) -> Seq<u8> {
        box_bytes(BOX_TYPE, self.spec_payload())
    }

    /// Creates a new empty LoudnessBaseBoxOwned.
    pub fn new() -> (r: Self)
        ensures
            r.children@.len() == 0,
    {
        Self { children: Vec::new() }
    }

    /// Returns the payload size, or `u64::MAX` when a child does not fit or
    /// the sum does not fit below `u64::MAX`.
    fn payload_size(&self) -> (r: u64)
        ensures
            r == if self.spec_children_fit() && self.spec_payload().len() < 0xffff_ffff_ffff_ffff {
                self.spec_payload().len() as int
            } else {
                0xffff_ffff_ffff_ffff
            },
    {
        let mut acc: u64 = 0;
        let mut i: usize = 0;
        let ghost cb = self.spec_child_bytes();
        while i < self.children.len()
            invariant
                i <= self.children@.len(),
                cb == self.spec_child_bytes(),
                acc == if (forall|j: int| 0 <= j < i ==> (#[trigger] self.children@[j]).spec_fits())
                    && cb.take(i as int).flatten().len() < 0xffff_ffff_ffff_ffff {
                    cb.take(i as int).flatten().len() as int
                } else {
                    0xffff_ffff_ffff_ffff
                },
            decreases self.children@.len() - i,
        {
            let s = self.children[i].box_size();
            proof {
                assert(cb.take(i + 1) =~= cb.take(i as int).push(cb[i as int]));
                cb.take(i as int).lemma_flatten_push(cb[i as int]);
            }
            acc = saturating_add(acc, s);
            i = i + 1;
        }
        assert(cb.take(i as int) =~= cb);
        acc
    }

    /// Returns the serialized size of the box, or `u64::MAX` when it does not fit.
    fn serialized_size(&self) -> (r: u64)
        ensures
            r == if self.spec_fits() { self.spec_bytes().len() as int } else { 0xffff_ffff_ffff_ffff },
    {
        proof { if self.spec_fits() { lemma_box_roundtrip(BOX_TYPE, self.spec_payload()); } }
        saturating_box_size(self.payload_size())
    }

    /// Writes the box to the given vector.
    pub fn write_to(&self, out: &mut Vec<u8>) -> (r: Result<(), WriteError>)
        ensures
            r is Ok <==> self.spec_fits(),
            r is Ok ==> final(out)@ == old(out)@ + self.spec_bytes(),
            r is Err ==> final(out)@ == old(out)@,
    {
        let payload = self.payload_size();
        if payload == 0xffff_ffff_ffff_ffff {
            return Err(WriteError::SizeOverflow);
        }
        match begin_box(out, BOX_TYPE, payload) {
            Ok(()) => {},
            Err(e) => {
                return Err(e);
            },
        }
        let ghost start = out@;
        let ghost cb = self.spec_child_bytes();
        let mut i: usize = 0;
        while i < self.children.len()
            invariant
                i <= self.children@.len(),
                cb == self.spec_child_bytes(),
                self.spec_children_fit(),
                out@ == start + cb.take(i as int).flatten(),
            decreases self.children@.len() - i,
        {
            match self.children[i].write_to(out) {
                Ok(()) => {},
                Err(e) => {
                    return Err(e);
                },
            }
            proof {
                assert(cb.take(i + 1) =~= cb.take(i as int).push(cb[i as int]));
                cb.take(i as int).lemma_flatten_push(cb[i as int]);
            }
            i = i + 1;
        }
        assert(cb.take(i as int) =~= cb);
        Ok(())
    }

    /// Returns the first TrackLoudnessInfoBox child, if present.
    pub fn tlou(&self) -> (r: Option<&OpaqueBoxOwned>)
        ensures
            match r {
                Some(b) => exists|i: int| 0 <= i < self.children@.len() && self.children@[i] == LoudnessBaseChild::Tlou(*b)
                    && forall|j: int| 0 <= j < i ==> !(self.children@[j] is Tlou),
                None => forall|j: int| 0 <= j < self.children@.len() ==> !(self.children@[j] is Tlou),
            },
    {
        let mut i: usize = 0;
        while i < self.children.len()
            invariant
                i <= self.children@.len(),
                forall|j: int| 0 <= j < i ==> !(self.children@[j] is Tlou),
            decreases self.children@.len() - i,
        {
            match &self.children[i] {
                LoudnessBaseChild::Tlou(b) => {
                    return Some(b);
                },
                _ => {},
            }
            i = i + 1;
        }
        None
    }

    /// Returns the first AlbumLoudnessInfoBox child, if present.
    pub fn alou(&self) -> (r: Option<&OpaqueBoxOwned>)
        ensures
            match r {
                Some(b) => exists|i: int| 0 <= i < self.children@.len() && self.children@[i] == LoudnessBaseChild::Alou(*b)
                    && forall|j: int| 0 <= j < i ==> !(self.children@[j] is Alou),
                None => forall|j: int| 0 <= j < self.children@.len() ==> !(self.children@[j] is Alou),
            },
    {
        let mut i: usize = 0;
        while i < self.children.len()
            invariant
                i <= self.children@.len(),
                forall|j: int| 0 <= j < i ==> !(self.children@[j] is Alou),
            decreases self.children@.len() - i,
        {
            match &self.children[i] {
                LoudnessBaseChild::Alou(b) => {
                    return Some(b);
                },
                _ => {},
            }
            i = i + 1;
        }
        None
    }

    /// Adds a TrackLoudnessInfoBox child.
    pub fn add_tlou(&mut self, b: OpaqueBoxOwned)
        ensures
            final(self).children@ == old(self).children@.push(LoudnessBaseChild::Tlou(b)),
    {
        self.children.push(LoudnessBaseChild::Tlou(b));
    }

    /// Adds an AlbumLoudnessInfoBox child.
    pub fn add_alou(&mut self, b: OpaqueBoxOwned)
        ensures
            final(self).children@ == old(self).children@.push(LoudnessBaseChild::Alou(b)),
    {
        self.children.push(LoudnessBaseChild::Alou(b));
    }

    /// Creates an owned copy of the box that `source` views, reading each child.
    pub fn from(source: &LoudnessBaseBoxView<'_>) -> (r: Self)
        ensures
            spec_reads(&r, source.spec_data()),
    {
        proof { use_type_invariant(source); }
        let boxes = source.children().collect_boxes();
        let ghost kids = source.spec_child_boxes();
        let mut children: Vec<LoudnessBaseChild> = Vec::new();
        let mut i: usize = 0;
        while i < boxes.len()
            invariant
                i <= boxes@.len(),
                boxes@.len() == kids.len(),
                forall|j: int| 0 <= j < boxes@.len() ==> (#[trigger] boxes@[j]).spec_data() == kids[j],
                children@.len() == i,
                forall|j: int| 0 <= j < i ==> (#[trigger] children@[j]).spec_reads(kids[j]),
            decreases boxes@.len() - i,
        {
            children.push(LoudnessBaseChild::from_raw(&boxes[i]));
            i = i + 1;
        }
        Self { children }
    }
}

impl Default for LoudnessBaseBoxOwned {
    fn default() -> (r: Self)
        ensures
            r.children@.len() == 0,
    {
        Self::new()
    }
}

impl LoudnessBaseBox for LoudnessBaseBoxOwned {
    fn box_size(&self) -> (r: u64)
        ensures
            r == if self.spec_fits() { self.spec_bytes().len() as int } else { 0xffff_ffff_ffff_ffff },
    {
        self.serialized_size()
    }

    fn box_type(&self) -> (r: BoxCode)
        ensures
            r == BOX_TYPE,
    {
        BOX_TYPE
    }
}

/// The owned box `o` holds what reading the LoudnessBaseBox `s` gives: its flags,
/// one child per child box, in order, each read from that child box.
pub open spec fn spec_reads(o: &LoudnessBaseBoxOwned, s: Seq<u8>) -> bool {
    &&& spec_check(s) is Ok
    &&& o.children@.len() == spec_children(spec_payload_of(s)).len()
    &&& forall|i: int| 0 <= i < o.children@.len() ==> (#[trigger] o.children@[i]).spec_reads(spec_children(spec_payload_of(s))[i])
}

/// Serializing an owned box gives a box that passes the checks of its type
/// and whose child boxes read back as the serialized children, in order.
pub proof fn lemma_roundtrip(o: &LoudnessBaseBoxOwned)
    requires
        o.spec_fits(),
        o.spec_valid(),
    ensures
        spec_check(o.spec_bytes()) is Ok,
        spec_children(spec_payload_of(o.spec_bytes())) == o.spec_child_bytes(),
        whole_box(o.spec_bytes()),
        explicit_size(o.spec_bytes()),
{
    lemma_box_roundtrip(BOX_TYPE, o.spec_payload());
    lemma_box_bytes_whole(BOX_TYPE, o.spec_payload());
    let cs = o.spec_child_bytes();
    assert forall|i: int| 0 <= i < cs.len() implies whole_box(#[trigger] cs[i]) && explicit_size(cs[i]) by {
        o.children@[i].lemma_whole();
    }
    lemma_children_of_flatten(cs);
    assert(spec_check_box(o.spec_bytes(), BOX_TYPE, 0) is Ok);
}

} // verus!
