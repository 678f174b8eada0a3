//! Mastering Display Color Volume Box (mdcv) parsing and serialization.
//!
//! The Mastering Display Color Volume Box specifies the mastering display metadata.
//!
//! ```text
//! class MasteringDisplayColourVolumeBox extends Box('mdcv'){
//!    for (c = 0; c<3; c++) {
//!       unsigned int(16) display_primaries_x;
//!       unsigned int(16) display_primaries_y;
//!    }
//!    unsigned int(16) white_point_x;
//!    unsigned int(16) white_point_y;
//!    unsigned int(32) max_display_mastering_luminance;
//!    unsigned int(32) min_display_mastering_luminance;
//! }
//! ```

use vstd::prelude::*;
use crate::bytes::{lemma_u16_bytes_of, lemma_u32_bytes_of, lemma_flatten_chunks, be16, be32, lemma_u16_roundtrip, lemma_u32_roundtrip, read_u16, read_u24, read_u32, saturating_add, u16_bytes, u32_bytes, write_all, write_u16, write_u32, write_u8};
use crate::code::BoxCode;
use crate::container::{explicit_size, lemma_box_bytes_whole, lemma_fullbox_bytes_whole, whole_box};
use crate::error::{ParseError, WriteError, entries_fit, validate_entry_count};
use crate::header::{canonical_header, lemma_box_bytes_of, 
    BoxHeader, FullBoxHeader, begin_box, begin_fullbox, box_bytes, box_fits, flags_of, fullbox_bytes, fullbox_payload_of,
    header_len, lemma_box_roundtrip, lemma_fullbox_roundtrip, payload_of, saturating_box_size, saturating_fullbox_size,
    spec_check_box, spec_check_fullbox, version_of,
};

verus! {

broadcast use crate::bytes::group_bytes_len;
/// The box type identifier for MasteringDisplayColourVolumeBox (`mdcv`).
pub const BOX_TYPE: BoxCode = 0x6d64_6376;

/// The header of the MasteringDisplayColourVolumeBox `s`, or why `s` is not one.
pub open spec fn spec_check(s: Seq<u8>) -> Result<BoxHeader, ParseError> {
    spec_check_box(s, BOX_TYPE, 24)
}

/// The 16-bit field at `off` of the payload of `s`.
pub open spec fn spec_u16_at(s: Seq<u8>, off: int) -> u16 {
    be16(s, header_len(s) + off) as u16
}

/// The 32-bit field at `off` of the payload of `s`.
pub open spec fn spec_u32_at(s: Seq<u8>, off: int) -> u32 {
    be32(s, header_len(s) + off) as u32
}

/// The display primaries of the box `s` (Gx, Gy, Bx, By, Rx, Ry).
pub open spec fn spec_display_primaries(s: Seq<u8>) -> Seq<u16> {
    Seq::new(6, |i: int| spec_u16_at(s, 2 * i))
}

/// Common interface for accessing MasteringDisplayColourVolumeBox data.
pub trait MasteringDisplayColourVolumeBox {
    /// Returns the total size of the box in bytes.
    fn box_size(&self) -> u64;

    /// Returns the box type.
    fn box_type(&self) -> BoxCode;

    /// Returns the display primaries (array of 6 values: Gx, Gy, Bx, By, Rx, Ry).
    fn display_primaries(&self) -> [u16; 6];

    /// Returns the white point X coordinate.
    fn white_point_x(&self) -> u16;

    /// Returns the white point Y coordinate.
    fn white_point_y(&self) -> u16;

    /// Returns the maximum display mastering luminance.
    fn max_display_mastering_luminance(&self) -> u32;

    /// Returns the minimum display mastering luminance.
    fn min_display_mastering_luminance(&self) -> u32;
}

/// A borrowing view over raw MasteringDisplayColourVolumeBox bytes.
#[derive(Clone, Copy, Debug)]
pub struct MasteringDisplayColourVolumeBoxView<'a> {
    data: &'a [u8],
    header_size: usize,
}

impl<'a> MasteringDisplayColourVolumeBoxView<'a> {
    #[verifier::type_invariant]
    closed spec fn inv(&self) -> bool {
        &&& spec_check(self.data@) is Ok
        &&& self.header_size == header_len(self.data@)
    }

    /// The bytes of the box.
    pub closed spec fn spec_data(&self) -> Seq<u8> {
        self.data@
    }

    /// Creates a new view over the given bytes.
    pub fn new(data: &'a [u8]) -> (r: Result<Self, ParseError>)
        ensures
            match r {
                Ok(v) => v.spec_data() == data@ && spec_check(data@) is Ok,
                Err(e) => spec_check(data@) == Err::<BoxHeader, ParseError>(e),
            },
    {
        let header = BoxHeader::parse(data, data.len())?;
        header.validate(data, BOX_TYPE, 24)?;
        Ok(Self { data, header_size: header.header_size as usize })
    }

    /// Returns the underlying byte slice.
    pub fn as_bytes(&self) -> (r: &'a [u8])
        ensures
            r@ == self.spec_data(),
    {
        self.data
    }
}

impl<'a> MasteringDisplayColourVolumeBox for MasteringDisplayColourVolumeBoxView<'a> {
    fn box_size(&self) -> (r: u64)
        ensures
            r == self.spec_data().len(),
    {
        self.data.len() as u64
    }

    fn box_type(&self) -> (r: BoxCode)
        ensures
            r == BOX_TYPE,
    {
        BOX_TYPE
    }

    fn display_primaries(&self) -> (r: [u16; 6])
        ensures
            r@ == spec_display_primaries(self.spec_data()),
    {
        proof { use_type_invariant(self); }
        let o = self.header_size;
        let r = [
            read_u16(self.data, o),
            read_u16(self.data, o + 2),
            read_u16(self.data, o + 4),
            read_u16(self.data, o + 6),
            read_u16(self.data, o + 8),
            read_u16(self.data, o + 10),
        ];
        assert(r@ =~= spec_display_primaries(self.data@));
        r
    }

    fn white_point_x(&self) -> (r: u16)
        ensures
            r == spec_u16_at(self.spec_data(), 12),
    {
        proof { use_type_invariant(self); }
        read_u16(self.data, self.header_size + 12)
    }

    fn white_point_y(&self) -> (r: u16)
        ensures
            r == spec_u16_at(self.spec_data(), 14),
    {
        proof { use_type_invariant(self); }
        read_u16(self.data, self.header_size + 14)
    }

    fn max_display_mastering_luminance(&self) -> (r: u32)
        ensures
            r == spec_u32_at(self.spec_data(), 16),
    {
        proof { use_type_invariant(self); }
        read_u32(self.data, self.header_size + 16)
    }

    fn min_display_mastering_luminance(&self) -> (r: u32)
        ensures
            r == spec_u32_at(self.spec_data(), 20),
    {
        proof { use_type_invariant(self); }
        read_u32(self.data, self.header_size + 20)
    }
}

/// An owned representation of MasteringDisplayColourVolumeBox data.
#[derive(Clone, Debug, PartialEq, Eq)]
pub struct MasteringDisplayColourVolumeBoxOwned {
    /// Display primaries (Gx, Gy, Bx, By, Rx, Ry).
    pub display_primaries: [u16; 6],
    /// White point X.
    pub white_point_x: u16,
    /// White point Y.
    pub white_point_y: u16,
    /// Maximum display mastering luminance.
    pub max_display_mastering_luminance: u32,
    /// Minimum display mastering luminance.
    pub min_display_mastering_luminance: u32,
}

impl MasteringDisplayColourVolumeBoxOwned {
    /// The payload: the six primaries, the white point and the two luminances.
    pub open spec fn spec_payload(&self) -> Seq<u8> {
        self.display_primaries@.map_values(|v: u16| u16_bytes(v)).flatten()
            + u16_bytes(self.white_point_x) + u16_bytes(self.white_point_y)
            + u32_bytes(self.max_display_mastering_luminance) + u32_bytes(self.min_display_mastering_luminance)
    }

    /// The serialized bytes of the box.
    pub open spec fn spec_bytes(&self) -> Seq<u8> {
        box_bytes(BOX_TYPE, self.spec_payload())
    }

    /// Creates a new MasteringDisplayColourVolumeBoxOwned.
    pub fn new(
        display_primaries: [u16; 6],
        white_point_x: u16,
        white_point_y: u16,
        max_luminance: u32,
        min_luminance: u32,
    ) -> (r: Self)
        ensures
            r.display_primaries == display_primaries,
            r.white_point_x == white_point_x,
            r.white_point_y == white_point_y,
            r.max_display_mastering_luminance == max_luminance,
            r.min_display_mastering_luminance == min_luminance,
    {
        Self {
            display_primaries,
            white_point_x,
            white_point_y,
            max_display_mastering_luminance: max_luminance,
            min_display_mastering_luminance: min_luminance,
        }
    }

    /// Writes the box to the given vector.
    pub fn write_to(&self, out: &mut Vec<u8>) -> (r: Result<(), WriteError>)
        ensures
            r is Ok,
            final(out)@ == old(out)@ + self.spec_bytes(),
    {
        proof { lemma_payload_len(self); }
        match begin_box(out, BOX_TYPE, 24) {
            Ok(()) => {},
            Err(e) => {
                return Err(e);
            },
        }
        let ghost start = out@;
        let ghost pb = self.display_primaries@.map_values(|v: u16| u16_bytes(v));
        let mut i: usize = 0;
        while i < 6
            invariant
                i <= 6,
                self.display_primaries@.len() == 6,
                pb == self.display_primaries@.map_values(|v: u16| u16_bytes(v)),
                out@ == start + pb.take(i as int).flatten(),
            decreases 6 - i,
        {
            write_u16(out, self.display_primaries[i]);
            proof {
                assert(pb.take(i + 1) =~= pb.take(i as int).push(pb[i as int]));
                pb.take(i as int).lemma_flatten_push(pb[i as int]);
            }
            i = i + 1;
        }
        assert(pb.take(6) =~= pb);
        write_u16(out, self.white_point_x);
        write_u16(out, self.white_point_y);
        write_u32(out, self.max_display_mastering_luminance);
        write_u32(out, self.min_display_mastering_luminance);
        assert(out@ =~= start + self.spec_payload());
        Ok(())
    }

    /// Creates an owned copy of the box that `source` views.
    pub fn from(source: &MasteringDisplayColourVolumeBoxView<'_>) -> (r: Self)
        ensures
            r.display_primaries@ == spec_display_primaries(source.spec_data()),
            r.white_point_x == spec_u16_at(source.spec_data(), 12),
            r.white_point_y == spec_u16_at(source.spec_data(), 14),
            r.max_display_mastering_luminance == spec_u32_at(source.spec_data(), 16),
            r.min_display_mastering_luminance == spec_u32_at(source.spec_data(), 20),
    {
        Self::new(
            source.display_primaries(),
            source.white_point_x(),
            source.white_point_y(),
            source.max_display_mastering_luminance(),
            source.min_display_mastering_luminance(),
        )
    }
}

impl Default for MasteringDisplayColourVolumeBoxOwned {
    fn default() -> (r: Self)
        ensures
            r.display_primaries@ == seq![0u16, 0u16, 0u16, 0u16, 0u16, 0u16],
            r.white_point_x == 0,
            r.white_point_y == 0,
            r.max_display_mastering_luminance == 0,
            r.min_display_mastering_luminance == 0,
    {
        let r = Self::new([0u16, 0u16, 0u16, 0u16, 0u16, 0u16], 0, 0, 0, 0);
        assert(r.display_primaries@ =~= seq![0u16, 0u16, 0u16, 0u16, 0u16, 0u16]);
        r
    }
}

impl MasteringDisplayColourVolumeBox for MasteringDisplayColourVolumeBoxOwned {
    fn box_size(&self) -> (r: u64)
        ensures
            r == self.spec_bytes().len(),
    {
        proof {
            lemma_payload_len(self);
            lemma_box_roundtrip(BOX_TYPE, self.spec_payload());
        }
        32
    }

    fn box_type(&self) -> (r: BoxCode)
        ensures
            r == BOX_TYPE,
    {
        BOX_TYPE
    }

    fn display_primaries(&self) -> (r: [u16; 6])
        ensures
            r == self.display_primaries,
    {
        self.display_primaries
    }

    fn white_point_x(&self) -> (r: u16)
        ensures
            r == self.white_point_x,
    {
        self.white_point_x
    }

    fn white_point_y(&self) -> (r: u16)
        ensures
            r == self.white_point_y,
    {
        self.white_point_y
    }

    fn max_display_mastering_luminance(&self) -> (r: u32)
        ensures
            r == self.max_display_mastering_luminance,
    {
        self.max_display_mastering_luminance
    }

    fn min_display_mastering_luminance(&self) -> (r: u32)
        ensures
            r == self.min_display_mastering_luminance,
    {
        self.min_display_mastering_luminance
    }
}

/// The encoded primaries take twelve bytes, two per primary.
proof fn lemma_primaries(ps: Seq<u16>, i: int, j: int)
    requires
        0 <= i < ps.len(),
        0 <= j < 2,
    ensures
        ps.map_values(|v: u16| u16_bytes(v)).flatten().len() == 2 * ps.len(),
        ps.map_values(|v: u16| u16_bytes(v)).flatten()[2 * i + j] == u16_bytes(ps[i])[j],
    decreases ps.len(),
{
    let init = ps.drop_last();
    assert(ps.map_values(|v: u16| u16_bytes(v)) =~= init.map_values(|v: u16| u16_bytes(v)).push(u16_bytes(ps.last())));
    init.map_values(|v: u16| u16_bytes(v)).lemma_flatten_push(u16_bytes(ps.last()));
    if init.len() > 0 {
        if i < ps.len() - 1 {
            lemma_primaries(init, i, j);
        } else {
            lemma_primaries(init, 0, 0);
        }
    } else {
        assert(init.map_values(|v: u16| u16_bytes(v)) =~= Seq::<Seq<u8>>::empty());
    }
}

/// The payload has 24 bytes.
proof fn lemma_payload_len(o: &MasteringDisplayColourVolumeBoxOwned)
    ensures
        o.spec_payload().len() == 24,
{
    lemma_primaries(o.display_primaries@, 0, 0);
}

/// Serializing an owned box gives a box that passes the checks and reads back every field.
pub proof fn lemma_roundtrip(o: &MasteringDisplayColourVolumeBoxOwned)
    ensures
        spec_check(o.spec_bytes()) is Ok,
        spec_display_primaries(o.spec_bytes()) == o.display_primaries@,
        spec_u16_at(o.spec_bytes(), 12) == o.white_point_x,
        spec_u16_at(o.spec_bytes(), 14) == o.white_point_y,
        spec_u32_at(o.spec_bytes(), 16) == o.max_display_mastering_luminance,
        spec_u32_at(o.spec_bytes(), 20) == o.min_display_mastering_luminance,
        whole_box(o.spec_bytes()),
        explicit_size(o.spec_bytes()),
{
    let s = o.spec_bytes();
    let p = o.spec_payload();
    lemma_payload_len(o);
    lemma_box_roundtrip(BOX_TYPE, p);
    lemma_box_bytes_whole(BOX_TYPE, p);
    assert(spec_check_box(s, BOX_TYPE, 24) is Ok);
    let hl = header_len(s);
    assert(s.subrange(hl, s.len() as int) == p);
    assert forall|k: int| 0 <= k < 24 implies s[hl + k] == p[k] by {
        assert(s[hl + k] == s.subrange(hl, s.len() as int)[k]);
    }
    let ps = o.display_primaries@;
    let pf = ps.map_values(|v: u16| u16_bytes(v)).flatten();
    assert forall|i: int| 0 <= i < 6 implies #[trigger] spec_display_primaries(s)[i] == ps[i] by {
        lemma_primaries(ps, i, 0);
        lemma_primaries(ps, i, 1);
        lemma_u16_roundtrip(ps[i]);
        assert(p[2 * i] == pf[2 * i]);
        assert(p[2 * i + 1] == pf[2 * i + 1]);
        reveal(u16_bytes);
    }
    assert(spec_display_primaries(s) =~= ps);
    lemma_u16_roundtrip(o.white_point_x);
    lemma_u16_roundtrip(o.white_point_y);
    lemma_u32_roundtrip(o.max_display_mastering_luminance);
    lemma_u32_roundtrip(o.min_display_mastering_luminance);
    reveal(u16_bytes);
    reveal(u32_bytes);
}

/// Writing the owned box that holds what the box `s` reads gives back `s`,
/// where `s` has a header that declares its whole length in the fewest bytes
/// and no bytes beyond its fields.
#[verifier::spinoff_prover]
#[verifier::rlimit(40)]
pub proof fn lemma_lossless(s: Seq<u8>, o: &MasteringDisplayColourVolumeBoxOwned)
    requires
        spec_check(s) is Ok,
        canonical_header(s),
        payload_of(s).len() == 24,
        o.display_primaries@ == spec_display_primaries(s),
        o.white_point_x == spec_u16_at(s, 12),
        o.white_point_y == spec_u16_at(s, 14),
        o.max_display_mastering_luminance == spec_u32_at(s, 16),
        o.min_display_mastering_luminance == spec_u32_at(s, 20),
    ensures
        o.spec_bytes() == s,
{
    let p = payload_of(s);
    let hl = header_len(s);
    let dp = o.display_primaries@;
    let ss = dp.map_values(|v: u16| u16_bytes(v));
    assert forall|i: int| 0 <= i < ss.len() implies #[trigger] ss[i] == p.subrange(2 * i, 2 * i + 2) by {
        assert(be16(s, hl + 2 * i) == be16(p, 2 * i));
        lemma_u16_bytes_of(p, 2 * i);
    }
    lemma_flatten_chunks(p, 0, 2, ss);
    assert(be16(s, hl + 12) == be16(p, 12));
    assert(be16(s, hl + 14) == be16(p, 14));
    assert(be32(s, hl + 16) == be32(p, 16));
    assert(be32(s, hl + 20) == be32(p, 20));
    lemma_u16_bytes_of(p, 12);
    lemma_u16_bytes_of(p, 14);
    lemma_u32_bytes_of(p, 16);
    lemma_u32_bytes_of(p, 20);
    assert(p.subrange(0, 12) + p.subrange(12, 14) + p.subrange(14, 16) + p.subrange(16, 20) + p.subrange(20, 24) =~= p);
    lemma_box_bytes_of(s);
}

/// The MasteringDisplayColourVolumeBox payload holds the six display
/// primaries in two bytes each, then the white point in two more each, then
/// the maximum and minimum luminance in four bytes each, all big-endian.
pub proof fn lemma_field_layout(s: Seq<u8>)
    requires
        spec_check(s) is Ok,
    ensures
        ({
            let h = header_len(s);
            &&& spec_display_primaries(s).len() == 6
            &&& (forall|i: int| 0 <= i < 6 ==> #[trigger] spec_display_primaries(s)[i] == be16(s, h + 2 * i))
            &&& spec_u16_at(s, 12) == be16(s, h + 12)
            &&& spec_u16_at(s, 14) == be16(s, h + 14)
            &&& spec_u32_at(s, 16) == be32(s, h + 16)
            &&& spec_u32_at(s, 20) == be32(s, h + 20)
        }),
{
}

} // verus!
