//! Padding Bits Box (padb) parsing and serialization.
//!
//! The Padding Bits Box specifies padding bits for samples.
//!
//! ```text
//! aligned(8) class PaddingBitsBox
//!    extends FullBox('padb', version = 0, 0) {
//!    unsigned int(32) sample_count;
//!    for (i=0; i < ((sample_count + 1)/2); i++) {
//!       bit(1) reserved = 0;
//!       bit(3) pad1;
//!       bit(1) reserved = 0;
//!       bit(3) pad2;
//!    }
//! }
//! ```

use vstd::prelude::*;
use crate::bytes::{lemma_u32_bytes_of, be32, lemma_u32_roundtrip, read_u24, read_u32, saturating_add, u32_bytes, write_all, write_u32, write_u8};
use crate::code::BoxCode;
use crate::container::{explicit_size, lemma_box_bytes_whole, lemma_fullbox_bytes_whole, whole_box};
use crate::error::{ParseError, WriteError, entries_fit, validate_entry_count};
use crate::header::{canonical_header, lemma_fullbox_bytes_of, 
    BoxHeader, FullBoxHeader, begin_box, begin_fullbox, box_bytes, box_fits, flags_of, fullbox_bytes, fullbox_payload_of,
    header_len, lemma_box_roundtrip, lemma_fullbox_roundtrip, payload_of, saturating_box_size, saturating_fullbox_size,
    spec_check_box, spec_check_fullbox, version_of,
};

verus! {

broadcast use crate::bytes::group_bytes_len;
/// The box type identifier for PaddingBitsBox (`padb`).
pub const BOX_TYPE: BoxCode = 0x7061_6462;

/// Number of padding bytes for `count` samples: two samples share a byte.
pub open spec fn spec_pad_bytes(count: int) -> int {
    (count + 1) / 2
}

/// The sample count field of the box `s`.
pub open spec fn spec_sample_count(s: Seq<u8>) -> u32 {
    be32(s, header_len(s) + 4) as u32
}

/// The header of the PaddingBitsBox `s`, or why `s` is not one: the box must
/// hold a padding byte for every two samples it counts.
pub open spec fn spec_check(s: Seq<u8>) -> Result<FullBoxHeader, ParseError> {
    match spec_check_fullbox(s, BOX_TYPE, None, 4) {
        Err(e) => Err(e),
        Ok(h) => {
            let off = h.box_header.header_size + 8;
            let count = spec_pad_bytes(be32(s, h.box_header.header_size + 4));
            if entries_fit(s.len() as int, off, count, 1) {
                Ok(h)
            } else {
                Err(ParseError::InvalidEntryCount {
                    count: count as u32,
                    available: if off <= s.len() { (s.len() - off) as usize } else { 0 },
                })
            }
        },
    }
}

/// The padding pair of a padding byte: bits 6-4 and bits 2-0.
pub open spec fn pads_of(b: u8) -> (u8, u8) {
    (((b / 16) % 8) as u8, (b % 8) as u8)
}

/// The padding pairs of the box `s`, one per padding byte its sample count needs.
pub open spec fn spec_paddings(s: Seq<u8>) -> Seq<(u8, u8)> {
    Seq::new(spec_pad_bytes(spec_sample_count(s) as int) as nat, |i: int| pads_of(s[header_len(s) + 8 + i]))
}

/// Common interface for accessing PaddingBitsBox data.
pub trait PaddingBitsBox {
    /// Returns the total size of the box in bytes.
    fn box_size(&self) -> u64;

    /// Returns the box type.
    fn box_type(&self) -> BoxCode;

    /// Returns the version of the box.
    fn version(&self) -> u8;

    /// Returns the flags.
    fn flags(&self) -> u32;

    /// Returns the sample count.
    fn sample_count(&self) -> u32;

    /// Returns all padding values.
    fn paddings(&self) -> Vec<(u8, u8)>;
}

/// A borrowing view over raw PaddingBitsBox bytes.
#[derive(Clone, Copy, Debug)]
pub struct PaddingBitsBoxView<'a> {
    data: &'a [u8],
    fullbox_offset: usize,
    sample_count: u32,
}

impl<'a> PaddingBitsBoxView<'a> {
    #[verifier::type_invariant]
    closed spec fn inv(&self) -> bool {
        &&& spec_check(self.data@) is Ok
        &&& self.fullbox_offset == header_len(self.data@)
        &&& self.sample_count == spec_sample_count(self.data@)
        &&& self.data@.len() <= usize::MAX
    }

    /// The bytes of the box.
    pub closed spec fn spec_data(&self) -> Seq<u8> {
        self.data@
    }

    /// Creates a new view over the given bytes.
    pub fn new(data: &'a [u8]) -> (r: Result<Self, ParseError>)
        ensures
            match r {
                Ok(v) => v.spec_data() == data@ && spec_check(data@) is Ok,
                Err(e) => spec_check(data@) == Err::<FullBoxHeader, ParseError>(e),
            },
    {
        let header = FullBoxHeader::parse(data, data.len())?;
        let fullbox_offset = header.validate(data, BOX_TYPE, None, 4)?;
        let sample_count = read_u32(data, fullbox_offset + 4);
        // Two samples share each padding byte. Bound the count by the bytes
        // present, so a hostile count cannot make `paddings()` iterate billions
        // of times to yield nothing.
        let pad_count: u32 = sample_count / 2 + sample_count % 2;
        validate_entry_count(data, fullbox_offset + 8, pad_count, 1)?;
        Ok(Self { data, fullbox_offset, sample_count })
    }

    /// Returns the underlying byte slice.
    pub fn as_bytes(&self) -> (r: &'a [u8])
        ensures
            r@ == self.spec_data(),
    {
        self.data
    }

    /// Returns the padding value for a sample pair.
    /// Each byte contains padding for 2 samples: pad1 in high nibble, pad2 in low nibble.
    pub fn padding(&self, index: usize) -> (r: Option<(u8, u8)>)
        ensures
            r is Some <==> header_len(self.spec_data()) + 8 + index < self.spec_data().len(),
            r matches Some(p) ==> p == pads_of(self.spec_data()[header_len(self.spec_data()) + 8 + index]),
    {
        proof { use_type_invariant(self); }
        if index >= self.data.len() - (self.fullbox_offset + 8) {
            return None;
        }
        let offset = self.fullbox_offset + 8 + index;
        let byte = self.data[offset];
        // High nibble: reserved(1 bit) + pad1(3 bits)
        // Low nibble: reserved(1 bit) + pad2(3 bits)
        let pad1 = (byte / 16) % 8;
        let pad2 = byte % 8;
        Some((pad1, pad2))
    }
}

impl<'a> PaddingBitsBox for PaddingBitsBoxView<'a> {

    fn box_size(&self) -> (r: u64)
        ensures
            r == self.spec_data().len(),
    {
        self.data.len() as u64
    }

    fn box_type(&self) -> (r: BoxCode)
        ensures
            r == BOX_TYPE,
    {
        BOX_TYPE
    }

    fn version(&self) -> (r: u8)
        ensures
            r == version_of(self.spec_data()),
    {
        proof { use_type_invariant(self); }
        self.data[self.fullbox_offset]
    }

    fn flags(&self) -> (r: u32)
        ensures
            r == flags_of(self.spec_data()),
    {
        proof { use_type_invariant(self); }
        read_u24(self.data, self.fullbox_offset + 1)
    }

    fn sample_count(&self) -> (r: u32)
        ensures
            r == spec_sample_count(self.spec_data()),
    {
        proof { use_type_invariant(self); }
        self.sample_count
    }

    fn paddings(&self) -> (r: Vec<(u8, u8)>)
        ensures
            r@ == spec_paddings(self.spec_data()),
    {
        proof { use_type_invariant(self); }
        let count = (self.sample_count / 2 + self.sample_count % 2) as usize;
        let ghost ps = spec_paddings(self.data@);
        let mut r: Vec<(u8, u8)> = Vec::new();
        let mut i: usize = 0;
        while i < count
            invariant
                spec_check(self.data@) is Ok,
                self.fullbox_offset == header_len(self.data@),
                self.sample_count == spec_sample_count(self.data@),
                self.data@.len() <= usize::MAX,
                ps == spec_paddings(self.data@),
                count == ps.len(),
                i <= count,
                r@ == ps.take(i as int),
            decreases count - i,
        {
            match self.padding(i) {
                Some(p) => {
                    assert(ps.take(i + 1) =~= ps.take(i as int).push(p));
                    r.push(p);
                },
                None => {},
            }
            i = i + 1;
        }
        assert(ps.take(count as int) =~= ps);
        r
    }
}

/// The padding byte of a padding pair.
pub open spec fn pad_byte(p: (u8, u8)) -> u8 {
    ((p.0 % 8) * 16 + p.1 % 8) as u8
}

/// An owned representation of PaddingBitsBox data.
#[derive(Clone, Debug, PartialEq, Eq)]
pub struct PaddingBitsBoxOwned {
    /// Flags.
    pub flags: u32,
    /// Sample count.
    pub sample_count: u32,
    /// Padding values (each tuple has pad1, pad2).
    pub paddings: Vec<(u8, u8)>,
}

impl PaddingBitsBoxOwned {
    /// The padding bytes written: one per padding pair held.
    pub open spec fn spec_pad_bytes_written(&self) -> Seq<u8> {
        self.paddings@.map_values(|p: (u8, u8)| pad_byte(p))
    }

    /// The serialized bytes: the header declares a payload sized by the
    /// sample count, followed by the count and one byte per padding pair held.
    pub open spec fn spec_bytes(&self) -> Seq<u8> {
        crate::header::box_header_bytes(
            crate::header::spec_box_size(4 + 4 + spec_pad_bytes(self.sample_count as int)),
            BOX_TYPE,
        ) + crate::header::version_flags_bytes(0, self.flags) + u32_bytes(self.sample_count) + self.spec_pad_bytes_written()
    }

    /// Creates a new PaddingBitsBoxOwned.
    pub fn new() -> (r: Self)
        ensures
            r.flags == 0,
            r.sample_count == 0,
            r.paddings@.len() == 0,
    {
        Self { flags: 0, sample_count: 0, paddings: Vec::new() }
    }

    /// Returns the serialized size the header declares.
    fn serialized_size(&self) -> (r: u64)
        ensures
            r == crate::header::spec_box_size(4 + 4 + spec_pad_bytes(self.sample_count as int)),
    {
        let padding_bytes = (self.sample_count / 2 + self.sample_count % 2) as u64;
        4 + padding_bytes + crate::header::fullbox_header_size_for_payload(4 + padding_bytes)
    }

    /// Writes the box to the given vector.
    pub fn write_to(&self, out: &mut Vec<u8>) -> (r: Result<(), WriteError>)
        ensures
            r is Ok,
            final(out)@ == old(out)@ + self.spec_bytes(),
    {
        let padding_bytes = (self.sample_count / 2 + self.sample_count % 2) as u64;
        let ghost start = out@;
        match begin_fullbox(out, BOX_TYPE, 0, self.flags, 4 + padding_bytes) {
            Ok(()) => {},
            Err(e) => {
                return Err(e);
            },
        }
        write_u32(out, self.sample_count);
        let ghost mid = out@;
        let ghost pb = self.spec_pad_bytes_written();
        let mut i: usize = 0;
        while i < self.paddings.len()
            invariant
                i <= self.paddings@.len(),
                pb == self.spec_pad_bytes_written(),
                out@ == mid + pb.take(i as int),
            decreases self.paddings@.len() - i,
        {
            let (pad1, pad2) = self.paddings[i];
            write_u8(out, (pad1 % 8) * 16 + pad2 % 8);
            assert(pb.take(i + 1) =~= pb.take(i as int).push(pb[i as int]));
            i = i + 1;
        }
        assert(pb.take(i as int) =~= pb);
        assert(out@ =~= start + self.spec_bytes());
        Ok(())
    }

    /// Creates an owned copy of the box that `source` views.
    pub fn from(source: &PaddingBitsBoxView<'_>) -> (r: Self)
        ensures
            r.flags == flags_of(source.spec_data()),
            r.sample_count == spec_sample_count(source.spec_data()),
            r.paddings@ == spec_paddings(source.spec_data()),
    {
        Self { flags: source.flags(), sample_count: source.sample_count(), paddings: source.paddings() }
    }
}

impl Default for PaddingBitsBoxOwned {
    fn default() -> (r: Self)
        ensures
            r.flags == 0,
            r.sample_count == 0,
            r.paddings@.len() == 0,
    {
        Self::new()
    }
}

impl PaddingBitsBox for PaddingBitsBoxOwned {
    fn box_size(&self) -> (r: u64)
        ensures
            r == crate::header::spec_box_size(4 + 4 + spec_pad_bytes(self.sample_count as int)),
    {
        self.serialized_size()
    }

    fn box_type(&self) -> (r: BoxCode)
        ensures
            r == BOX_TYPE,
    {
        BOX_TYPE
    }

    fn version(&self) -> (r: u8)
        ensures
            r == 0,
    {
        0
    }

    fn flags(&self) -> (r: u32)
        ensures
            r == self.flags,
    {
        self.flags
    }

    fn sample_count(&self) -> (r: u32)
        ensures
            r == self.sample_count,
    {
        self.sample_count
    }

    fn paddings(&self) -> (r: Vec<(u8, u8)>)
        ensures
            r@ == self.paddings@,
    {
        let mut r: Vec<(u8, u8)> = Vec::new();
        let mut i: usize = 0;
        while i < self.paddings.len()
            invariant
                i <= self.paddings@.len(),
                r@ == self.paddings@.take(i as int),
            decreases self.paddings@.len() - i,
        {
            r.push(self.paddings[i]);
            assert(self.paddings@.take(i + 1) =~= self.paddings@.take(i as int).push(self.paddings@[i as int]));
            i = i + 1;
        }
        assert(self.paddings@.take(i as int) =~= self.paddings@);
        r
    }
}

/// Serializing an owned box that holds one padding pair per two samples, each
/// value within three bits, gives a box that passes the checks and reads back
/// its flags, sample count and padding pairs.
pub proof fn lemma_roundtrip(o: &PaddingBitsBoxOwned)
    requires
        o.paddings@.len() == spec_pad_bytes(o.sample_count as int),
        forall|i: int| 0 <= i < o.paddings@.len() ==> (#[trigger] o.paddings@[i]).0 < 8 && o.paddings@[i].1 < 8,
    ensures
        spec_check(o.spec_bytes()) is Ok,
        flags_of(o.spec_bytes()) == o.flags % 0x100_0000,
        spec_sample_count(o.spec_bytes()) == o.sample_count,
        spec_paddings(o.spec_bytes()) == o.paddings@,
        whole_box(o.spec_bytes()),
        explicit_size(o.spec_bytes()),
{
    let p = u32_bytes(o.sample_count) + o.spec_pad_bytes_written();
    let s = o.spec_bytes();
    assert(s =~= fullbox_bytes(BOX_TYPE, 0, o.flags, p));
    lemma_fullbox_roundtrip(BOX_TYPE, 0, o.flags, p);
    lemma_fullbox_bytes_whole(BOX_TYPE, 0, o.flags, p);
    lemma_u32_roundtrip(o.sample_count);
    assert(spec_check_fullbox(s, BOX_TYPE, None, 4) is Ok);
    let hl = header_len(s);
    assert(s.subrange(hl + 4, s.len() as int) == p);
    assert forall|k: int| 0 <= k < p.len() implies s[hl + 4 + k] == p[k] by {
        assert(s[hl + 4 + k] == s.subrange(hl + 4, s.len() as int)[k]);
    }
    assert(be32(s, hl + 4) == be32(p, 0));
    assert(be32(p, 0) == be32(u32_bytes(o.sample_count), 0));
    assert forall|i: int| 0 <= i < o.paddings@.len() implies #[trigger] spec_paddings(s)[i] == o.paddings@[i] by {
        assert(s[hl + 8 + i] == p[4 + i]);
    }
    assert(spec_paddings(s) =~= o.paddings@);
}

/// Writing the owned box that holds what the box `s` reads gives back `s`,
/// where `s` has a header that declares its whole length in the fewest bytes,
/// version 0, no bytes beyond its padding bytes, and no reserved bit set in
/// them.
#[verifier::spinoff_prover]
#[verifier::rlimit(40)]
pub proof fn lemma_lossless(s: Seq<u8>, o: &PaddingBitsBoxOwned)
    requires
        spec_check(s) is Ok,
        canonical_header(s),
        version_of(s) == 0,
        s.len() == header_len(s) + 8 + spec_pad_bytes(spec_sample_count(s) as int),
        forall|i: int| header_len(s) + 8 <= i < s.len() ==> #[trigger] s[i] < 128 && s[i] % 16 < 8,
        o.flags == flags_of(s),
        o.sample_count == spec_sample_count(s),
        o.paddings@ == spec_paddings(s),
    ensures
        o.spec_bytes() == s,
{
    let p = fullbox_payload_of(s);
    let hl = header_len(s);
    let pads = o.spec_pad_bytes_written();
    assert(pads =~= p.subrange(4, p.len() as int)) by {
        assert forall|i: int| 0 <= i < pads.len() implies #[trigger] pads[i] == p.subrange(4, p.len() as int)[i] by {
            let b = s[hl + 8 + i];
            assert(b < 128 && b % 16 < 8);
            assert(((b / 16) % 8) * 16 + b % 8 == b) by (nonlinear_arith)
                requires b < 128, b % 16 < 8;
        }
    }
    assert(be32(s, hl + 4) == be32(p, 0));
    lemma_u32_bytes_of(p, 0);
    assert(p.subrange(0, 4) + p.subrange(4, p.len() as int) =~= p);
    lemma_fullbox_bytes_of(s);
    assert(o.spec_bytes() =~= fullbox_bytes(BOX_TYPE, 0, o.flags, u32_bytes(o.sample_count) + pads));
}

/// The PaddingBitsBox holds, after version and flags, the sample count in
/// four bytes, big-endian, then one byte per two samples: a reserved bit,
/// three bits of padding for the first sample, a reserved bit and three bits
/// of padding for the second.
pub proof fn lemma_field_layout(s: Seq<u8>)
    requires
        spec_check(s) is Ok,
    ensures
        ({
            let h = header_len(s);
            &&& spec_sample_count(s) == be32(s, h + 4)
            &&& forall|i: int| 0 <= i < spec_paddings(s).len() ==> {
                &&& (#[trigger] spec_paddings(s)[i]).0 == (s[h + 8 + i] / 16) % 8
                &&& spec_paddings(s)[i].1 == s[h + 8 + i] % 8
            }
        }),
{
}

} // verus!
