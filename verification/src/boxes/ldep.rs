//! Tier Dependency Box (ldep) parsing and serialization.
//!
//! The Tier Dependency Box specifies tier dependencies for MVC multiview groups.
//!
//! ```text
//! aligned(8) class TierDependencyBox extends Box('ldep') {
//!    unsigned int(16) numTierDependencies;
//!    for (i = 0; i < numTierDependencies; i++) {
//!       unsigned int(16) dependencyTierId;
//!    }
//! }
//! ```

use vstd::prelude::*;
use crate::bytes::{lemma_u16_bytes_of, lemma_flatten_chunks, be16, lemma_u16_roundtrip, read_u16, u16_bytes, write_u16};
use crate::code::BoxCode;
use crate::container::{explicit_size, lemma_box_bytes_whole, whole_box};
use crate::error::{ParseError, WriteError};
use crate::header::{payload_of, canonical_header, lemma_box_bytes_of, BoxHeader, begin_box, box_bytes, box_fits, header_len, lemma_box_roundtrip, saturating_box_size, spec_check_box};

verus! {

broadcast use crate::bytes::group_bytes_len;

/// The box type identifier for TierDependencyBox (`ldep`).
pub const BOX_TYPE: BoxCode = 0x6c64_6570;

/// The number of dependency tier IDs the box `s` declares.
pub open spec fn spec_count(s: Seq<u8>) -> int {
    be16(s, header_len(s))
}

/// The header of the TierDependencyBox `s`, or why `s` is not one: the box
/// must hold the count and every ID it declares.
pub open spec fn spec_check(s: Seq<u8>) -> Result<BoxHeader, ParseError> {
    match spec_check_box(s, BOX_TYPE, 2) {
        Err(e) => Err(e),
        Ok(h) => {
            let need = h.header_size + 2 + 2 * be16(s, h.header_size as int);
            if s.len() < need {
                Err(ParseError::BufferTooShort { expected: need as usize, found: s.len() as usize })
            } else {
                Ok(h)
            }
        },
    }
}

/// The dependency tier IDs of the box `s`.
pub open spec fn spec_ids(s: Seq<u8>) -> Seq<u16> {
    Seq::new(spec_count(s) as nat, |i: int| be16(s, header_len(s) + 2 + 2 * i) as u16)
}

/// Common interface for accessing TierDependencyBox data.
pub trait TierDependencyBox {
    /// Returns the total size of the box in bytes.
    fn box_size(&self) -> u64;
    /// Returns the box type.
    fn box_type(&self) -> BoxCode;
    /// Returns the number of dependency tier IDs.
    fn num_tier_dependencies(&self) -> u16;
    /// Returns the dependency tier ID at the given index.
    fn dependency_tier_id(&self, index: usize) -> Option<u16>;
    /// Returns all dependency tier IDs, in order.
    fn dependency_tier_ids(&self) -> Vec<u16>;
}

/// A borrowing view over raw TierDependencyBox bytes.
#[derive(Clone, Copy, Debug)]
pub struct TierDependencyBoxView<'a> {
    data: &'a [u8],
    header_size: usize,
    num_tier_dependencies: u16,
}

impl<'a> TierDependencyBoxView<'a> {
    #[verifier::type_invariant]
    closed spec fn inv(&self) -> bool {
        &&& spec_check(self.data@) is Ok
        &&& self.header_size == header_len(self.data@)
        &&& self.num_tier_dependencies == spec_count(self.data@)
    }

    /// The bytes of the box.
    pub closed spec fn spec_data(&self) -> Seq<u8> {
        self.data@
    }

    /// Creates a new view over the given bytes.
    pub fn new(data: &'a [u8]) -> (r: Result<Self, ParseError>)
        ensures
            match r {
                Ok(v) => v.spec_data() == data@ && spec_check(data@) is Ok,
                Err(e) => spec_check(data@) == Err::<BoxHeader, ParseError>(e),
            },
    {
        let header = BoxHeader::parse(data, data.len())?;
        header.validate(data, BOX_TYPE, 2)?;
        let header_size = header.header_size as usize;
        let num_tier_dependencies = read_u16(data, header_size);
        let expected_size = header_size + 2 + (num_tier_dependencies as usize) * 2;
        if data.len() < expected_size {
            return Err(ParseError::BufferTooShort { expected: expected_size, found: data.len() });
        }
        Ok(Self { data, header_size, num_tier_dependencies })
    }

    /// Returns the underlying byte slice.
    pub fn as_bytes(&self) -> (r: &'a [u8])
        ensures
            r@ == self.spec_data(),
    {
        self.data
    }
}

impl<'a> TierDependencyBox for TierDependencyBoxView<'a> {
    fn box_size(&self) -> (r: u64)
        ensures
            r == self.spec_data().len(),
    {
        self.data.len() as u64
    }

    fn box_type(&self) -> (r: BoxCode)
        ensures
            r == BOX_TYPE,
    {
        BOX_TYPE
    }

    fn num_tier_dependencies(&self) -> (r: u16)
        ensures
            r == spec_count(self.spec_data()),
    {
        proof { use_type_invariant(self); }
        self.num_tier_dependencies
    }

    fn dependency_tier_id(&self, index: usize) -> (r: Option<u16>)
        ensures
            r is Some <==> index < spec_ids(self.spec_data()).len(),
            r matches Some(v) ==> v == spec_ids(self.spec_data())[index as int],
    {
        proof { use_type_invariant(self); }
        if index >= self.num_tier_dependencies as usize {
            return None;
        }
        let o = self.header_size + 2 + index * 2;
        Some(read_u16(self.data, o))
    }

    fn dependency_tier_ids(&self) -> (r: Vec<u16>)
        ensures
            r@ == spec_ids(self.spec_data()),
    {
        proof { use_type_invariant(self); }
        let n = self.num_tier_dependencies as usize;
        let start = self.header_size + 2;
        let mut r: Vec<u16> = Vec::new();
        let mut i: usize = 0;
        while i < n
            invariant
                spec_check(self.data@) is Ok,
                self.header_size == header_len(self.data@),
                n == spec_count(self.data@),
                start == self.header_size + 2,
                i <= n,
                r@ == spec_ids(self.data@).take(i as int),
            decreases n - i,
        {
            r.push(read_u16(self.data, start + i * 2));
            assert(spec_ids(self.data@).take(i + 1) =~= spec_ids(self.data@).take(i as int).push(spec_ids(self.data@)[i as int]));
            i = i + 1;
        }
        assert(spec_ids(self.data@).take(n as int) =~= spec_ids(self.data@));
        r
    }
}

/// The encoded IDs, two bytes each.
pub open spec fn ids_bytes(ids: Seq<u16>) -> Seq<u8> {
    ids.map_values(|v: u16| u16_bytes(v)).flatten()
}

/// An owned representation of TierDependencyBox data.
#[derive(Clone, Debug, PartialEq, Eq)]
pub struct TierDependencyBoxOwned {
    /// Dependency tier IDs.
    pub dependency_tier_ids: Vec<u16>,
}

impl TierDependencyBoxOwned {
    /// The payload: the ID count's low 16 bits and the IDs.
    pub open spec fn spec_payload(&self) -> Seq<u8> {
        u16_bytes((self.dependency_tier_ids@.len() % 0x10000) as u16) + ids_bytes(self.dependency_tier_ids@)
    }

    /// The serialized bytes of the box.
    pub open spec fn spec_bytes(&self) -> Seq<u8> {
        box_bytes(BOX_TYPE, self.spec_payload())
    }

    /// The box fits in 64-bit size fields.
    pub open spec fn spec_fits(&self) -> bool {
        box_fits(self.spec_payload().len() as int)
    }

    /// Returns the serialized size of the box, or `u64::MAX` when it does not fit.
    fn serialized_size(&self) -> (r: u64)
        ensures
            r == if self.spec_fits() { self.spec_bytes().len() as int } else { 0xffff_ffff_ffff_ffff },
    {
        proof {
            lemma_ids_bytes_len(self.dependency_tier_ids@);
            if self.spec_fits() { lemma_box_roundtrip(BOX_TYPE, self.spec_payload()); }
        }
        let n = self.dependency_tier_ids.len() as u64;
        assert(self.spec_payload().len() == 2 + 2 * n);
        if n > 0x7fff_ffff_ffff_fffe {
            return 0xffff_ffff_ffff_ffff;
        }
        saturating_box_size(2 + n * 2)
    }

    /// Writes the box to the given vector.
    pub fn write_to(&self, out: &mut Vec<u8>) -> (r: Result<(), WriteError>)
        ensures
            r is Ok <==> self.spec_fits(),
            r is Ok ==> final(out)@ == old(out)@ + self.spec_bytes(),
            r is Err ==> final(out)@ == old(out)@,
    {
        proof { lemma_ids_bytes_len(self.dependency_tier_ids@); }
        let n = self.dependency_tier_ids.len() as u64;
        assert(self.spec_payload().len() == 2 + 2 * n);
        if n > 0x7fff_ffff_ffff_fffe {
            return Err(WriteError::SizeOverflow);
        }
        match begin_box(out, BOX_TYPE, 2 + n * 2) {
            Ok(()) => {},
            Err(e) => {
                return Err(e);
            },
        }
        let ghost start = out@;
        write_u16(out, (self.dependency_tier_ids.len() % 0x10000) as u16);
        let ghost mid = out@;
        let ghost ids = self.dependency_tier_ids@;
        let ghost ib = ids.map_values(|v: u16| u16_bytes(v));
        let mut i: usize = 0;
        while i < self.dependency_tier_ids.len()
            invariant
                i <= ids.len(),
                ids == self.dependency_tier_ids@,
                ib == ids.map_values(|v: u16| u16_bytes(v)),
                out@ == mid + ib.take(i as int).flatten(),
            decreases ids.len() - i,
        {
            write_u16(out, self.dependency_tier_ids[i]);
            proof {
                assert(ib.take(i + 1) =~= ib.take(i as int).push(ib[i as int]));
                ib.take(i as int).lemma_flatten_push(ib[i as int]);
            }
            i = i + 1;
        }
        assert(ib.take(i as int) =~= ib);
        assert(out@ =~= start + self.spec_payload());
        Ok(())
    }

    /// Creates an owned copy of the box that `source` views.
    pub fn from(source: &TierDependencyBoxView<'_>) -> (r: Self)
        ensures
            r.dependency_tier_ids@ == spec_ids(source.spec_data()),
    {
        Self { dependency_tier_ids: source.dependency_tier_ids() }
    }
}

impl TierDependencyBox for TierDependencyBoxOwned {
    fn box_size(&self) -> (r: u64)
        ensures
            r == if self.spec_fits() { self.spec_bytes().len() as int } else { 0xffff_ffff_ffff_ffff },
    {
        self.serialized_size()
    }

    fn box_type(&self) -> (r: BoxCode)
        ensures
            r == BOX_TYPE,
    {
        BOX_TYPE
    }

    fn num_tier_dependencies(&self) -> (r: u16)
        ensures
            r == self.dependency_tier_ids@.len() % 0x10000,
    {
        (self.dependency_tier_ids.len() % 0x10000) as u16
    }

    fn dependency_tier_id(&self, index: usize) -> (r: Option<u16>)
        ensures
            r is Some <==> index < self.dependency_tier_ids@.len(),
            r matches Some(v) ==> v == self.dependency_tier_ids@[index as int],
    {
        if index < self.dependency_tier_ids.len() {
            Some(self.dependency_tier_ids[index])
        } else {
            None
        }
    }

    fn dependency_tier_ids(&self) -> (r: Vec<u16>)
        ensures
            r@ == self.dependency_tier_ids@,
    {
        let mut r: Vec<u16> = Vec::new();
        let mut i: usize = 0;
        while i < self.dependency_tier_ids.len()
            invariant
                i <= self.dependency_tier_ids@.len(),
                r@ == self.dependency_tier_ids@.take(i as int),
            decreases self.dependency_tier_ids@.len() - i,
        {
            r.push(self.dependency_tier_ids[i]);
            assert(self.dependency_tier_ids@.take(i + 1) =~= self.dependency_tier_ids@.take(i as int).push(self.dependency_tier_ids@[i as int]));
            i = i + 1;
        }
        assert(self.dependency_tier_ids@.take(i as int) =~= self.dependency_tier_ids@);
        r
    }
}

/// The encoded IDs have two bytes each.
proof fn lemma_ids_bytes_len(ids: Seq<u16>)
    ensures
        ids_bytes(ids).len() == 2 * ids.len(),
    decreases ids.len(),
{
    if ids.len() > 0 {
        let init = ids.drop_last();
        lemma_ids_bytes_len(init);
        assert(ids.map_values(|v: u16| u16_bytes(v)) =~= init.map_values(|v: u16| u16_bytes(v)).push(u16_bytes(ids.last())));
        init.map_values(|v: u16| u16_bytes(v)).lemma_flatten_push(u16_bytes(ids.last()));
    } else {
        assert(ids.map_values(|v: u16| u16_bytes(v)) =~= Seq::<Seq<u8>>::empty());
    }
}

/// Byte `2 * i + j` of the encoded IDs is byte `j` of ID `i`.
proof fn lemma_ids_byte(ids: Seq<u16>, i: int, j: int)
    requires
        0 <= i < ids.len(),
        0 <= j < 2,
    ensures
        ids_bytes(ids)[2 * i + j] == u16_bytes(ids[i])[j],
    decreases ids.len(),
{
    let init = ids.drop_last();
    assert(ids.map_values(|v: u16| u16_bytes(v)) =~= init.map_values(|v: u16| u16_bytes(v)).push(u16_bytes(ids.last())));
    init.map_values(|v: u16| u16_bytes(v)).lemma_flatten_push(u16_bytes(ids.last()));
    lemma_ids_bytes_len(init);
    if i < ids.len() - 1 {
        lemma_ids_byte(init, i, j);
    }
}

/// Serializing an owned box with fewer than 65536 IDs gives a box that passes
/// the checks and reads back every ID, in order.
pub proof fn lemma_roundtrip(o: &TierDependencyBoxOwned)
    requires
        o.spec_fits(),
        o.dependency_tier_ids@.len() < 0x10000,
    ensures
        spec_check(o.spec_bytes()) is Ok,
        spec_ids(o.spec_bytes()) == o.dependency_tier_ids@,
        whole_box(o.spec_bytes()),
        explicit_size(o.spec_bytes()),
{
    let s = o.spec_bytes();
    let p = o.spec_payload();
    let ids = o.dependency_tier_ids@;
    let n = ids.len() as u16;
    lemma_box_roundtrip(BOX_TYPE, p);
    lemma_box_bytes_whole(BOX_TYPE, p);
    lemma_ids_bytes_len(ids);
    lemma_u16_roundtrip(n);
    let hl = header_len(s);
    assert(spec_check_box(s, BOX_TYPE, 2) is Ok);
    assert(s.subrange(hl, s.len() as int) == p);
    assert(be16(s, hl) == be16(p, 0)) by {
        assert(s[hl] == p[0]);
        assert(s[hl + 1] == p[1]);
    }
    assert(be16(p, 0) == n) by {
        reveal(u16_bytes);
    }
    assert forall|i: int| 0 <= i < ids.len() implies be16(s, hl + 2 + 2 * i) as u16 == #[trigger] ids[i] by {
        lemma_ids_byte(ids, i, 0);
        lemma_ids_byte(ids, i, 1);
        lemma_u16_roundtrip(ids[i]);
        assert(s[hl + 2 + 2 * i] == p[2 + 2 * i]);
        assert(s[hl + 2 + 2 * i + 1] == p[2 + 2 * i + 1]);
    }
    assert(spec_ids(s) =~= ids);
}

/// Writing the owned box that holds the IDs of the box `s` gives back `s`,
/// where `s` has a header that declares its whole length in the fewest bytes
/// and no bytes beyond its IDs.
pub proof fn lemma_lossless(s: Seq<u8>, o: &TierDependencyBoxOwned)
    requires
        spec_check(s) is Ok,
        canonical_header(s),
        s.len() == header_len(s) + 2 + 2 * spec_count(s),
        o.dependency_tier_ids@ == spec_ids(s),
    ensures
        o.spec_bytes() == s,
{
    let p = payload_of(s);
    let hl = header_len(s);
    let ids = o.dependency_tier_ids@;
    let n = ids.len() as int;
    lemma_u16_bytes_of(p, 0);
    let ss = ids.map_values(|v: u16| u16_bytes(v));
    assert forall|i: int| 0 <= i < ss.len() implies #[trigger] ss[i] == p.subrange(2 + 2 * i, 2 + 2 * i + 2) by {
        assert(be16(s, hl + 2 + 2 * i) == be16(p, 2 + 2 * i));
        lemma_u16_bytes_of(p, 2 + 2 * i);
    }
    lemma_flatten_chunks(p, 2, 2, ss);
    assert(be16(p, 0) == spec_count(s));
    assert(p.subrange(0, 2) + p.subrange(2, 2 + 2 * n) =~= p);
    lemma_box_bytes_of(s);
}

/// The TierDependencyBox payload holds the entry count in its first two bytes,
/// then one two-byte identifier per entry, big-endian.
pub proof fn lemma_field_layout(s: Seq<u8>)
    requires
        spec_check(s) is Ok,
    ensures
        ({
            &&& spec_ids(s).len() == be16(s, header_len(s))
            &&& forall|i: int| 0 <= i < spec_ids(s).len() ==> #[trigger] spec_ids(s)[i] == be16(s, header_len(s) + 2 + 2 * i)
        }),
{
}

} // verus!
