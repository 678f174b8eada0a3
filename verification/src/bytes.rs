//! Big-endian integer encoding: the mathematical model, the readers over byte
//! slices and the writers that append to a byte vector.

use vstd::prelude::*;
use byteorder::{BigEndian, ByteOrder, WriteBytesExt};

verus! {

/// Unsigned big-endian value of the two bytes at `i`.
pub open spec fn be16(s: Seq<u8>, i: int) -> int {
    s[i] * 0x100 + s[i + 1]
}

/// Unsigned big-endian value of the three bytes at `i`.
pub open spec fn be24(s: Seq<u8>, i: int) -> int {
    s[i] * 0x10000 + s[i + 1] * 0x100 + s[i + 2]
}

/// Unsigned big-endian value of the four bytes at `i`.
pub open spec fn be32(s: Seq<u8>, i: int) -> int {
    s[i] * 0x1000000 + s[i + 1] * 0x10000 + s[i + 2] * 0x100 + s[i + 3]
}

/// Unsigned big-endian value of the eight bytes at `i`.
#[verifier::opaque]
pub open spec fn be64(s: Seq<u8>, i: int) -> int {
    be32(s, i) * 0x1_0000_0000 + be32(s, i + 4)
}

/// The two big-endian bytes of `v`.
#[verifier::opaque]
pub open spec fn u16_bytes(v: u16) -> Seq<u8> {
    seq![(v / 0x100) as u8, (v % 0x100) as u8]
}

/// The three big-endian bytes of `v`, which must be below 2^24.
#[verifier::opaque]
pub open spec fn u24_bytes(v: u32) -> Seq<u8> {
    seq![(v / 0x10000) as u8, ((v / 0x100) % 0x100) as u8, (v % 0x100) as u8]
}

/// The four big-endian bytes of `v`.
#[verifier::opaque]
pub open spec fn u32_bytes(v: u32) -> Seq<u8> {
    seq![
        (v / 0x1000000) as u8,
        ((v / 0x10000) % 0x100) as u8,
        ((v / 0x100) % 0x100) as u8,
        (v % 0x100) as u8,
    ]
}

/// The eight big-endian bytes of `v`.
#[verifier::opaque]
pub open spec fn u64_bytes(v: u64) -> Seq<u8> {
    u32_bytes((v / 0x1_0000_0000) as u32) + u32_bytes((v % 0x1_0000_0000) as u32)
}

/// The encoding of a 16-bit value has two bytes.
pub broadcast proof fn lemma_u16_bytes_len(v: u16)
    ensures
        #[trigger] u16_bytes(v).len() == 2,
{
    reveal(u16_bytes);
}

/// The encoding of a 24-bit value has three bytes.
pub broadcast proof fn lemma_u24_bytes_len(v: u32)
    ensures
        #[trigger] u24_bytes(v).len() == 3,
{
    reveal(u24_bytes);
}

/// The encoding of a 32-bit value has four bytes.
pub broadcast proof fn lemma_u32_bytes_len(v: u32)
    ensures
        #[trigger] u32_bytes(v).len() == 4,
{
    reveal(u32_bytes);
}

/// The encoding of a signed 16-bit value has two bytes.
pub broadcast proof fn lemma_i16_bytes_len(v: i16)
    ensures
        #[trigger] i16_bytes(v).len() == 2,
{
    reveal(i16_bytes);
    reveal(u16_bytes);
    reveal(u16_bytes);
}

/// The encoding of a signed 32-bit value has four bytes.
pub broadcast proof fn lemma_i32_bytes_len(v: i32)
    ensures
        #[trigger] i32_bytes(v).len() == 4,
{
    reveal(i32_bytes);
    reveal(u32_bytes);
}


/// The encodings of big-endian values have the lengths of their widths.
pub broadcast group group_bytes_len {
    lemma_u16_bytes_len,
    lemma_u24_bytes_len,
    lemma_u32_bytes_len,
    lemma_u64_bytes_len,
    lemma_i16_bytes_len,
    lemma_i32_bytes_len,
}

/// The encoding of a 64-bit value has eight bytes.
pub broadcast proof fn lemma_u64_bytes_len(v: u64)
    ensures
        #[trigger] u64_bytes(v).len() == 8,
{
    reveal(u64_bytes);
    reveal(u32_bytes);
}

/// Decoding the encoding of a 16-bit value gives the value back.
pub proof fn lemma_u16_roundtrip(v: u16)
    ensures
        u16_bytes(v).len() == 2,
        be16(u16_bytes(v), 0) == v,
{
    reveal(u16_bytes);
}

/// Decoding the encoding of a 24-bit value gives the value back.
pub proof fn lemma_u24_roundtrip(v: u32)
    requires
        v < 0x100_0000,
    ensures
        u24_bytes(v).len() == 3,
        be24(u24_bytes(v), 0) == v,
{
    reveal(u24_bytes);
}

/// Decoding the encoding of a 32-bit value gives the value back.
pub proof fn lemma_u32_roundtrip(v: u32)
    ensures
        u32_bytes(v).len() == 4,
        be32(u32_bytes(v), 0) == v,
{
    reveal(u32_bytes);
}

/// Decoding the encoding of a 64-bit value gives the value back.
pub proof fn lemma_u64_roundtrip(v: u64)
    ensures
        u64_bytes(v).len() == 8,
        be64(u64_bytes(v), 0) == v,
{
    reveal(u64_bytes);
    reveal(be64);
    reveal(u32_bytes);
    lemma_u32_roundtrip((v / 0x1_0000_0000) as u32);
    lemma_u32_roundtrip((v % 0x1_0000_0000) as u32);
    let s = u64_bytes(v);
    assert(s.subrange(0, 4) == u32_bytes((v / 0x1_0000_0000) as u32));
    assert(s.subrange(4, 8) == u32_bytes((v % 0x1_0000_0000) as u32));
}

} // verus!

verus! {


/// Reads the big-endian `u16` at `off`, through `byteorder::BigEndian::read_u16`.
#[verifier::external_body]
pub(crate) fn read_u16(data: &[u8], off: usize) -> (r: u16)
    requires
        off + 2 <= data@.len(),
    ensures
        r == be16(data@, off as int),
{
    BigEndian::read_u16(&data[off..off + 2])
}

/// Reads the big-endian 24-bit value at `off`, through `byteorder::BigEndian::read_u24`.
#[verifier::external_body]
pub(crate) fn read_u24(data: &[u8], off: usize) -> (r: u32)
    requires
        off + 3 <= data@.len(),
    ensures
        r == be24(data@, off as int),
{
    BigEndian::read_u24(&data[off..off + 3])
}

/// Reads the big-endian `u32` at `off`, through `byteorder::BigEndian::read_u32`.
#[verifier::external_body]
pub(crate) fn read_u32(data: &[u8], off: usize) -> (r: u32)
    requires
        off + 4 <= data@.len(),
    ensures
        r == be32(data@, off as int),
{
    BigEndian::read_u32(&data[off..off + 4])
}

/// Reads the big-endian `u64` at `off`, through `byteorder::BigEndian::read_u64`.
#[verifier::external_body]
pub(crate) fn read_u64(data: &[u8], off: usize) -> (r: u64)
    requires
        off + 8 <= data@.len(),
    ensures
        r == be64(data@, off as int),
{
    BigEndian::read_u64(&data[off..off + 8])
}

/// Appends the big-endian bytes of `v`, through `byteorder::WriteBytesExt::write_u16`
/// on a `Vec<u8>`, which cannot fail.
#[verifier::external_body]
pub(crate) fn write_u16(out: &mut Vec<u8>, v: u16)
    ensures
        final(out)@ == old(out)@ + u16_bytes(v),
{
    let _ = out.write_u16::<BigEndian>(v);
}

/// Appends the three big-endian bytes of `v`, through
/// `byteorder::WriteBytesExt::write_u24`, which panics on values of 2^24 and above.
#[verifier::external_body]
pub(crate) fn write_u24(out: &mut Vec<u8>, v: u32)
    requires
        v < 0x100_0000,
    ensures
        final(out)@ == old(out)@ + u24_bytes(v),
{
    let _ = out.write_u24::<BigEndian>(v);
}

/// Appends the big-endian bytes of `v`, through `byteorder::WriteBytesExt::write_u32`.
#[verifier::external_body]
pub(crate) fn write_u32(out: &mut Vec<u8>, v: u32)
    ensures
        final(out)@ == old(out)@ + u32_bytes(v),
{
    let _ = out.write_u32::<BigEndian>(v);
}

/// Appends the big-endian bytes of `v`, through `byteorder::WriteBytesExt::write_u64`.
#[verifier::external_body]
pub(crate) fn write_u64(out: &mut Vec<u8>, v: u64)
    ensures
        final(out)@ == old(out)@ + u64_bytes(v),
{
    let _ = out.write_u64::<BigEndian>(v);
}

/// Appends one byte.
pub fn write_u8(out: &mut Vec<u8>, v: u8)
    ensures
        final(out)@ == old(out)@ + seq![v],
{
    out.push(v);
}

/// Appends all bytes of `src`.
pub fn write_all(out: &mut Vec<u8>, src: &[u8])
    ensures
        final(out)@ == old(out)@ + src@,
{
    let ghost start = out@;
    let mut i: usize = 0;
    while i < src.len()
        invariant
            i <= src@.len(),
            out@ == start + src@.subrange(0, i as int),
        decreases src@.len() - i,
    {
        out.push(src[i]);
        i = i + 1;
    }
}

/// Copies `data[start..end]` into a new vector.
pub fn copy_range(data: &[u8], start: usize, end: usize) -> (r: Vec<u8>)
    requires
        start <= end <= data@.len(),
    ensures
        r@ == data@.subrange(start as int, end as int),
{
    let mut r: Vec<u8> = Vec::new();
    let mut i: usize = start;
    while i < end
        invariant
            start <= i <= end <= data@.len(),
            r@ == data@.subrange(start as int, i as int),
        decreases end - i,
    {
        r.push(data[i]);
        i = i + 1;
    }
    r
}

/// Two's-complement value of the 16-bit big-endian field at `i`.
pub open spec fn be_i16(s: Seq<u8>, i: int) -> int {
    if be16(s, i) >= 0x8000 { be16(s, i) - 0x1_0000 } else { be16(s, i) }
}

/// Two's-complement value of the 32-bit big-endian field at `i`.
pub open spec fn be_i32(s: Seq<u8>, i: int) -> int {
    if be32(s, i) >= 0x8000_0000 { be32(s, i) - 0x1_0000_0000 } else { be32(s, i) }
}


/// The two big-endian two's-complement bytes of `v`.
#[verifier::opaque]
pub open spec fn i16_bytes(v: i16) -> Seq<u8> {
    u16_bytes((if v < 0 { v + 0x1_0000 } else { v as int }) as u16)
}

/// The four big-endian two's-complement bytes of `v`.
#[verifier::opaque]
pub open spec fn i32_bytes(v: i32) -> Seq<u8> {
    u32_bytes((if v < 0 { v + 0x1_0000_0000 } else { v as int }) as u32)
}


/// Decoding the encoding of a signed 16-bit value gives the value back.
pub proof fn lemma_i16_roundtrip(v: i16)
    ensures
        i16_bytes(v).len() == 2,
        be_i16(i16_bytes(v), 0) == v,
{
    reveal(i16_bytes);
    reveal(u16_bytes);
    lemma_u16_roundtrip((if v < 0 { v + 0x1_0000 } else { v as int }) as u16);
}

/// Decoding the encoding of a signed 32-bit value gives the value back.
pub proof fn lemma_i32_roundtrip(v: i32)
    ensures
        i32_bytes(v).len() == 4,
        be_i32(i32_bytes(v), 0) == v,
{
    reveal(i32_bytes);
    reveal(u32_bytes);
    lemma_u32_roundtrip((if v < 0 { v + 0x1_0000_0000 } else { v as int }) as u32);
}


/// Reads the big-endian `i16` at `off`, through `byteorder::BigEndian::read_i16`.
#[verifier::external_body]
pub(crate) fn read_i16(data: &[u8], off: usize) -> (r: i16)
    requires
        off + 2 <= data@.len(),
    ensures
        r == be_i16(data@, off as int),
{
    BigEndian::read_i16(&data[off..off + 2])
}

/// Reads the big-endian `i32` at `off`, through `byteorder::BigEndian::read_i32`.
#[verifier::external_body]
pub(crate) fn read_i32(data: &[u8], off: usize) -> (r: i32)
    requires
        off + 4 <= data@.len(),
    ensures
        r == be_i32(data@, off as int),
{
    BigEndian::read_i32(&data[off..off + 4])
}


/// Appends the big-endian two's-complement bytes of `v`, through `byteorder::WriteBytesExt::write_i16`.
#[verifier::external_body]
pub(crate) fn write_i16(out: &mut Vec<u8>, v: i16)
    ensures
        final(out)@ == old(out)@ + i16_bytes(v),
{
    let _ = out.write_i16::<BigEndian>(v);
}

/// Appends the big-endian two's-complement bytes of `v`, through `byteorder::WriteBytesExt::write_i32`.
#[verifier::external_body]
pub(crate) fn write_i32(out: &mut Vec<u8>, v: i32)
    ensures
        final(out)@ == old(out)@ + i32_bytes(v),
{
    let _ = out.write_i32::<BigEndian>(v);
}


/// Reading a field of `s` reads the same bytes as reading it from the
/// subrange that starts at the field.
pub proof fn lemma_be_sub(s: Seq<u8>, i: int)
    requires
        0 <= i,
    ensures
        i + 2 <= s.len() ==> be16(s, i) == be16(s.subrange(i, i + 2), 0) && be_i16(s, i) == be_i16(s.subrange(i, i + 2), 0),
        i + 3 <= s.len() ==> be24(s, i) == be24(s.subrange(i, i + 3), 0),
        i + 4 <= s.len() ==> be32(s, i) == be32(s.subrange(i, i + 4), 0) && be_i32(s, i) == be_i32(s.subrange(i, i + 4), 0),
        i + 8 <= s.len() ==> be64(s, i) == be64(s.subrange(i, i + 8), 0),
        i + 1 <= s.len() ==> s[i] == s.subrange(i, i + 1)[0],
{
    reveal(be64);
}

/// Reading a field at `a + i` of `s` reads the field at `i` of the suffix of `s` from `a`.
pub proof fn lemma_be_shift(s: Seq<u8>, a: int, i: int)
    requires
        0 <= a,
        0 <= i,
    ensures
        a + i + 8 <= s.len() ==> be64(s, a + i) == be64(s.subrange(a, s.len() as int), i),
{
    reveal(be64);
}

/// Position of the first zero byte of `s` at or after `start`, if any.
pub open spec fn first_zero(s: Seq<u8>, start: int) -> Option<int> {
    if exists|p: int| start <= p < s.len() && s[p] == 0 && forall|i: int| start <= i < p ==> s[i] != 0 {
        Some(choose|p: int| start <= p < s.len() && s[p] == 0 && forall|i: int| start <= i < p ==> s[i] != 0)
    } else {
        None
    }
}

/// Finds the first zero byte of `data` at or after `start`.
pub fn find_zero(data: &[u8], start: usize) -> (r: Option<usize>)
    ensures
        r matches Some(p) ==> first_zero(data@, start as int) == Some(p as int),
        r is None ==> first_zero(data@, start as int) is None,
        r is None <==> forall|i: int| start <= i < data@.len() ==> data@[i] != 0,
{
    let mut i = start;
    while i < data.len()
        invariant
            start <= i,
            forall|j: int| start <= j < i && j < data@.len() ==> data@[j] != 0,
        decreases data@.len() - i,
    {
        if data[i] == 0 {
            let ghost p = i as int;
            assert(start <= p < data@.len() && data@[p] == 0 && forall|k: int| start <= k < p ==> data@[k] != 0);
            proof {
                let q = choose|q: int| start <= q < data@.len() && data@[q] == 0 && forall|k: int| start <= k < q ==> data@[k] != 0;
                if q < p { assert(data@[q] != 0); }
                if p < q { assert(data@[p] != 0); }
            }
            return Some(i);
        }
        i = i + 1;
    }
    assert forall|p: int| start <= p < data@.len() && data@[p] == 0 implies !(forall|k: int| start <= k < p ==> data@[k] != 0) by {
        assert(data@[p] != 0);
    }
    None
}

/// The first zero byte at or after `start` is the one at `p` when no byte
/// between them is zero.
pub proof fn lemma_first_zero_at(s: Seq<u8>, start: int, p: int)
    requires
        start <= p < s.len(),
        s[p] == 0,
        forall|i: int| start <= i < p ==> s[i] != 0,
    ensures
        first_zero(s, start) == Some(p),
{
    let q = choose|q: int| start <= q < s.len() && s[q] == 0 && forall|k: int| start <= k < q ==> s[k] != 0;
    if q < p { assert(s[q] != 0); }
    if p < q { assert(s[p] != 0); }
}

/// The sum of `a` and `b`, or `u64::MAX` when it does not fit.
pub fn saturating_add(a: u64, b: u64) -> (r: u64)
    ensures
        r == if a + b <= 0xffff_ffff_ffff_ffff { a + b } else { 0xffff_ffff_ffff_ffff },
{
    match a.checked_add(b) {
        Some(c) => c,
        None => 0xffff_ffff_ffff_ffff,
    }
}

/// The position that `first_zero` finds holds a zero byte, and no byte before
/// it from `start` on does.
pub proof fn lemma_first_zero_props(s: Seq<u8>, start: int)
    ensures
        first_zero(s, start) matches Some(p) ==> start <= p < s.len() && s[p] == 0
            && forall|i: int| start <= i < p ==> s[i] != 0,
{
}

/// The big-endian encodings of `vs`, one after another.
pub open spec fn u32s_bytes(vs: Seq<u32>) -> Seq<u8> {
    vs.map_values(|v: u32| u32_bytes(v)).flatten()
}

/// The encoding of `vs` has four bytes per value.
pub proof fn lemma_u32s_len(vs: Seq<u32>)
    ensures
        u32s_bytes(vs).len() == 4 * vs.len(),
    decreases vs.len(),
{
    if vs.len() > 0 {
        let init = vs.drop_last();
        lemma_u32s_len(init);
        assert(vs.map_values(|v: u32| u32_bytes(v)) =~= init.map_values(|v: u32| u32_bytes(v)).push(u32_bytes(vs.last())));
        init.map_values(|v: u32| u32_bytes(v)).lemma_flatten_push(u32_bytes(vs.last()));
        reveal(u32_bytes);
    } else {
        assert(vs.map_values(|v: u32| u32_bytes(v)) =~= Seq::<Seq<u8>>::empty());
    }
}

/// Byte `4 * i + j` of the encoding of `vs` is byte `j` of value `i`.
pub proof fn lemma_u32s_byte(vs: Seq<u32>, i: int, j: int)
    requires
        0 <= i < vs.len(),
        0 <= j < 4,
    ensures
        u32s_bytes(vs)[4 * i + j] == u32_bytes(vs[i])[j],
    decreases vs.len(),
{
    let init = vs.drop_last();
    assert(vs.map_values(|v: u32| u32_bytes(v)) =~= init.map_values(|v: u32| u32_bytes(v)).push(u32_bytes(vs.last())));
    init.map_values(|v: u32| u32_bytes(v)).lemma_flatten_push(u32_bytes(vs.last()));
    lemma_u32s_len(init);
    reveal(u32_bytes);
    if i < vs.len() - 1 {
        lemma_u32s_byte(init, i, j);
    }
}

/// Where the encoding of `vs` stands at offset `o` of `q`, each value reads back.
pub proof fn lemma_u32s_read_back(vs: Seq<u32>, q: Seq<u8>, o: int)
    requires
        0 <= o,
        o + 4 * vs.len() <= q.len(),
        forall|k: int| 0 <= k < 4 * vs.len() ==> q[o + k] == #[trigger] u32s_bytes(vs)[k],
    ensures
        forall|i: int| 0 <= i < vs.len() ==> be32(q, o + 4 * i) == #[trigger] vs[i],
{
    lemma_u32s_len(vs);
    assert forall|i: int| 0 <= i < vs.len() implies be32(q, o + 4 * i) == #[trigger] vs[i] by {
        lemma_u32s_byte(vs, i, 0);
        lemma_u32s_byte(vs, i, 1);
        lemma_u32s_byte(vs, i, 2);
        lemma_u32s_byte(vs, i, 3);
        lemma_u32_roundtrip(vs[i]);
        assert(q[o + 4 * i] == u32s_bytes(vs)[4 * i]);
        assert(q[o + 4 * i + 1] == u32s_bytes(vs)[4 * i + 1]);
        assert(q[o + 4 * i + 2] == u32s_bytes(vs)[4 * i + 2]);
        assert(q[o + 4 * i + 3] == u32s_bytes(vs)[4 * i + 3]);
    }
}

/// Appends the big-endian encodings of `vs`.
pub fn write_u32s(out: &mut Vec<u8>, vs: &Vec<u32>)
    ensures
        final(out)@ == old(out)@ + u32s_bytes(vs@),
{
    let ghost start = out@;
    let ghost vb = vs@.map_values(|v: u32| u32_bytes(v));
    let mut i: usize = 0;
    while i < vs.len()
        invariant
            i <= vs@.len(),
            vb == vs@.map_values(|v: u32| u32_bytes(v)),
            out@ == start + vb.take(i as int).flatten(),
        decreases vs@.len() - i,
    {
        write_u32(out, vs[i]);
        proof {
            assert(vb.take(i + 1) =~= vb.take(i as int).push(vb[i as int]));
            vb.take(i as int).lemma_flatten_push(vb[i as int]);
        }
        i = i + 1;
    }
    assert(vb.take(i as int) =~= vb);
}

/// A flattened sequence of pieces of `k` bytes each has `k` bytes per piece.
pub proof fn lemma_flatten_uniform(ss: Seq<Seq<u8>>, k: int)
    requires
        forall|i: int| 0 <= i < ss.len() ==> (#[trigger] ss[i]).len() == k,
    ensures
        ss.flatten().len() == k * ss.len(),
    decreases ss.len(),
{
    if ss.len() > 0 {
        let init = ss.drop_last();
        lemma_flatten_uniform(init, k);
        assert(ss =~= init.push(ss.last()));
        init.lemma_flatten_push(ss.last());
        assert(k * ss.len() == k * init.len() + k) by (nonlinear_arith)
            requires ss.len() == init.len() + 1;
    } else {
        assert(ss.flatten() =~= Seq::<u8>::empty());
    }
}

/// Byte `k * i + j` of a flattened sequence of pieces of `k` bytes each is
/// byte `j` of piece `i`.
pub proof fn lemma_flatten_uniform_index(ss: Seq<Seq<u8>>, k: int, i: int, j: int)
    requires
        forall|m: int| 0 <= m < ss.len() ==> (#[trigger] ss[m]).len() == k,
        0 <= i < ss.len(),
        0 <= j < k,
    ensures
        ss.flatten()[k * i + j] == ss[i][j],
    decreases ss.len(),
{
    let init = ss.drop_last();
    assert(ss =~= init.push(ss.last()));
    init.lemma_flatten_push(ss.last());
    lemma_flatten_uniform(init, k);
    assert forall|m: int| 0 <= m < init.len() implies (#[trigger] init[m]).len() == k by {
        assert(init[m] == ss[m]);
    }
    if i < ss.len() - 1 {
        assert(k * i + j < k * init.len()) by (nonlinear_arith)
            requires 0 <= i < init.len(), 0 <= j < k;
        lemma_flatten_uniform_index(init, k, i, j);
    } else {
        assert(k * i == k * init.len());
    }
}

/// A copy of `v`.
pub fn copy_vec<T: Copy>(v: &Vec<T>) -> (r: Vec<T>)
    ensures
        r@ == v@,
{
    let mut r: Vec<T> = Vec::new();
    let mut i: usize = 0;
    while i < v.len()
        invariant
            i <= v@.len(),
            r@ == v@.take(i as int),
        decreases v@.len() - i,
    {
        r.push(v[i]);
        assert(v@.take(i + 1) =~= v@.take(i as int).push(v@[i as int]));
        i = i + 1;
    }
    assert(v@.take(i as int) =~= v@);
    r
}

/// Encoding the value of the three bytes at `i` gives those bytes back.
pub proof fn lemma_u24_bytes_of(s: Seq<u8>, i: int)
    requires
        0 <= i,
        i + 3 <= s.len(),
    ensures
        u24_bytes(be24(s, i) as u32) == s.subrange(i, i + 3),
{
    reveal(u24_bytes);
    let (a, b, c) = (s[i] as int, s[i + 1] as int, s[i + 2] as int);
    let v = be24(s, i);
    assert(v / 0x10000 == a && (v / 0x100) % 0x100 == b && v % 0x100 == c) by (nonlinear_arith)
        requires v == a * 0x10000 + b * 0x100 + c, 0 <= a < 256, 0 <= b < 256, 0 <= c < 256;
    assert(u24_bytes(v as u32) =~= s.subrange(i, i + 3));
}

/// Encoding the value of the four bytes at `i` gives those bytes back.
pub proof fn lemma_u32_bytes_of(s: Seq<u8>, i: int)
    requires
        0 <= i,
        i + 4 <= s.len(),
    ensures
        u32_bytes(be32(s, i) as u32) == s.subrange(i, i + 4),
{
    reveal(u32_bytes);
    let (a, b, c, d) = (s[i] as int, s[i + 1] as int, s[i + 2] as int, s[i + 3] as int);
    let v = be32(s, i);
    assert(v / 0x1000000 == a && (v / 0x10000) % 0x100 == b && (v / 0x100) % 0x100 == c && v % 0x100 == d)
        by (nonlinear_arith)
        requires v == a * 0x1000000 + b * 0x10000 + c * 0x100 + d, 0 <= a < 256, 0 <= b < 256, 0 <= c < 256,
            0 <= d < 256;
    assert(u32_bytes(v as u32) =~= s.subrange(i, i + 4));
}

/// Encoding the value of the eight bytes at `i` gives those bytes back.
pub proof fn lemma_u64_bytes_of(s: Seq<u8>, i: int)
    requires
        0 <= i,
        i + 8 <= s.len(),
    ensures
        u64_bytes(be64(s, i) as u64) == s.subrange(i, i + 8),
{
    reveal(u64_bytes);
    reveal(be64);
    let hi = be32(s, i);
    let lo = be32(s, i + 4);
    let v = be64(s, i);
    assert(0 <= hi < 0x1_0000_0000 && 0 <= lo < 0x1_0000_0000);
    assert(v / 0x1_0000_0000 == hi && v % 0x1_0000_0000 == lo) by (nonlinear_arith)
        requires v == hi * 0x1_0000_0000 + lo, 0 <= lo < 0x1_0000_0000, 0 <= hi;
    lemma_u32_bytes_of(s, i);
    lemma_u32_bytes_of(s, i + 4);
    assert(u64_bytes(v as u64) =~= s.subrange(i, i + 8));
}

/// Encoding the value of the two bytes at `i` gives those bytes back.
pub proof fn lemma_u16_bytes_of(s: Seq<u8>, i: int)
    requires
        0 <= i,
        i + 2 <= s.len(),
    ensures
        u16_bytes(be16(s, i) as u16) == s.subrange(i, i + 2),
{
    reveal(u16_bytes);
    let (a, b) = (s[i] as int, s[i + 1] as int);
    let v = be16(s, i);
    assert(v / 0x100 == a && v % 0x100 == b) by (nonlinear_arith)
        requires v == a * 0x100 + b, 0 <= a < 256, 0 <= b < 256;
    assert(u16_bytes(v as u16) =~= s.subrange(i, i + 2));
}

/// Encoding the two's-complement value of the two bytes at `i` gives those
/// bytes back.
pub proof fn lemma_i16_bytes_of(s: Seq<u8>, i: int)
    requires
        0 <= i,
        i + 2 <= s.len(),
    ensures
        i16_bytes(be_i16(s, i) as i16) == s.subrange(i, i + 2),
{
    reveal(i16_bytes);
    lemma_u16_bytes_of(s, i);
}

/// Encoding the two's-complement value of the four bytes at `i` gives those
/// bytes back.
pub proof fn lemma_i32_bytes_of(s: Seq<u8>, i: int)
    requires
        0 <= i,
        i + 4 <= s.len(),
    ensures
        i32_bytes(be_i32(s, i) as i32) == s.subrange(i, i + 4),
{
    reveal(i32_bytes);
    lemma_u32_bytes_of(s, i);
}

/// Pieces that are the consecutive `k`-byte chunks of `q` from `o` on flatten
/// back into those bytes.
pub proof fn lemma_flatten_chunks(q: Seq<u8>, o: int, k: int, ss: Seq<Seq<u8>>)
    requires
        0 <= o,
        0 <= k,
        o + k * ss.len() <= q.len(),
        forall|i: int| 0 <= i < ss.len() ==> #[trigger] ss[i] == q.subrange(o + k * i, o + k * i + k),
    ensures
        ss.flatten() == q.subrange(o, o + k * ss.len()),
    decreases ss.len(),
{
    let n = ss.len() as int;
    if n == 0 {
        assert(ss.flatten() =~= Seq::<u8>::empty());
        assert(q.subrange(o, o) =~= Seq::<u8>::empty());
    } else {
        let init = ss.drop_last();
        assert(ss =~= init.push(ss.last()));
        assert(k * (n - 1) + k == k * n) by (nonlinear_arith);
        assert(0 <= k * (n - 1)) by (nonlinear_arith)
            requires n >= 1, k >= 0;
        assert forall|i: int| 0 <= i < init.len() implies #[trigger] init[i] == q.subrange(o + k * i, o + k * i + k) by {
            assert(init[i] == ss[i]);
        }
        lemma_flatten_chunks(q, o, k, init);
        init.lemma_flatten_push(ss.last());
        assert(ss.last() == q.subrange(o + k * (n - 1), o + k * (n - 1) + k));
        assert(q.subrange(o, o + k * n) =~= q.subrange(o, o + k * (n - 1)) + q.subrange(o + k * (n - 1), o + k * n));
    }
}

/// Eight zero bytes at `a` are the encoding of zero.
pub proof fn lemma_zero_u64_at(s: Seq<u8>, a: int)
    requires
        0 <= a,
        a + 8 <= s.len(),
        forall|k: int| a <= k < a + 8 ==> s[k] == 0,
    ensures
        u64_bytes(0) == s.subrange(a, a + 8),
{
    reveal(u64_bytes);
    reveal(u32_bytes);
    assert(u64_bytes(0) =~= s.subrange(a, a + 8));
}

/// Two zero bytes at `a` are the encoding of zero.
pub proof fn lemma_zero_u16_at(s: Seq<u8>, a: int)
    requires
        0 <= a,
        a + 2 <= s.len(),
        s[a] == 0,
        s[a + 1] == 0,
    ensures
        u16_bytes(0) == s.subrange(a, a + 2),
{
    reveal(u16_bytes);
    assert(u16_bytes(0) =~= s.subrange(a, a + 2));
}

/// Multi-byte values are big-endian, in reading and in writing alike: the
/// first byte carries the most significant bits.
pub proof fn lemma_big_endian(s: Seq<u8>, i: int, w: u16, v: u32, x: u64)
    ensures
        be16(s, i) == s[i] * 256 + s[i + 1],
        be24(s, i) == (s[i] * 256 + s[i + 1]) * 256 + s[i + 2],
        be32(s, i) == ((s[i] * 256 + s[i + 1]) * 256 + s[i + 2]) * 256 + s[i + 3],
        be64(s, i) == be32(s, i) * 0x1_0000_0000 + be32(s, i + 4),
        u16_bytes(w) =~= seq![(w / 256) as u8, (w % 256) as u8],
        u32_bytes(v) =~= seq![(v / 0x100_0000) as u8, ((v / 0x1_0000) % 256) as u8, ((v / 256) % 256) as u8, (v % 256) as u8],
        u64_bytes(x) =~= u32_bytes((x / 0x1_0000_0000) as u32) + u32_bytes((x % 0x1_0000_0000) as u32),
{
    reveal(be64);
    reveal(u16_bytes);
    reveal(u32_bytes);
    reveal(u64_bytes);
}

} // verus!
