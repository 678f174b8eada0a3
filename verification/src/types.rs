//! Value types shared by several boxes: fixed-point numbers, language codes
//! and transformation matrices.

use vstd::prelude::*;
use crate::bytes::{lemma_i32_bytes_of, be_i32, i32_bytes, lemma_be_sub, lemma_i32_roundtrip, read_i32, write_i32};

verus! {

broadcast use crate::bytes::group_bytes_len;

/// A signed 16.16 fixed-point number, held as its raw 32-bit value.
#[derive(Clone, Copy, Debug, PartialEq, Eq, Structural, Hash)]
pub struct FixedPoint16_16(pub i32);

impl FixedPoint16_16 {
    /// The value 1.0.
    pub fn one() -> (r: Self)
        ensures
            r.0 == 0x1_0000,
    {
        FixedPoint16_16(0x1_0000)
    }

    /// The number whose raw value is `raw`.
    pub fn from_raw(raw: i32) -> (r: Self)
        ensures
            r.0 == raw,
    {
        FixedPoint16_16(raw)
    }

    /// The raw 32-bit value.
    pub fn raw(&self) -> (r: i32)
        ensures
            r == self.0,
    {
        self.0
    }
}

/// A signed 8.8 fixed-point number, held as its raw 16-bit value.
#[derive(Clone, Copy, Debug, PartialEq, Eq, Structural, Hash)]
pub struct FixedPoint8_8(pub i16);

impl FixedPoint8_8 {
    /// The value 0.0.
    pub fn zero() -> (r: Self)
        ensures
            r.0 == 0,
    {
        FixedPoint8_8(0)
    }

    /// The value 1.0.
    pub fn one() -> (r: Self)
        ensures
            r.0 == 0x100,
    {
        FixedPoint8_8(0x100)
    }

    /// The number whose raw value is `raw`.
    pub fn from_raw(raw: i16) -> (r: Self)
        ensures
            r.0 == raw,
    {
        FixedPoint8_8(raw)
    }

    /// The raw 16-bit value.
    pub fn raw(&self) -> (r: i16)
        ensures
            r == self.0,
    {
        self.0
    }
}

/// An unsigned 16.16 fixed-point number, held as its raw 32-bit value.
#[derive(Clone, Copy, Debug, PartialEq, Eq, Structural, Hash)]
pub struct UFixedPoint16_16(pub u32);

impl UFixedPoint16_16 {
    /// The value 0.0.
    pub fn zero() -> (r: Self)
        ensures
            r.0 == 0,
    {
        UFixedPoint16_16(0)
    }

    /// The number whose raw value is `raw`.
    pub fn from_raw(raw: u32) -> (r: Self)
        ensures
            r.0 == raw,
    {
        UFixedPoint16_16(raw)
    }

    /// The raw 32-bit value.
    pub fn raw(&self) -> (r: u32)
        ensures
            r == self.0,
    {
        self.0
    }
}

/// The 5-bit code of a language letter: its character code modulo 32, so
/// that 'a' to 'z' become 1 to 26.
pub open spec fn letter_code(c: char) -> int {
    ((c as u32) % 32) as int
}

/// An ISO-639-2/T language code packed as three 5-bit letters.
#[derive(Clone, Copy, Debug, PartialEq, Eq, Structural, Hash)]
pub struct IsoLanguageCode(pub u16);

impl IsoLanguageCode {
    /// The code "und" (undetermined).
    pub fn undetermined() -> (r: Self)
        ensures
            r.0 == 21 * 1024 + 14 * 32 + 4,
    {
        IsoLanguageCode(21 * 1024 + 14 * 32 + 4)
    }

    /// The code whose packed value is `raw`.
    pub fn from_raw(raw: u16) -> (r: Self)
        ensures
            r.0 == raw,
    {
        IsoLanguageCode(raw)
    }

    /// The packed 16-bit value.
    pub fn raw(&self) -> (r: u16)
        ensures
            r == self.0,
    {
        self.0
    }

    /// Packs three letters.
    pub fn from_chars(chars: [char; 3]) -> (r: Self)
        ensures
            r.0 == letter_code(chars@[0]) * 1024 + letter_code(chars@[1]) * 32 + letter_code(chars@[2]),
    {
        let a = (chars[0] as u32) % 32;
        let b = (chars[1] as u32) % 32;
        let c = (chars[2] as u32) % 32;
        IsoLanguageCode((a * 1024 + b * 32 + c) as u16)
    }

    /// Unpacks the three letters: each 5-bit code plus 0x60.
    pub fn to_chars(&self) -> (r: [char; 3])
        ensures
            r@[0] as int == (self.0 / 1024) % 32 + 0x60,
            r@[1] as int == (self.0 / 32) % 32 + 0x60,
            r@[2] as int == self.0 % 32 + 0x60,
    {
        let a = ((self.0 / 1024) % 32) as u8 + 0x60;
        let b = ((self.0 / 32) % 32) as u8 + 0x60;
        let c = (self.0 % 32) as u8 + 0x60;
        [a as char, b as char, c as char]
    }
}

/// A 3x3 transformation matrix of 16.16 and 2.30 fixed-point values, row by row.
#[derive(Clone, Copy, Debug, PartialEq, Eq)]
pub struct Matrix(pub [i32; 9]);

impl Matrix {
    /// The unity matrix.
    pub fn identity() -> (r: Self)
        ensures
            r.0@ == seq![0x1_0000i32, 0, 0, 0, 0x1_0000, 0, 0, 0, 0x4000_0000],
    {
        let r = Matrix([0x1_0000, 0, 0, 0, 0x1_0000, 0, 0, 0, 0x4000_0000]);
        assert(r.0@ =~= seq![0x1_0000i32, 0, 0, 0, 0x1_0000, 0, 0, 0, 0x4000_0000]);
        r
    }

    /// The matrix with the given values.
    pub fn from_raw(values: [i32; 9]) -> (r: Self)
        ensures
            r.0@ == values@,
    {
        Matrix(values)
    }

    /// The nine values.
    pub fn raw(&self) -> (r: [i32; 9])
        ensures
            r@ == self.0@,
    {
        self.0
    }
}

/// The 36 bytes of the nine values of a matrix.
pub open spec fn matrix_bytes(m: Seq<i32>) -> Seq<u8> {
    i32_bytes(m[0]) + i32_bytes(m[1]) + i32_bytes(m[2]) + i32_bytes(m[3]) + i32_bytes(m[4])
        + i32_bytes(m[5]) + i32_bytes(m[6]) + i32_bytes(m[7]) + i32_bytes(m[8])
}

/// The nine values of the matrix at `off` of `s`.
pub open spec fn matrix_at(s: Seq<u8>, off: int) -> Seq<i32> {
    Seq::new(9, |i: int| be_i32(s, off + 4 * i) as i32)
}

/// Reads the nine big-endian values of the matrix at `off`.
pub fn read_matrix(data: &[u8], off: usize) -> (r: Matrix)
    requires
        off + 36 <= data.len(),
    ensures
        r.0@ == matrix_at(data@, off as int),
{
    let r = Matrix([
        read_i32(data, off), read_i32(data, off + 4), read_i32(data, off + 8), read_i32(data, off + 12),
        read_i32(data, off + 16), read_i32(data, off + 20), read_i32(data, off + 24), read_i32(data, off + 28),
        read_i32(data, off + 32),
    ]);
    assert(r.0@ =~= matrix_at(data@, off as int));
    r
}

/// Appends the nine big-endian values of `m`.
pub fn write_matrix(out: &mut Vec<u8>, m: &Matrix)
    ensures
        final(out)@ == old(out)@ + matrix_bytes(m.0@),
{
    write_i32(out, m.0[0]);
    write_i32(out, m.0[1]);
    write_i32(out, m.0[2]);
    write_i32(out, m.0[3]);
    write_i32(out, m.0[4]);
    write_i32(out, m.0[5]);
    write_i32(out, m.0[6]);
    write_i32(out, m.0[7]);
    write_i32(out, m.0[8]);
}

/// Reading back the bytes of a matrix gives its values.
pub proof fn lemma_matrix_at(p: Seq<u8>, off: int, m: Seq<i32>)
    requires
        m.len() == 9,
        0 <= off,
        off + 36 <= p.len(),
        p.subrange(off, off + 36) == matrix_bytes(m),
    ensures
        matrix_at(p, off) == m,
{
    let q0 = i32_bytes(m[0]);
    let q1 = q0 + i32_bytes(m[1]);
    let q2 = q1 + i32_bytes(m[2]);
    let q3 = q2 + i32_bytes(m[3]);
    let q4 = q3 + i32_bytes(m[4]);
    let q5 = q4 + i32_bytes(m[5]);
    let q6 = q5 + i32_bytes(m[6]);
    let q7 = q6 + i32_bytes(m[7]);
    let q8 = q7 + i32_bytes(m[8]);
    assert(q8 == matrix_bytes(m));
    assert forall|i: int| 0 <= i < 9 implies #[trigger] matrix_at(p, off)[i] == m[i] by {
        lemma_i32_roundtrip(m[i]);
        lemma_be_sub(p, off + 4 * i);
        let w = p.subrange(off + 4 * i, off + 4 * i + 4);
        if i == 0 {
            assert(w =~= q8.subrange(0, 4));
            assert(q8.subrange(0, 4) =~= q7.subrange(0, 4));
            assert(q7.subrange(0, 4) =~= q6.subrange(0, 4));
            assert(q6.subrange(0, 4) =~= q5.subrange(0, 4));
            assert(q5.subrange(0, 4) =~= q4.subrange(0, 4));
            assert(q4.subrange(0, 4) =~= q3.subrange(0, 4));
            assert(q3.subrange(0, 4) =~= q2.subrange(0, 4));
            assert(q2.subrange(0, 4) =~= q1.subrange(0, 4));
            assert(q1.subrange(0, 4) =~= q0.subrange(0, 4));
            assert(q0.subrange(0, 4) =~= i32_bytes(m[0]));
        } else if i == 1 {
            assert(w =~= q8.subrange(4, 8));
            assert(q8.subrange(4, 8) =~= q7.subrange(4, 8));
            assert(q7.subrange(4, 8) =~= q6.subrange(4, 8));
            assert(q6.subrange(4, 8) =~= q5.subrange(4, 8));
            assert(q5.subrange(4, 8) =~= q4.subrange(4, 8));
            assert(q4.subrange(4, 8) =~= q3.subrange(4, 8));
            assert(q3.subrange(4, 8) =~= q2.subrange(4, 8));
            assert(q2.subrange(4, 8) =~= q1.subrange(4, 8));
            assert(q1.subrange(4, 8) =~= i32_bytes(m[1]));
        } else if i == 2 {
            assert(w =~= q8.subrange(8, 12));
            assert(q8.subrange(8, 12) =~= q7.subrange(8, 12));
            assert(q7.subrange(8, 12) =~= q6.subrange(8, 12));
            assert(q6.subrange(8, 12) =~= q5.subrange(8, 12));
            assert(q5.subrange(8, 12) =~= q4.subrange(8, 12));
            assert(q4.subrange(8, 12) =~= q3.subrange(8, 12));
            assert(q3.subrange(8, 12) =~= q2.subrange(8, 12));
            assert(q2.subrange(8, 12) =~= i32_bytes(m[2]));
        } else if i == 3 {
            assert(w =~= q8.subrange(12, 16));
            assert(q8.subrange(12, 16) =~= q7.subrange(12, 16));
            assert(q7.subrange(12, 16) =~= q6.subrange(12, 16));
            assert(q6.subrange(12, 16) =~= q5.subrange(12, 16));
            assert(q5.subrange(12, 16) =~= q4.subrange(12, 16));
            assert(q4.subrange(12, 16) =~= q3.subrange(12, 16));
            assert(q3.subrange(12, 16) =~= i32_bytes(m[3]));
        } else if i == 4 {
            assert(w =~= q8.subrange(16, 20));
            assert(q8.subrange(16, 20) =~= q7.subrange(16, 20));
            assert(q7.subrange(16, 20) =~= q6.subrange(16, 20));
            assert(q6.subrange(16, 20) =~= q5.subrange(16, 20));
            assert(q5.subrange(16, 20) =~= q4.subrange(16, 20));
            assert(q4.subrange(16, 20) =~= i32_bytes(m[4]));
        } else if i == 5 {
            assert(w =~= q8.subrange(20, 24));
            assert(q8.subrange(20, 24) =~= q7.subrange(20, 24));
            assert(q7.subrange(20, 24) =~= q6.subrange(20, 24));
            assert(q6.subrange(20, 24) =~= q5.subrange(20, 24));
            assert(q5.subrange(20, 24) =~= i32_bytes(m[5]));
        } else if i == 6 {
            assert(w =~= q8.subrange(24, 28));
            assert(q8.subrange(24, 28) =~= q7.subrange(24, 28));
            assert(q7.subrange(24, 28) =~= q6.subrange(24, 28));
            assert(q6.subrange(24, 28) =~= i32_bytes(m[6]));
        } else if i == 7 {
            assert(w =~= q8.subrange(28, 32));
            assert(q8.subrange(28, 32) =~= q7.subrange(28, 32));
            assert(q7.subrange(28, 32) =~= i32_bytes(m[7]));
        } else {
            assert(w =~= q8.subrange(32, 36));
            assert(q8.subrange(32, 36) =~= i32_bytes(m[8]));
        }
        assert(w =~= i32_bytes(m[i]));
    }
    assert(matrix_at(p, off) =~= m);
}

/// The nine values read as a matrix at `off` of `p` are written back as the
/// bytes they were read from.
pub proof fn lemma_matrix_bytes_of(p: Seq<u8>, off: int)
    requires
        0 <= off,
        off + 36 <= p.len(),
    ensures
        matrix_bytes(matrix_at(p, off)) == p.subrange(off, off + 36),
{
    let m = matrix_at(p, off);
    assert forall|i: int| 0 <= i < 9 implies i32_bytes(#[trigger] m[i]) == p.subrange(off + 4 * i, off + 4 * i + 4) by {
        lemma_i32_bytes_of(p, off + 4 * i);
    }
    assert(i32_bytes(m[0]) == p.subrange(off, off + 4));
    assert(i32_bytes(m[1]) == p.subrange(off + 4, off + 8));
    assert(i32_bytes(m[2]) == p.subrange(off + 8, off + 12));
    assert(i32_bytes(m[3]) == p.subrange(off + 12, off + 16));
    assert(i32_bytes(m[4]) == p.subrange(off + 16, off + 20));
    assert(i32_bytes(m[5]) == p.subrange(off + 20, off + 24));
    assert(i32_bytes(m[6]) == p.subrange(off + 24, off + 28));
    assert(i32_bytes(m[7]) == p.subrange(off + 28, off + 32));
    assert(i32_bytes(m[8]) == p.subrange(off + 32, off + 36));
    assert(matrix_bytes(m) =~= p.subrange(off, off + 36));
}

} // verus!
