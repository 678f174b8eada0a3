//! Four-character codes that identify box types.
//!
//! A code is held as the big-endian value of its four bytes, so that codes
//! compare, hash and serialize as plain integers.

use vstd::prelude::*;
use crate::bytes::{be32, u32_bytes};

verus! {

/// A box type: the big-endian value of the four bytes of the type field.
pub type BoxCode = u32;

/// A four-character code held as its four bytes, such as a grouping type.
#[derive(Clone, Copy, Debug, PartialEq, Eq, Hash)]
pub struct FourCC(pub [u8; 4]);

/// The code whose four bytes are `code`.
pub fn box_code(code: [u8; 4]) -> (r: BoxCode)
    ensures
        r == be32(code@, 0),
{
    (code[0] as u32) * 0x100_0000 + (code[1] as u32) * 0x1_0000 + (code[2] as u32) * 0x100 + (code[3] as u32)
}

/// The four bytes of `code`, first byte first.
pub fn box_code_bytes(code: BoxCode) -> (r: [u8; 4])
    ensures
        r@ == u32_bytes(code),
{
    let r = [(code / 0x100_0000) as u8, ((code / 0x1_0000) % 0x100) as u8, ((code / 0x100) % 0x100) as u8, (code % 0x100) as u8];
    reveal(u32_bytes);
    assert(r@ =~= u32_bytes(code));
    r
}

} // verus!
