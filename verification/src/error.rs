//! Errors reported while parsing and serializing boxes.

use vstd::prelude::*;
use crate::code::BoxCode;

verus! {

/// Why a byte sequence is not a well-formed box.
#[derive(Debug, Clone, Copy)]
pub enum ParseError {
    /// Fewer bytes than a field or a declared extent needs.
    BufferTooShort { expected: usize, found: usize },
    /// The box type field holds another type than the one parsed.
    InvalidBoxType { expected: BoxCode, found: BoxCode },
    /// The version field holds a version that the box does not define.
    InvalidVersion(u8),
    /// The declared box size differs from the number of bytes given.
    SizeMismatch { declared: u64, actual: usize },
    /// The declared box size is smaller than the box header itself.
    InvalidBoxSize { size: u64, header_size: usize },
    /// A structure ends before one of its fields.
    UnexpectedEndOfData { context: &'static str },
    /// A null-terminated string has no terminator.
    MissingNullTerminator { field: &'static str },
    /// A string field is not valid UTF-8.
    InvalidStringEncoding { context: &'static str },
    /// An entry count claims more entries than the bytes present can hold.
    InvalidEntryCount { count: u32, available: usize },
    /// A length field holds a value out of its allowed range.
    InvalidFieldSize { field: &'static str, size: u8 },
}

/// Why a box could not be serialized.
#[derive(Debug, Clone, Copy, PartialEq, Eq, Structural)]
pub enum WriteError {
    /// The serialized size of the box does not fit in 64 bits.
    SizeOverflow,
}

/// `count` entries of `entry_size` bytes each, from `offset` on, fit in `len` bytes.
pub open spec fn entries_fit(len: int, offset: int, count: int, entry_size: int) -> bool {
    offset <= len && count * entry_size <= len - offset
}

/// Checks that `count` entries of `entry_size` bytes fit in `data` from `offset` on.
pub fn validate_entry_count(data: &[u8], offset: usize, count: u32, entry_size: usize) -> (r: Result<(), ParseError>)
    requires
        entry_size <= 0xffff_ffff,
    ensures
        r is Ok <==> entries_fit(data@.len() as int, offset as int, count as int, entry_size as int),
        r matches Err(e) ==> e == (ParseError::InvalidEntryCount {
            count,
            available: if offset <= data@.len() { (data@.len() - offset) as usize } else { 0 },
        }),
{
    let available: usize = if offset <= data.len() { data.len() - offset } else { 0 };
    assert((count as u64) * (entry_size as u64) <= 0xffff_fffe_0000_0001) by (nonlinear_arith)
        requires
            entry_size <= 0xffff_ffff,
            count <= 0xffff_ffff,
    ;
    let needed: u64 = (count as u64) * (entry_size as u64);
    if offset <= data.len() && needed <= available as u64 {
        Ok(())
    } else {
        Err(ParseError::InvalidEntryCount { count, available })
    }
}

} // verus!
