//! Parsing and serialization of ISO base media file format (ISOBMFF) boxes.
//!
//! Every box type comes as a borrowing view over its raw bytes and as an
//! owned representation that serializes back to bytes.
#![allow(unused_imports)]

pub mod bytes;
pub mod code;
pub mod container;
pub mod error;
pub mod header;
pub mod boxes;
pub mod types;
pub mod text;
