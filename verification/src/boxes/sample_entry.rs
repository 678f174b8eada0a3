//! Sample Entry box parsing.
//!
//! Sample entries are contained within the Sample Description Box (stsd).
//! This module provides views for the base SampleEntry and its extensions:
//! VisualSampleEntry, AudioSampleEntry, and others.
//!
//! Each sample entry type can contain child boxes (e.g., avcC inside avc1,
//! esds inside mp4a).
//!
//! ```text
//! aligned(8) abstract class SampleEntry(codingname)
//!    extends Box(codingname) {
//!    const unsigned int(8)[6] reserved = 0;
//!    unsigned int(16) data_reference_index;
//! }
//!
//! class VisualSampleEntry(codingname) extends SampleEntry(codingname){
//!    unsigned int(16) pre_defined = 0;
//!    const unsigned int(16) reserved = 0;
//!    unsigned int(32)[3] pre_defined = 0;
//!    unsigned int(16) width;
//!    unsigned int(16) height;
//!    template unsigned int(32) horizresolution = 0x00480000; // 72 dpi
//!    template unsigned int(32) vertresolution = 0x00480000; // 72 dpi
//!    const unsigned int(32) reserved = 0;
//!    template unsigned int(16) frame_count = 1;
//!    uint(8)[32] compressorname;
//!    template unsigned int(16) depth = 0x0018;
//!    int(16) pre_defined = -1;
//!    // other boxes from derived specifications
//!    CleanApertureBox clap; // optional
//!    PixelAspectRatioBox pasp; // optional
//! }
//!
//! class AudioSampleEntry(codingname) extends SampleEntry(codingname){
//!    const unsigned int(32)[2] reserved = 0;
//!    template unsigned int(16) channelcount = 2;
//!    template unsigned int(16) samplesize = 16;
//!    unsigned int(16) pre_defined = 0;
//!    const unsigned int(16) reserved = 0;
//!    template unsigned int(32) samplerate = { default samplerate of media} << 16;
//! }
//! ```

use vstd::prelude::*;
use vstd::utf8::{decode_utf8, encode_utf8, encode_utf8_decode_utf8, encode_utf8_valid_utf8, valid_utf8};
use vstd::string::StringSliceAdditionalSpecFns;
use crate::text::str_from_utf8;
use crate::types::UFixedPoint16_16;
use crate::bytes::{copy_range, i16_bytes, write_i16, find_zero, first_zero, lemma_first_zero_at, lemma_first_zero_props, be16, be32, lemma_u16_roundtrip, lemma_u32_roundtrip, read_u16, read_u24, read_u32, read_u64, be64, lemma_be_sub, lemma_u64_roundtrip, u64_bytes, write_u64, saturating_add, u16_bytes, u32_bytes, u32s_bytes, lemma_u32s_len, lemma_u32s_read_back, write_all, write_u16, write_u32, write_u32s, write_u8};
use crate::code::{BoxCode, FourCC};
use crate::container::{BoxIterator, RawBox, box_type_of, spec_children, explicit_size, lemma_box_bytes_whole, lemma_fullbox_bytes_whole, whole_box};
use crate::error::{ParseError, WriteError, entries_fit, validate_entry_count};
use crate::header::{
    BoxHeader, FullBoxHeader, spec_box_size, spec_parse_box_header, begin_box, begin_fullbox, box_bytes, box_fits, flags_of, fullbox_bytes, fullbox_payload_of,
    header_len, lemma_box_roundtrip, lemma_fullbox_roundtrip, payload_of, saturating_box_size, saturating_fullbox_size,
    spec_check_box, spec_check_fullbox, spec_parse_fullbox_header, version_of,
};

verus! {

broadcast use crate::bytes::group_bytes_len;
/// Base sample entry header size: 8 (box header) + 6 (reserved) + 2 (data_reference_index).
pub const BASE_HEADER_SIZE: usize = 16;

/// Visual sample entry header size: base (16) + visual fields (70) = 86 bytes.
pub const VISUAL_HEADER_SIZE: usize = 86;

/// Audio sample entry header size: base (16) + audio fields (20) = 36 bytes.
pub const AUDIO_HEADER_SIZE: usize = 36;

/// Text sample entry header size: base (16) + text fields (30) = 46 bytes (tx3g).
/// Fields: displayFlags(4) + justification(2) + background-color(4) +
/// default-text-box(8) + default-style(12) = 30 bytes.
pub const TEXT_HEADER_SIZE: usize = 46;

/// The sample entry type `tx3g`.
pub const TX3G: BoxCode = 0x7478_3367;
/// The sample entry type `stxt`.
pub const STXT: BoxCode = 0x7374_7874;
/// The video handler `vide`.
pub const VIDE: BoxCode = 0x7669_6465;
/// The audio handler `soun`.
pub const SOUN: BoxCode = 0x736f_756e;
/// The timed text handler `text`.
pub const TEXT: BoxCode = 0x7465_7874;
/// The subtitle handler `subt`.
pub const SUBT: BoxCode = 0x7375_6274;

/// The handler that the MP4RA registry defines for the sample entry type
/// `code`, where it defines a single one.
pub uninterp spec fn registry_handler(code: u32) -> Option<u32>;

/// Looks up the handler of the sample entry type `code` in the MP4RA registry,
/// through `mp4ra_rust::SampleEntryCode::handler`; the result is a function of
/// the code alone, named `registry_handler`.
#[verifier::external_body]
fn sample_entry_handler(code: BoxCode) -> (r: Option<BoxCode>)
    ensures
        r == registry_handler(code),
{
    match mp4ra_rust::SampleEntryCode::new(code.to_be_bytes()).handler() {
        Some(h) => Some(u32::from_be_bytes(h.0 .0)),
        None => None,
    }
}

/// Determines the sample entry category based on box type.
#[derive(Debug, Clone, Copy, PartialEq, Eq, Structural)]
pub enum SampleEntryKind {
    /// Visual sample entry (avc1, hvc1, etc.) - 86 byte header.
    Visual,
    /// Audio sample entry (mp4a, ac-3, etc.) - 36 byte header.
    Audio,
    /// Text sample entry (tx3g) - 46 byte header.
    Text,
    /// Subtitle/Text sample entry (stxt, wvtt, etc.) - 16 byte header.
    SubtitleText,
    /// Other sample entry types - 16 byte header.
    Other,
}

/// The kind of the sample entry type `code` whose registered handler is `handler`.
pub open spec fn spec_kind(code: u32, handler: Option<u32>) -> SampleEntryKind {
    if code == TX3G {
        SampleEntryKind::Text
    } else if code == STXT {
        SampleEntryKind::SubtitleText
    } else {
        match handler {
            Some(h) => if h == VIDE {
                SampleEntryKind::Visual
            } else if h == SOUN {
                SampleEntryKind::Audio
            } else if h == TEXT || h == SUBT {
                SampleEntryKind::SubtitleText
            } else {
                SampleEntryKind::Other
            },
            None => SampleEntryKind::Other,
        }
    }
}

/// The header size of the sample entry kind `k`.
pub open spec fn spec_header_size(k: SampleEntryKind) -> int {
    match k {
        SampleEntryKind::Visual => 86,
        SampleEntryKind::Audio => 36,
        SampleEntryKind::Text => 46,
        _ => 16,
    }
}

impl SampleEntryKind {
    /// Determines the kind of the sample entry type `code` from its registered
    /// handler: tx3g is text with its own header, stxt is subtitle text, and
    /// video, sound, text and subtitle handlers give their kinds.
    pub fn from_code_and_handler(code: BoxCode, handler: Option<BoxCode>) -> (r: Self)
        ensures
            r == spec_kind(code, handler),
    {
        // tx3g has special handling - it uses TEXT handler but has a 46-byte header
        if code == TX3G {
            return Self::Text;
        }
        // stxt (Simple Text) is a subtitle format with base header
        if code == STXT {
            return Self::SubtitleText;
        }
        match handler {
            Some(h) => if h == VIDE {
                Self::Visual
            } else if h == SOUN {
                Self::Audio
            } else if h == TEXT || h == SUBT {
                Self::SubtitleText
            } else {
                Self::Other
            },
            None => Self::Other,
        }
    }

    /// Determines the sample entry kind from a box type code, using the MP4RA
    /// registry's handler for that sample entry type.
    pub fn from_box_type(box_type: BoxCode) -> (r: Self)
        ensures
            r == spec_kind(box_type, registry_handler(box_type)),
    {
        Self::from_code_and_handler(box_type, sample_entry_handler(box_type))
    }

    /// Returns the header size for this sample entry kind.
    pub fn header_size(self) -> (r: usize)
        ensures
            r == spec_header_size(self),
    {
        match self {
            Self::Visual => VISUAL_HEADER_SIZE,
            Self::Audio => AUDIO_HEADER_SIZE,
            Self::Text => TEXT_HEADER_SIZE,
            Self::SubtitleText | Self::Other => BASE_HEADER_SIZE,
        }
    }
}

/// The bytes after the first `hs` bytes of the box `s`, or none where the box
/// is no longer than that.
pub open spec fn children_after(s: Seq<u8>, hs: int) -> Seq<u8> {
    if s.len() > hs { s.subrange(hs, s.len() as int) } else { Seq::empty() }
}

/// Common interface for all sample entries.
pub trait SampleEntry {
    /// Returns the total size of the sample entry box.
    fn box_size(&self) -> u64;

    /// Returns the box type (codec identifier).
    fn box_type(&self) -> BoxCode;

    /// Returns the data reference index.
    fn data_reference_index(&self) -> u16;
}

/// Common interface for accessing visual sample entry fields.
pub trait VisualSampleEntry {
    /// Returns the video width in pixels.
    fn width(&self) -> u16;

    /// Returns the video height in pixels.
    fn height(&self) -> u16;

    /// Returns the horizontal resolution (pixels per inch) as unsigned fixed 16.16.
    fn horiz_resolution(&self) -> UFixedPoint16_16;

    /// Returns the vertical resolution (pixels per inch) as unsigned fixed 16.16.
    fn vert_resolution(&self) -> UFixedPoint16_16;

    /// Returns the frame count (typically 1).
    fn frame_count(&self) -> u16;

    /// Returns the compressor name.
    fn compressor_name(&self) -> &str;

    /// Returns the bit depth (typically 24 for color).
    fn depth(&self) -> u16;

    /// Returns the raw child box data after the visual sample entry header.
    fn children_data(&self) -> &[u8];
}

/// Common interface for accessing audio sample entry fields.
pub trait AudioSampleEntry {
    /// Returns the number of audio channels (template: 2).
    fn channel_count(&self) -> u16;

    /// Returns the sample size in bits (template: 16).
    fn sample_size(&self) -> u16;

    /// Returns the sample rate as unsigned fixed 16.16.
    fn sample_rate(&self) -> UFixedPoint16_16;

    /// Returns the raw child box data after the audio sample entry header.
    fn children_data(&self) -> &[u8];
}

/// The header of the sample entry `s` with a header of at least `min` bytes,
/// or why `s` is not one.
pub open spec fn spec_check_entry(s: Seq<u8>, min: int) -> Result<BoxHeader, ParseError> {
    match spec_parse_box_header(s, s.len() as int) {
        Err(e) => Err(e),
        Ok(h) => if h.size != s.len() {
            Err(ParseError::SizeMismatch { declared: h.size, actual: s.len() as usize })
        } else if s.len() < min {
            Err(ParseError::BufferTooShort { expected: min as usize, found: s.len() as usize })
        } else {
            Ok(h)
        },
    }
}

/// The data reference index of the sample entry `s`.
pub open spec fn spec_data_reference_index(s: Seq<u8>) -> u16 {
    be16(s, 14) as u16
}

/// A borrowing view over a sample entry box.
///
/// This view can parse any sample entry type and provides access to
/// child boxes within the sample entry.
#[derive(Clone, Copy, Debug)]
pub struct SampleEntryView<'a> {
    data: &'a [u8],
    header: BoxHeader,
    kind: SampleEntryKind,
}

impl<'a> SampleEntryView<'a> {
    #[verifier::type_invariant]
    closed spec fn inv(&self) -> bool {
        &&& spec_check_entry(self.data@, 16) == Ok::<BoxHeader, ParseError>(self.header)
        &&& self.kind == spec_kind(self.header.box_type, registry_handler(self.header.box_type))
        &&& self.data@.len() <= usize::MAX
    }

    /// The bytes of the sample entry.
    pub closed spec fn spec_data(&self) -> Seq<u8> {
        self.data@
    }

    /// Creates a new view over the given bytes.
    pub fn new(data: &'a [u8]) -> (r: Result<Self, ParseError>)
        ensures
            match r {
                Ok(v) => v.spec_data() == data@ && spec_check_entry(data@, 16) is Ok,
                Err(e) => spec_check_entry(data@, 16) == Err::<BoxHeader, ParseError>(e),
            },
    {
        let header = BoxHeader::parse(data, data.len())?;
        if header.size != data.len() as u64 {
            return Err(ParseError::SizeMismatch { declared: header.size, actual: data.len() });
        }
        // Need at least base header size
        if data.len() < BASE_HEADER_SIZE {
            return Err(ParseError::BufferTooShort { expected: BASE_HEADER_SIZE, found: data.len() });
        }
        let kind = SampleEntryKind::from_box_type(header.box_type);
        Ok(Self { data, header, kind })
    }

    /// Creates a view from a RawBox.
    pub fn from_raw_box(raw: &RawBox<'a>) -> (r: Result<Self, ParseError>)
        ensures
            match r {
                Ok(v) => v.spec_data() == raw.spec_data() && spec_check_entry(raw.spec_data(), 16) is Ok,
                Err(e) => spec_check_entry(raw.spec_data(), 16) == Err::<BoxHeader, ParseError>(e),
            },
    {
        Self::new(raw.data())
    }

    /// Returns the underlying byte slice.
    pub fn as_bytes(&self) -> (r: &'a [u8])
        ensures
            r@ == self.spec_data(),
    {
        self.data
    }

    /// Returns the sample entry kind, found from the box type and its registered handler.
    pub fn kind(&self) -> (r: SampleEntryKind)
        ensures
            r == spec_kind(box_type_of(self.spec_data()), registry_handler(box_type_of(self.spec_data()))),
    {
        proof { use_type_invariant(self); }
        self.kind
    }

    /// Returns the header size for this sample entry type.
    pub fn header_size(&self) -> (r: usize)
        ensures
            r == spec_header_size(spec_kind(box_type_of(self.spec_data()), registry_handler(box_type_of(self.spec_data())))),
    {
        proof { use_type_invariant(self); }
        self.kind.header_size()
    }

    /// Returns the payload data after the sample entry header (child boxes).
    pub fn children_data(&self) -> (r: &'a [u8])
        ensures
            r@ == children_after(
                self.spec_data(),
                spec_header_size(spec_kind(box_type_of(self.spec_data()), registry_handler(box_type_of(self.spec_data())))),
            ),
    {
        let header_size = self.header_size();
        if self.data.len() > header_size {
            &self.data[header_size..self.data.len()]
        } else {
            &self.data[0..0]
        }
    }

    /// Returns an iterator over child boxes.
    pub fn children(&self) -> (r: BoxIterator<'a>)
        ensures
            r.remaining() == spec_children(children_after(
                self.spec_data(),
                spec_header_size(spec_kind(box_type_of(self.spec_data()), registry_handler(box_type_of(self.spec_data())))),
            )),
    {
        BoxIterator::new(self.children_data())
    }
}

impl<'a> SampleEntry for SampleEntryView<'a> {
    fn box_size(&self) -> (r: u64)
        ensures
            r == self.spec_data().len(),
    {
        proof { use_type_invariant(self); }
        self.header.size
    }

    fn box_type(&self) -> (r: BoxCode)
        ensures
            r == box_type_of(self.spec_data()),
    {
        proof { use_type_invariant(self); }
        self.header.box_type
    }

    fn data_reference_index(&self) -> (r: u16)
        ensures
            r == spec_data_reference_index(self.spec_data()),
    {
        proof { use_type_invariant(self); }
        // data_reference_index is at offset 14-15 (after 8 byte header + 6 reserved)
        read_u16(self.data, 14)
    }
}

// ============================================================================
// Visual Sample Entry
// ============================================================================

/// The header of the visual sample entry `s`, or why `s` is not one: the
/// compressor name's length byte is at most 31 and the name is UTF-8.
pub open spec fn spec_check_visual(s: Seq<u8>) -> Result<BoxHeader, ParseError> {
    match spec_check_entry(s, 86) {
        Err(e) => Err(e),
        Ok(h) => if s[50] > 31 {
            Err(ParseError::InvalidFieldSize { field: "compressor_name_length", size: s[50] })
        } else if !valid_utf8(s.subrange(51, 51 + s[50])) {
            Err(ParseError::InvalidStringEncoding { context: "compressor_name" })
        } else {
            Ok(h)
        },
    }
}

/// The compressor name bytes of the visual sample entry `s`.
pub open spec fn spec_compressor_name(s: Seq<u8>) -> Seq<u8> {
    s.subrange(51, 51 + s[50])
}

/// A borrowing view over a visual sample entry (avc1, hvc1, etc.).
#[derive(Clone, Copy, Debug)]
pub struct VisualSampleEntryView<'a> {
    data: &'a [u8],
    header: BoxHeader,
}

impl<'a> VisualSampleEntryView<'a> {
    #[verifier::type_invariant]
    closed spec fn inv(&self) -> bool {
        &&& spec_check_visual(self.data@) == Ok::<BoxHeader, ParseError>(self.header)
        &&& self.data@.len() <= usize::MAX
    }

    /// The bytes of the sample entry.
    pub closed spec fn spec_data(&self) -> Seq<u8> {
        self.data@
    }

    /// Creates a new view over the given bytes.
    pub fn new(data: &'a [u8]) -> (r: Result<Self, ParseError>)
        ensures
            match r {
                Ok(v) => v.spec_data() == data@ && spec_check_visual(data@) is Ok,
                Err(e) => spec_check_visual(data@) == Err::<BoxHeader, ParseError>(e),
            },
    {
        let header = BoxHeader::parse(data, data.len())?;
        if header.size != data.len() as u64 {
            return Err(ParseError::SizeMismatch { declared: header.size, actual: data.len() });
        }
        if data.len() < VISUAL_HEADER_SIZE {
            return Err(ParseError::BufferTooShort { expected: VISUAL_HEADER_SIZE, found: data.len() });
        }
        // Validate compressor name: length byte must not exceed 31 (the fixed field size)
        let compressor_name_len = data[50] as usize;
        if compressor_name_len > 31 {
            return Err(ParseError::InvalidFieldSize { field: "compressor_name_length", size: data[50] });
        }
        // Validate compressor name is valid UTF-8
        if str_from_utf8(&data[51..51 + compressor_name_len]).is_none() {
            return Err(ParseError::InvalidStringEncoding { context: "compressor_name" });
        }
        Ok(Self { data, header })
    }

    /// Creates a view from a RawBox.
    pub fn from_raw_box(raw: &RawBox<'a>) -> (r: Result<Self, ParseError>)
        ensures
            match r {
                Ok(v) => v.spec_data() == raw.spec_data() && spec_check_visual(raw.spec_data()) is Ok,
                Err(e) => spec_check_visual(raw.spec_data()) == Err::<BoxHeader, ParseError>(e),
            },
    {
        Self::new(raw.data())
    }

    /// Returns the underlying byte slice.
    pub fn as_bytes(&self) -> (r: &'a [u8])
        ensures
            r@ == self.spec_data(),
    {
        self.data
    }

    /// Returns the payload data after the visual sample entry header (child boxes).
    pub fn children_data(&self) -> (r: &'a [u8])
        ensures
            r@ == children_after(self.spec_data(), 86),
    {
        if self.data.len() > VISUAL_HEADER_SIZE {
            &self.data[VISUAL_HEADER_SIZE..self.data.len()]
        } else {
            &self.data[0..0]
        }
    }

    /// Returns an iterator over child boxes.
    pub fn children(&self) -> (r: BoxIterator<'a>)
        ensures
            r.remaining() == spec_children(children_after(self.spec_data(), 86)),
    {
        BoxIterator::new(self.children_data())
    }
}

impl<'a> SampleEntry for VisualSampleEntryView<'a> {
    fn box_size(&self) -> (r: u64)
        ensures
            r == self.spec_data().len(),
    {
        proof { use_type_invariant(self); }
        self.header.size
    }

    fn box_type(&self) -> (r: BoxCode)
        ensures
            r == box_type_of(self.spec_data()),
    {
        proof { use_type_invariant(self); }
        self.header.box_type
    }

    fn data_reference_index(&self) -> (r: u16)
        ensures
            r == spec_data_reference_index(self.spec_data()),
    {
        proof { use_type_invariant(self); }
        read_u16(self.data, 14)
    }
}

impl<'a> VisualSampleEntry for VisualSampleEntryView<'a> {
    fn width(&self) -> (r: u16)
        ensures
            r == be16(self.spec_data(), 32),
    {
        proof { use_type_invariant(self); }
        read_u16(self.data, 32)
    }

    fn height(&self) -> (r: u16)
        ensures
            r == be16(self.spec_data(), 34),
    {
        proof { use_type_invariant(self); }
        read_u16(self.data, 34)
    }

    fn horiz_resolution(&self) -> (r: UFixedPoint16_16)
        ensures
            r.0 == be32(self.spec_data(), 36),
    {
        proof { use_type_invariant(self); }
        UFixedPoint16_16::from_raw(read_u32(self.data, 36))
    }

    fn vert_resolution(&self) -> (r: UFixedPoint16_16)
        ensures
            r.0 == be32(self.spec_data(), 40),
    {
        proof { use_type_invariant(self); }
        UFixedPoint16_16::from_raw(read_u32(self.data, 40))
    }

    fn frame_count(&self) -> (r: u16)
        ensures
            r == be16(self.spec_data(), 48),
    {
        proof { use_type_invariant(self); }
        read_u16(self.data, 48)
    }

    fn compressor_name(&self) -> (r: &str)
        ensures
            r@ == decode_utf8(spec_compressor_name(self.spec_data())),
    {
        proof { use_type_invariant(self); }
        // Length and UTF-8 validated in constructor
        let len = self.data[50] as usize;
        match str_from_utf8(&self.data[51..51 + len]) {
            Some(s) => s,
            None => {
                assert(false);
                ""
            },
        }
    }

    fn depth(&self) -> (r: u16)
        ensures
            r == be16(self.spec_data(), 82),
    {
        proof { use_type_invariant(self); }
        read_u16(self.data, 82)
    }

    fn children_data(&self) -> (r: &[u8])
        ensures
            r@ == children_after(self.spec_data(), 86),
    {
        VisualSampleEntryView::children_data(self)
    }
}

/// `n` zero bytes.
pub open spec fn zeros(n: int) -> Seq<u8> {
    Seq::new(n as nat, |i: int| 0u8)
}

/// Appends `n` zero bytes.
fn write_zeros(out: &mut Vec<u8>, n: usize)
    ensures
        final(out)@ == old(out)@ + zeros(n as int),
{
    let ghost start = out@;
    let mut k: usize = 0;
    while k < n
        invariant
            k <= n,
            out@ == start + zeros(k as int),
        decreases n - k,
    {
        write_u8(out, 0);
        assert(out@ =~= start + zeros(k + 1));
        k = k + 1;
    }
}

/// The length written for a compressor name of `b` bytes: at most 31.
pub open spec fn name_len(b: Seq<u8>) -> int {
    if b.len() < 31 { b.len() as int } else { 31 }
}

/// An owned representation of a visual sample entry.
#[derive(Clone, Debug, PartialEq, Eq)]
pub struct VisualSampleEntryOwned {
    /// The codec identifier (e.g. avc1, hvc1).
    pub box_type: BoxCode,
    /// Data reference index.
    pub data_reference_index: u16,
    /// Video width in pixels.
    pub width: u16,
    /// Video height in pixels.
    pub height: u16,
    /// Horizontal resolution (template: 72 dpi = 0x00480000).
    pub horiz_resolution: UFixedPoint16_16,
    /// Vertical resolution (template: 72 dpi = 0x00480000).
    pub vert_resolution: UFixedPoint16_16,
    /// Number of frames per sample (template: 1).
    pub frame_count: u16,
    /// Compressor name (up to 31 characters).
    pub compressor_name: String,
    /// Bit depth (template: 24).
    pub depth: u16,
    /// Raw child box data (e.g. avcC, hvcC, clap, pasp).
    pub children_data: Vec<u8>,
}

impl VisualSampleEntryOwned {
    /// The payload: the visual sample entry fields, then the child boxes.
    pub open spec fn spec_payload(&self) -> Seq<u8> {
        let name = encode_utf8(self.compressor_name@);
        let nl = name_len(name);
        zeros(6) + u16_bytes(self.data_reference_index) + zeros(16)
            + u16_bytes(self.width) + u16_bytes(self.height) + u32_bytes(self.horiz_resolution.0)
            + u32_bytes(self.vert_resolution.0) + zeros(4) + u16_bytes(self.frame_count)
            + seq![nl as u8] + name.take(nl) + zeros(31 - nl) + u16_bytes(self.depth) + i16_bytes(-1i16)
            + self.children_data@
    }

    /// The serialized bytes of the sample entry.
    pub open spec fn spec_bytes(&self) -> Seq<u8> {
        box_bytes(self.box_type, self.spec_payload())
    }

    /// The sample entry fits in 64-bit size fields.
    pub open spec fn spec_fits(&self) -> bool {
        box_fits((78 + self.children_data@.len()) as int)
    }

    /// Creates a new VisualSampleEntryOwned with default template values.
    pub fn new(box_type: BoxCode) -> (r: Self)
        ensures
            r.box_type == box_type,
            r.data_reference_index == 1,
            r.width == 0,
            r.height == 0,
            r.horiz_resolution.0 == 0x0048_0000,
            r.vert_resolution.0 == 0x0048_0000,
            r.frame_count == 1,
            r.compressor_name@.len() == 0,
            r.depth == 0x0018,
            r.children_data@.len() == 0,
    {
        Self {
            box_type,
            data_reference_index: 1,
            width: 0,
            height: 0,
            // 72 dpi
            horiz_resolution: UFixedPoint16_16::from_raw(0x0048_0000),
            vert_resolution: UFixedPoint16_16::from_raw(0x0048_0000),
            frame_count: 1,
            compressor_name: String::new(),
            depth: 0x0018,
            children_data: Vec::new(),
        }
    }

    /// Returns the serialized size of the box, or `u64::MAX` when it does not fit.
    fn serialized_size(&self) -> (r: u64)
        ensures
            r == if self.spec_fits() { spec_box_size((78 + self.children_data@.len()) as int) } else { 0xffff_ffff_ffff_ffff },
    {
        saturating_box_size(saturating_add(78, self.children_data.len() as u64))
    }

    /// Writes the box to the given vector.
    pub fn write_to(&self, out: &mut Vec<u8>) -> (r: Result<(), WriteError>)
        ensures
            r is Ok <==> self.spec_fits(),
            r is Ok ==> final(out)@ == old(out)@ + self.spec_bytes(),
            r is Err ==> final(out)@ == old(out)@,
    {
        let payload = saturating_add(78, self.children_data.len() as u64);
        match begin_box(out, self.box_type, payload) {
            Ok(()) => {},
            Err(e) => {
                return Err(e);
            },
        }
        let ghost start = out@;
        // reserved (6 bytes)
        write_zeros(out, 6);
        write_u16(out, self.data_reference_index);
        // pre_defined = 0, reserved = 0, pre_defined = 0 (12 bytes)
        write_zeros(out, 16);
        write_u16(out, self.width);
        write_u16(out, self.height);
        write_u32(out, self.horiz_resolution.raw());
        write_u32(out, self.vert_resolution.raw());
        // reserved = 0
        write_zeros(out, 4);
        write_u16(out, self.frame_count);
        // compressorname (32 bytes: 1 length byte + up to 31 chars + padding)
        let name_bytes = self.compressor_name.as_str().as_bytes();
        let name_len: usize = if name_bytes.len() < 31 { name_bytes.len() } else { 31 };
        write_u8(out, name_len as u8);
        write_all(out, &name_bytes[0..name_len]);
        write_zeros(out, 31 - name_len);
        write_u16(out, self.depth);
        // pre_defined = -1
        write_i16(out, -1);
        write_all(out, self.children_data.as_slice());
        assert(out@ =~= start + self.spec_payload());
        Ok(())
    }

    /// Creates an owned copy of the sample entry that `source` views.
    pub fn from(source: &VisualSampleEntryView<'_>) -> (r: Self)
        ensures
            r.box_type == box_type_of(source.spec_data()),
            r.data_reference_index == spec_data_reference_index(source.spec_data()),
            r.width == be16(source.spec_data(), 32),
            r.height == be16(source.spec_data(), 34),
            r.horiz_resolution.0 == be32(source.spec_data(), 36),
            r.vert_resolution.0 == be32(source.spec_data(), 40),
            r.frame_count == be16(source.spec_data(), 48),
            r.compressor_name@ == decode_utf8(spec_compressor_name(source.spec_data())),
            r.depth == be16(source.spec_data(), 82),
            r.children_data@ == children_after(source.spec_data(), 86),
    {
        let children = source.children_data();
        let v = copy_range(children, 0, children.len());
        assert(v@ =~= children@);
        Self {
            box_type: source.box_type(),
            data_reference_index: source.data_reference_index(),
            width: source.width(),
            height: source.height(),
            horiz_resolution: source.horiz_resolution(),
            vert_resolution: source.vert_resolution(),
            frame_count: source.frame_count(),
            compressor_name: source.compressor_name().to_owned(),
            depth: source.depth(),
            children_data: v,
        }
    }
}

impl Default for VisualSampleEntryOwned {
    fn default() -> (r: Self)
        ensures
            r.box_type == 0x6176_6331,
            r.data_reference_index == 1,
            r.width == 0,
            r.height == 0,
            r.horiz_resolution.0 == 0x0048_0000,
            r.vert_resolution.0 == 0x0048_0000,
            r.frame_count == 1,
            r.compressor_name@.len() == 0,
            r.depth == 0x0018,
            r.children_data@.len() == 0,
    {
        // avc1
        Self::new(0x6176_6331)
    }
}

impl SampleEntry for VisualSampleEntryOwned {
    fn box_size(&self) -> (r: u64)
        ensures
            r == if self.spec_fits() { spec_box_size((78 + self.children_data@.len()) as int) } else { 0xffff_ffff_ffff_ffff },
    {
        self.serialized_size()
    }

    fn box_type(&self) -> (r: BoxCode)
        ensures
            r == self.box_type,
    {
        self.box_type
    }

    fn data_reference_index(&self) -> (r: u16)
        ensures
            r == self.data_reference_index,
    {
        self.data_reference_index
    }
}

impl VisualSampleEntry for VisualSampleEntryOwned {
    fn width(&self) -> (r: u16)
        ensures
            r == self.width,
    {
        self.width
    }

    fn height(&self) -> (r: u16)
        ensures
            r == self.height,
    {
        self.height
    }

    fn horiz_resolution(&self) -> (r: UFixedPoint16_16)
        ensures
            r == self.horiz_resolution,
    {
        self.horiz_resolution
    }

    fn vert_resolution(&self) -> (r: UFixedPoint16_16)
        ensures
            r == self.vert_resolution,
    {
        self.vert_resolution
    }

    fn frame_count(&self) -> (r: u16)
        ensures
            r == self.frame_count,
    {
        self.frame_count
    }

    fn compressor_name(&self) -> (r: &str)
        ensures
            r@ == self.compressor_name@,
    {
        self.compressor_name.as_str()
    }

    fn depth(&self) -> (r: u16)
        ensures
            r == self.depth,
    {
        self.depth
    }

    fn children_data(&self) -> (r: &[u8])
        ensures
            r@ == self.children_data@,
    {
        self.children_data.as_slice()
    }
}

// ============================================================================
// Audio Sample Entry
// ============================================================================

/// A borrowing view over an audio sample entry (mp4a, ac-3, etc.).
#[derive(Clone, Copy, Debug)]
pub struct AudioSampleEntryView<'a> {
    data: &'a [u8],
    header: BoxHeader,
}

impl<'a> AudioSampleEntryView<'a> {
    #[verifier::type_invariant]
    closed spec fn inv(&self) -> bool {
        &&& spec_check_entry(self.data@, 36) == Ok::<BoxHeader, ParseError>(self.header)
        &&& self.data@.len() <= usize::MAX
    }

    /// The bytes of the sample entry.
    pub closed spec fn spec_data(&self) -> Seq<u8> {
        self.data@
    }

    /// Creates a new view over the given bytes.
    pub fn new(data: &'a [u8]) -> (r: Result<Self, ParseError>)
        ensures
            match r {
                Ok(v) => v.spec_data() == data@ && spec_check_entry(data@, 36) is Ok,
                Err(e) => spec_check_entry(data@, 36) == Err::<BoxHeader, ParseError>(e),
            },
    {
        let header = BoxHeader::parse(data, data.len())?;
        if header.size != data.len() as u64 {
            return Err(ParseError::SizeMismatch { declared: header.size, actual: data.len() });
        }
        if data.len() < AUDIO_HEADER_SIZE {
            return Err(ParseError::BufferTooShort { expected: AUDIO_HEADER_SIZE, found: data.len() });
        }
        Ok(Self { data, header })
    }

    /// Creates a view from a RawBox.
    pub fn from_raw_box(raw: &RawBox<'a>) -> (r: Result<Self, ParseError>)
        ensures
            match r {
                Ok(v) => v.spec_data() == raw.spec_data() && spec_check_entry(raw.spec_data(), 36) is Ok,
                Err(e) => spec_check_entry(raw.spec_data(), 36) == Err::<BoxHeader, ParseError>(e),
            },
    {
        Self::new(raw.data())
    }

    /// Returns the underlying byte slice.
    pub fn as_bytes(&self) -> (r: &'a [u8])
        ensures
            r@ == self.spec_data(),
    {
        self.data
    }

    /// Returns the sample rate as a u32 (integer part only).
    pub fn sample_rate_integer(&self) -> (r: u32)
        ensures
            r == be16(self.spec_data(), 32),
    {
        proof { use_type_invariant(self); }
        read_u16(self.data, 32) as u32
    }

    /// Returns the payload data after the audio sample entry header (child boxes).
    pub fn children_data(&self) -> (r: &'a [u8])
        ensures
            r@ == children_after(self.spec_data(), 36),
    {
        if self.data.len() > AUDIO_HEADER_SIZE {
            &self.data[AUDIO_HEADER_SIZE..self.data.len()]
        } else {
            &self.data[0..0]
        }
    }

    /// Returns an iterator over child boxes.
    pub fn children(&self) -> (r: BoxIterator<'a>)
        ensures
            r.remaining() == spec_children(children_after(self.spec_data(), 36)),
    {
        BoxIterator::new(self.children_data())
    }
}

impl<'a> SampleEntry for AudioSampleEntryView<'a> {
    fn box_size(&self) -> (r: u64)
        ensures
            r == self.spec_data().len(),
    {
        proof { use_type_invariant(self); }
        self.header.size
    }

    fn box_type(&self) -> (r: BoxCode)
        ensures
            r == box_type_of(self.spec_data()),
    {
        proof { use_type_invariant(self); }
        self.header.box_type
    }

    fn data_reference_index(&self) -> (r: u16)
        ensures
            r == spec_data_reference_index(self.spec_data()),
    {
        proof { use_type_invariant(self); }
        read_u16(self.data, 14)
    }
}

impl<'a> AudioSampleEntry for AudioSampleEntryView<'a> {
    fn channel_count(&self) -> (r: u16)
        ensures
            r == be16(self.spec_data(), 24),
    {
        proof { use_type_invariant(self); }
        read_u16(self.data, 24)
    }

    fn sample_size(&self) -> (r: u16)
        ensures
            r == be16(self.spec_data(), 26),
    {
        proof { use_type_invariant(self); }
        read_u16(self.data, 26)
    }

    fn sample_rate(&self) -> (r: UFixedPoint16_16)
        ensures
            r.0 == be32(self.spec_data(), 32),
    {
        proof { use_type_invariant(self); }
        UFixedPoint16_16::from_raw(read_u32(self.data, 32))
    }

    fn children_data(&self) -> (r: &[u8])
        ensures
            r@ == children_after(self.spec_data(), 36),
    {
        AudioSampleEntryView::children_data(self)
    }
}

/// An owned representation of an audio sample entry.
#[derive(Clone, Debug, PartialEq, Eq)]
pub struct AudioSampleEntryOwned {
    /// The codec identifier (e.g. mp4a, ac-3).
    pub box_type: BoxCode,
    /// Data reference index.
    pub data_reference_index: u16,
    /// Number of audio channels (template: 2).
    pub channel_count: u16,
    /// Sample size in bits (template: 16).
    pub sample_size: u16,
    /// Sample rate as unsigned fixed 16.16.
    pub sample_rate: UFixedPoint16_16,
    /// Raw child box data (e.g. esds, dac3).
    pub children_data: Vec<u8>,
}

impl AudioSampleEntryOwned {
    /// The payload: the audio sample entry fields, then the child boxes.
    pub open spec fn spec_payload(&self) -> Seq<u8> {
        zeros(6) + u16_bytes(self.data_reference_index) + zeros(8) + u16_bytes(self.channel_count)
            + u16_bytes(self.sample_size) + zeros(4) + u32_bytes(self.sample_rate.0) + self.children_data@
    }

    /// The serialized bytes of the sample entry.
    pub open spec fn spec_bytes(&self) -> Seq<u8> {
        box_bytes(self.box_type, self.spec_payload())
    }

    /// The sample entry fits in 64-bit size fields.
    pub open spec fn spec_fits(&self) -> bool {
        box_fits((28 + self.children_data@.len()) as int)
    }

    /// Creates a new AudioSampleEntryOwned with default template values.
    pub fn new(box_type: BoxCode) -> (r: Self)
        ensures
            r.box_type == box_type,
            r.data_reference_index == 1,
            r.channel_count == 2,
            r.sample_size == 16,
            r.sample_rate.0 == 0,
            r.children_data@.len() == 0,
    {
        Self {
            box_type,
            data_reference_index: 1,
            channel_count: 2,
            sample_size: 16,
            sample_rate: UFixedPoint16_16::zero(),
            children_data: Vec::new(),
        }
    }

    /// Returns the sample rate as a u32 (integer part only).
    pub fn sample_rate_integer(&self) -> (r: u32)
        ensures
            r == self.sample_rate.0 / 0x1_0000,
    {
        self.sample_rate.raw() / 0x1_0000
    }

    /// Returns the serialized size of the box, or `u64::MAX` when it does not fit.
    fn serialized_size(&self) -> (r: u64)
        ensures
            r == if self.spec_fits() { spec_box_size((28 + self.children_data@.len()) as int) } else { 0xffff_ffff_ffff_ffff },
    {
        saturating_box_size(saturating_add(28, self.children_data.len() as u64))
    }

    /// Writes the box to the given vector.
    pub fn write_to(&self, out: &mut Vec<u8>) -> (r: Result<(), WriteError>)
        ensures
            r is Ok <==> self.spec_fits(),
            r is Ok ==> final(out)@ == old(out)@ + self.spec_bytes(),
            r is Err ==> final(out)@ == old(out)@,
    {
        let payload = saturating_add(28, self.children_data.len() as u64);
        match begin_box(out, self.box_type, payload) {
            Ok(()) => {},
            Err(e) => {
                return Err(e);
            },
        }
        let ghost start = out@;
        // reserved (6 bytes)
        write_zeros(out, 6);
        write_u16(out, self.data_reference_index);
        // reserved (8 bytes)
        write_zeros(out, 8);
        write_u16(out, self.channel_count);
        write_u16(out, self.sample_size);
        // pre_defined = 0, reserved = 0
        write_zeros(out, 4);
        write_u32(out, self.sample_rate.raw());
        write_all(out, self.children_data.as_slice());
        assert(out@ =~= start + self.spec_payload());
        Ok(())
    }

    /// Creates an owned copy of the sample entry that `source` views.
    pub fn from(source: &AudioSampleEntryView<'_>) -> (r: Self)
        ensures
            r.box_type == box_type_of(source.spec_data()),
            r.data_reference_index == spec_data_reference_index(source.spec_data()),
            r.channel_count == be16(source.spec_data(), 24),
            r.sample_size == be16(source.spec_data(), 26),
            r.sample_rate.0 == be32(source.spec_data(), 32),
            r.children_data@ == children_after(source.spec_data(), 36),
    {
        let children = source.children_data();
        let v = copy_range(children, 0, children.len());
        assert(v@ =~= children@);
        Self {
            box_type: source.box_type(),
            data_reference_index: source.data_reference_index(),
            channel_count: source.channel_count(),
            sample_size: source.sample_size(),
            sample_rate: source.sample_rate(),
            children_data: v,
        }
    }
}

impl Default for AudioSampleEntryOwned {
    fn default() -> (r: Self)
        ensures
            r.box_type == 0x6d70_3461,
            r.data_reference_index == 1,
            r.channel_count == 2,
            r.sample_size == 16,
            r.sample_rate.0 == 0,
            r.children_data@.len() == 0,
    {
        // mp4a
        Self::new(0x6d70_3461)
    }
}

impl SampleEntry for AudioSampleEntryOwned {
    fn box_size(&self) -> (r: u64)
        ensures
            r == if self.spec_fits() { spec_box_size((28 + self.children_data@.len()) as int) } else { 0xffff_ffff_ffff_ffff },
    {
        self.serialized_size()
    }

    fn box_type(&self) -> (r: BoxCode)
        ensures
            r == self.box_type,
    {
        self.box_type
    }

    fn data_reference_index(&self) -> (r: u16)
        ensures
            r == self.data_reference_index,
    {
        self.data_reference_index
    }
}

impl AudioSampleEntry for AudioSampleEntryOwned {
    fn channel_count(&self) -> (r: u16)
        ensures
            r == self.channel_count,
    {
        self.channel_count
    }

    fn sample_size(&self) -> (r: u16)
        ensures
            r == self.sample_size,
    {
        self.sample_size
    }

    fn sample_rate(&self) -> (r: UFixedPoint16_16)
        ensures
            r == self.sample_rate,
    {
        self.sample_rate
    }

    fn children_data(&self) -> (r: &[u8])
        ensures
            r@ == self.children_data@,
    {
        self.children_data.as_slice()
    }
}

#[verifier::spinoff_prover]
#[verifier::rlimit(50)]
/// Writing an audio sample entry whose size fits the 32-bit size field gives
/// a sample entry that parses and reads back its type, every field and its
/// child box data.
pub proof fn lemma_audio_roundtrip(o: &AudioSampleEntryOwned)
    requires
        36 + o.children_data@.len() <= 0xffff_ffff,
    ensures
        spec_check_entry(o.spec_bytes(), 36) is Ok,
        box_type_of(o.spec_bytes()) == o.box_type,
        spec_data_reference_index(o.spec_bytes()) == o.data_reference_index,
        be16(o.spec_bytes(), 24) == o.channel_count,
        be16(o.spec_bytes(), 26) == o.sample_size,
        be32(o.spec_bytes(), 32) == o.sample_rate.0,
        children_after(o.spec_bytes(), 36) == o.children_data@,
{
    let p = o.spec_payload();
    let b = o.spec_bytes();
    assert(p.len() == 28 + o.children_data@.len());
    lemma_box_roundtrip(o.box_type, p);
    assert(spec_check_box(b, o.box_type, 0) is Ok);
    assert(header_len(b) == 8);
    assert(b.subrange(8, b.len() as int) == p);
    assert forall|k: int| 0 <= k < p.len() implies b[8 + k] == p[k] by {
        assert(b[8 + k] == b.subrange(8, b.len() as int)[k]);
    }
    lemma_u16_roundtrip(o.data_reference_index);
    lemma_u16_roundtrip(o.channel_count);
    lemma_u16_roundtrip(o.sample_size);
    lemma_u32_roundtrip(o.sample_rate.0);
    assert(be16(b, 14) == be16(u16_bytes(o.data_reference_index), 0)) by {
        assert(b[14] == p[6]);
        assert(b[15] == p[7]);
    }
    assert(be16(b, 24) == be16(u16_bytes(o.channel_count), 0)) by {
        assert(b[24] == p[16]);
        assert(b[25] == p[17]);
    }
    assert(be16(b, 26) == be16(u16_bytes(o.sample_size), 0)) by {
        assert(b[26] == p[18]);
        assert(b[27] == p[19]);
    }
    assert(be32(b, 32) == be32(u32_bytes(o.sample_rate.0), 0)) by {
        assert(b[32] == p[24]);
        assert(b[33] == p[25]);
        assert(b[34] == p[26]);
        assert(b[35] == p[27]);
    }
    assert(children_after(b, 36) =~= o.children_data@) by {
        if b.len() > 36 {
            assert forall|k: int| 0 <= k < o.children_data@.len() implies b.subrange(36, b.len() as int)[k] == o.children_data@[k] by {
                assert(b[36 + k] == p[28 + k]);
            }
        }
    }
}

#[verifier::spinoff_prover]
#[verifier::rlimit(50)]
/// Writing a visual sample entry whose size fits the 32-bit size field and
/// whose compressor name has at most 31 bytes gives a sample entry that
/// parses and reads back its type, every field, the name and its child box data.
pub proof fn lemma_visual_roundtrip(o: &VisualSampleEntryOwned)
    requires
        86 + o.children_data@.len() <= 0xffff_ffff,
        encode_utf8(o.compressor_name@).len() <= 31,
    ensures
        spec_check_visual(o.spec_bytes()) is Ok,
        box_type_of(o.spec_bytes()) == o.box_type,
        spec_data_reference_index(o.spec_bytes()) == o.data_reference_index,
        be16(o.spec_bytes(), 32) == o.width,
        be16(o.spec_bytes(), 34) == o.height,
        be32(o.spec_bytes(), 36) == o.horiz_resolution.0,
        be32(o.spec_bytes(), 40) == o.vert_resolution.0,
        be16(o.spec_bytes(), 48) == o.frame_count,
        decode_utf8(spec_compressor_name(o.spec_bytes())) == o.compressor_name@,
        be16(o.spec_bytes(), 82) == o.depth,
        children_after(o.spec_bytes(), 86) == o.children_data@,
{
    let p = o.spec_payload();
    let b = o.spec_bytes();
    let name = encode_utf8(o.compressor_name@);
    let nl = name_len(name);
    assert(name.take(nl) =~= name);
    assert(p.len() == 78 + o.children_data@.len());
    lemma_box_roundtrip(o.box_type, p);
    assert(spec_check_box(b, o.box_type, 0) is Ok);
    assert(header_len(b) == 8);
    assert(b.subrange(8, b.len() as int) == p);
    assert forall|k: int| 0 <= k < p.len() implies b[8 + k] == p[k] by {
        assert(b[8 + k] == b.subrange(8, b.len() as int)[k]);
    }
    lemma_u16_roundtrip(o.data_reference_index);
    lemma_u16_roundtrip(o.width);
    lemma_u16_roundtrip(o.height);
    lemma_u32_roundtrip(o.horiz_resolution.0);
    lemma_u32_roundtrip(o.vert_resolution.0);
    lemma_u16_roundtrip(o.frame_count);
    lemma_u16_roundtrip(o.depth);
    assert(be16(b, 14) == be16(u16_bytes(o.data_reference_index), 0)) by {
        assert(b[14] == p[6]);
        assert(b[15] == p[7]);
    }
    assert(be16(b, 32) == be16(u16_bytes(o.width), 0)) by {
        assert(b[32] == p[24]);
        assert(b[33] == p[25]);
    }
    assert(be16(b, 34) == be16(u16_bytes(o.height), 0)) by {
        assert(b[34] == p[26]);
        assert(b[35] == p[27]);
    }
    assert(be32(b, 36) == be32(u32_bytes(o.horiz_resolution.0), 0)) by {
        assert(b[36] == p[28]);
        assert(b[37] == p[29]);
        assert(b[38] == p[30]);
        assert(b[39] == p[31]);
    }
    assert(be32(b, 40) == be32(u32_bytes(o.vert_resolution.0), 0)) by {
        assert(b[40] == p[32]);
        assert(b[41] == p[33]);
        assert(b[42] == p[34]);
        assert(b[43] == p[35]);
    }
    assert(be16(b, 48) == be16(u16_bytes(o.frame_count), 0)) by {
        assert(b[48] == p[40]);
        assert(b[49] == p[41]);
    }
    assert(b[50] == p[42]);
    assert(b[50] == nl);
    assert(spec_compressor_name(b) =~= name) by {
        assert forall|k: int| 0 <= k < nl implies spec_compressor_name(b)[k] == name[k] by {
            assert(b[51 + k] == p[43 + k]);
        }
    }
    encode_utf8_valid_utf8(o.compressor_name@);
    encode_utf8_decode_utf8(o.compressor_name@);
    assert(be16(b, 82) == be16(u16_bytes(o.depth), 0)) by {
        assert(b[82] == p[74]);
        assert(b[83] == p[75]);
    }
    assert(children_after(b, 86) =~= o.children_data@) by {
        if b.len() > 86 {
            assert forall|k: int| 0 <= k < o.children_data@.len() implies b.subrange(86, b.len() as int)[k] == o.children_data@[k] by {
                assert(b[86 + k] == p[78 + k]);
            }
        }
    }
}

/// Every sample entry holds, after its box header and six reserved bytes,
/// the data reference index in two bytes, big-endian.
pub proof fn lemma_field_layout(s: Seq<u8>)
    ensures
        spec_data_reference_index(s) == be16(s, 14),
{
}

} // verus!
