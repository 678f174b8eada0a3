use isobmff_syntax::boxes::mvhd::{MovieHeaderBox, MovieHeaderBoxView, MovieHeaderBoxOwned, BOX_TYPE};
use isobmff_syntax::error::ParseError;
use isobmff_syntax::types::{FixedPoint16_16, FixedPoint8_8, Matrix};

fn make_v0_box() -> Vec<u8> {
    let mut data = Vec::new();

    // Size (108 bytes total for v0)
    data.extend_from_slice(&108u32.to_be_bytes());
    // Type
    data.extend_from_slice(b"mvhd");
    // Version and flags
    data.push(0); // version
    data.extend_from_slice(&[0, 0, 0]); // flags

    // Payload (v0)
    data.extend_from_slice(&1000u32.to_be_bytes()); // creation_time
    data.extend_from_slice(&2000u32.to_be_bytes()); // modification_time
    data.extend_from_slice(&48000u32.to_be_bytes()); // timescale
    data.extend_from_slice(&96000u32.to_be_bytes()); // duration (2 seconds)

    data.extend_from_slice(&0x00010000i32.to_be_bytes()); // rate = 1.0
    data.extend_from_slice(&0x0100i16.to_be_bytes()); // volume = 1.0

    data.extend_from_slice(&[0u8; 2]); // reserved
    data.extend_from_slice(&[0u8; 8]); // reserved

    // Identity matrix
    let matrix = [0x10000i32, 0, 0, 0, 0x10000, 0, 0, 0, 0x40000000];
    for m in matrix {
        data.extend_from_slice(&m.to_be_bytes());
    }

    data.extend_from_slice(&[0u8; 24]); // pre_defined
    data.extend_from_slice(&1u32.to_be_bytes()); // next_track_id

    data
}

fn make_v1_box() -> Vec<u8> {
    let mut data = Vec::new();

    // Size (120 bytes total for v1)
    data.extend_from_slice(&120u32.to_be_bytes());
    // Type
    data.extend_from_slice(b"mvhd");
    // Version and flags
    data.push(1); // version
    data.extend_from_slice(&[0, 0, 0]); // flags

    // Payload (v1)
    data.extend_from_slice(&0x100000000u64.to_be_bytes()); // creation_time (> u32::MAX)
    data.extend_from_slice(&0x100000001u64.to_be_bytes()); // modification_time
    data.extend_from_slice(&48000u32.to_be_bytes()); // timescale
    data.extend_from_slice(&0x200000000u64.to_be_bytes()); // duration

    data.extend_from_slice(&0x00010000i32.to_be_bytes()); // rate = 1.0
    data.extend_from_slice(&0x0100i16.to_be_bytes()); // volume = 1.0

    data.extend_from_slice(&[0u8; 2]); // reserved
    data.extend_from_slice(&[0u8; 8]); // reserved

    // Identity matrix
    let matrix = [0x10000i32, 0, 0, 0, 0x10000, 0, 0, 0, 0x40000000];
    for m in matrix {
        data.extend_from_slice(&m.to_be_bytes());
    }

    data.extend_from_slice(&[0u8; 24]); // pre_defined
    data.extend_from_slice(&42u32.to_be_bytes()); // next_track_id

    data
}

#[test]
fn parse_v0_box() {
    let data = make_v0_box();
    let view = MovieHeaderBoxView::new(&data).unwrap();

    assert_eq!(view.box_size(), 108);
    assert_eq!(view.box_type(), BOX_TYPE);
    assert_eq!(view.version(), 0);
    assert_eq!(view.flags(), 0);
    assert_eq!(view.creation_time(), 1000);
    assert_eq!(view.modification_time(), 2000);
    assert_eq!(view.timescale(), 48000);
    assert_eq!(view.duration(), 96000);
    assert_eq!(view.rate(), FixedPoint16_16::one());
    assert_eq!(view.volume(), FixedPoint8_8::one());
    assert_eq!(view.matrix(), Matrix::identity());
    assert_eq!(view.next_track_id(), 1);
}

#[test]
fn parse_v1_box() {
    let data = make_v1_box();
    let view = MovieHeaderBoxView::new(&data).unwrap();

    assert_eq!(view.box_size(), 120);
    assert_eq!(view.version(), 1);
    assert_eq!(view.creation_time(), 0x100000000);
    assert_eq!(view.modification_time(), 0x100000001);
    assert_eq!(view.timescale(), 48000);
    assert_eq!(view.duration(), 0x200000000);
    assert_eq!(view.next_track_id(), 42);
}

#[test]
fn invalid_box_type() {
    let mut data = make_v0_box();
    data[4..8].copy_from_slice(b"trak");

    let result = MovieHeaderBoxView::new(&data);
    assert!(matches!(result, Err(ParseError::InvalidBoxType { .. })));
}

#[test]
fn invalid_version() {
    let mut data = make_v0_box();
    data[8] = 2; // invalid version

    let result = MovieHeaderBoxView::new(&data);
    assert!(matches!(result, Err(ParseError::InvalidVersion(2))));
}

#[test]
fn buffer_too_short() {
    // Buffer too short to read basic header
    let result = MovieHeaderBoxView::new(&[0u8; 4]);
    assert!(matches!(result, Err(ParseError::BufferTooShort { .. })));
}

#[test]
fn size_mismatch() {
    let mut data = make_v0_box();
    // Change declared size to 200
    data[0..4].copy_from_slice(&200u32.to_be_bytes());

    let result = MovieHeaderBoxView::new(&data);
    assert!(matches!(result, Err(ParseError::SizeMismatch { .. })));
}

#[test]
fn owned_default() {
    let owned = MovieHeaderBoxOwned::new();
    assert_eq!(owned.required_version(), 0);
    assert_eq!(owned.timescale, 1000);
    assert_eq!(owned.rate, FixedPoint16_16::one());
}

#[test]
fn owned_from_view() {
    let data = make_v0_box();
    let view = MovieHeaderBoxView::new(&data).unwrap();
    let owned = MovieHeaderBoxOwned::from(&view);

    assert_eq!(owned.creation_time, view.creation_time());
    assert_eq!(owned.modification_time, view.modification_time());
    assert_eq!(owned.timescale, view.timescale());
    assert_eq!(owned.duration, view.duration());
}

#[test]
fn owned_requires_v1() {
    let mut owned = MovieHeaderBoxOwned::new();
    assert_eq!(owned.required_version(), 0);

    owned.creation_time = 0x100000000;
    assert_eq!(owned.required_version(), 1);
}

#[test]
fn mvhd_roundtrip_v0() {
    let data = make_v0_box();
    let view = MovieHeaderBoxView::new(&data).unwrap();
    let owned = MovieHeaderBoxOwned::from(&view);

    let mut output = Vec::new();
    owned.write_to(&mut output).unwrap();

    assert_eq!(data, output);
}

#[test]
fn mvhd_roundtrip_v1() {
    let data = make_v1_box();
    let view = MovieHeaderBoxView::new(&data).unwrap();
    let owned = MovieHeaderBoxOwned::from(&view);

    let mut output = Vec::new();
    owned.write_to(&mut output).unwrap();

    assert_eq!(data, output);
}

#[test]
fn trait_generic() {
    fn print_duration<T: MovieHeaderBox>(header: &T) -> f64 {
        header.duration() as f64 / header.timescale() as f64
    }

    let data = make_v0_box();
    let view = MovieHeaderBoxView::new(&data).unwrap();
    let owned = MovieHeaderBoxOwned::from(&view);

    let view_duration = print_duration(&view);
    let owned_duration = print_duration(&owned);

    assert!((view_duration - 2.0).abs() < 0.001);
    assert!((owned_duration - 2.0).abs() < 0.001);
}
