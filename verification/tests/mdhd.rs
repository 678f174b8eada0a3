use isobmff_syntax::boxes::mdhd::{MediaHeaderBox, MediaHeaderBoxView, MediaHeaderBoxOwned};
use isobmff_syntax::types::{IsoLanguageCode};

fn make_v0_mdhd() -> Vec<u8> {
    let mut data = Vec::new();
    data.extend_from_slice(&32u32.to_be_bytes()); // size
    data.extend_from_slice(b"mdhd");
    data.push(0); // version
    data.extend_from_slice(&[0, 0, 0]); // flags

    data.extend_from_slice(&1000u32.to_be_bytes()); // creation_time
    data.extend_from_slice(&2000u32.to_be_bytes()); // modification_time
    data.extend_from_slice(&48000u32.to_be_bytes()); // timescale
    data.extend_from_slice(&96000u32.to_be_bytes()); // duration (2 seconds)
    data.extend_from_slice(&IsoLanguageCode::from_chars(['e', 'n', 'g']).raw().to_be_bytes());
    data.extend_from_slice(&0u16.to_be_bytes()); // pre_defined

    data
}

#[test]
fn parse_v0() {
    let data = make_v0_mdhd();
    let view = MediaHeaderBoxView::new(&data).unwrap();

    assert_eq!(view.version(), 0);
    assert_eq!(view.timescale(), 48000);
    assert_eq!(view.duration(), 96000);
    assert_eq!(view.language().to_chars(), ['e', 'n', 'g']);
}

#[test]
fn mdhd_roundtrip() {
    let data = make_v0_mdhd();
    let view = MediaHeaderBoxView::new(&data).unwrap();
    let owned = MediaHeaderBoxOwned::from(&view);

    let mut output = Vec::new();
    owned.write_to(&mut output).unwrap();

    assert_eq!(data, output);
}
