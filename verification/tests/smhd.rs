use isobmff_syntax::boxes::smhd::{SoundMediaHeaderBox, SoundMediaHeaderBoxView, SoundMediaHeaderBoxOwned};
use isobmff_syntax::types::{FixedPoint8_8};

fn make_smhd() -> Vec<u8> {
    let mut data = Vec::new();
    data.extend_from_slice(&16u32.to_be_bytes());
    data.extend_from_slice(b"smhd");
    data.push(0); // version
    data.extend_from_slice(&[0, 0, 0]); // flags
    data.extend_from_slice(&0i16.to_be_bytes()); // balance = 0.0
    data.extend_from_slice(&0u16.to_be_bytes()); // reserved
    data
}

#[test]
fn parse_smhd() {
    let data = make_smhd();
    let view = SoundMediaHeaderBoxView::new(&data).unwrap();

    assert_eq!(view.flags(), 0);
    assert_eq!(view.balance(), FixedPoint8_8::zero());
}

#[test]
fn smhd_roundtrip() {
    let data = make_smhd();
    let view = SoundMediaHeaderBoxView::new(&data).unwrap();
    let owned = SoundMediaHeaderBoxOwned::from(&view);

    let mut output = Vec::new();
    owned.write_to(&mut output).unwrap();

    assert_eq!(data, output);
}
