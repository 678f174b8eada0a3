use isobmff_syntax::boxes::pasp::{PixelAspectRatioBox, PixelAspectRatioBoxView, PixelAspectRatioBoxOwned};

fn make_pasp() -> Vec<u8> {
    let mut data = Vec::new();
    data.extend_from_slice(&16u32.to_be_bytes());
    data.extend_from_slice(b"pasp");
    data.extend_from_slice(&1u32.to_be_bytes()); // h_spacing
    data.extend_from_slice(&1u32.to_be_bytes()); // v_spacing
    data
}

#[test]
fn parse_pasp() {
    let data = make_pasp();
    let view = PixelAspectRatioBoxView::new(&data).unwrap();

    assert_eq!(view.h_spacing(), 1);
    assert_eq!(view.v_spacing(), 1);
}

#[test]
fn pasp_roundtrip() {
    let data = make_pasp();
    let view = PixelAspectRatioBoxView::new(&data).unwrap();
    let owned = PixelAspectRatioBoxOwned::from(&view);

    let mut output = Vec::new();
    owned.write_to(&mut output).unwrap();

    assert_eq!(data, output);
}
