use isobmff_syntax::boxes::maxr::{MaxDataRateBox, MaxDataRateBoxView, MaxDataRateBoxOwned};

fn make_maxr() -> Vec<u8> {
    let mut data = Vec::new();
    data.extend_from_slice(&16u32.to_be_bytes()); // 8 + 4 + 4
    data.extend_from_slice(b"maxr");
    data.extend_from_slice(&1000u32.to_be_bytes()); // period
    data.extend_from_slice(&128000u32.to_be_bytes()); // bytes
    data
}

#[test]
fn parse_maxr() {
    let data = make_maxr();
    let view = MaxDataRateBoxView::new(&data).unwrap();
    assert_eq!(view.period(), 1000);
    assert_eq!(view.bytes(), 128000);
}

#[test]
fn maxr_roundtrip() {
    let data = make_maxr();
    let view = MaxDataRateBoxView::new(&data).unwrap();
    let owned = MaxDataRateBoxOwned::from(&view);

    let mut output = Vec::new();
    owned.write_to(&mut output).unwrap();

    assert_eq!(data, output);
}
