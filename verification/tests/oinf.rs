use isobmff_syntax::boxes::oinf::{OperatingPointsInformationBox, OperatingPointsInformationBoxOwned, OperatingPointsInformationBoxView};

fn make_oinf() -> Vec<u8> {
    let mut data = Vec::new();
    data.extend_from_slice(&12u32.to_be_bytes()); // 8 + 4
    data.extend_from_slice(b"oinf");
    data.push(0); // version
    data.extend_from_slice(&[0, 0, 0]); // flags
    data
}

#[test]
fn parse_oinf() {
    let data = make_oinf();
    let view = OperatingPointsInformationBoxView::new(&data).unwrap();
    assert_eq!(view.version(), 0);
}

#[test]
fn oinf_roundtrip() {
    let data = make_oinf();
    let view = OperatingPointsInformationBoxView::new(&data).unwrap();
    let owned = OperatingPointsInformationBoxOwned::from(&view);

    let mut output = Vec::new();
    owned.write_to(&mut output).unwrap();

    assert_eq!(data, output);
}
