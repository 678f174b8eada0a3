use isobmff_syntax::boxes::schi::{SchemeInformationBox, SchemeInformationBoxOwned, SchemeInformationBoxView};

#[test]
fn parse_empty_schi() {
    let mut data = Vec::new();
    data.extend_from_slice(&8u32.to_be_bytes());
    data.extend_from_slice(b"schi");

    let view = SchemeInformationBoxView::new(&data).unwrap();
    assert_eq!(view.box_size(), 8);
}

#[test]
fn schi_roundtrip() {
    let mut data = Vec::new();
    data.extend_from_slice(&8u32.to_be_bytes());
    data.extend_from_slice(b"schi");

    let view = SchemeInformationBoxView::new(&data).unwrap();
    let owned = SchemeInformationBoxOwned::from(&view);

    let mut output = Vec::new();
    owned.write_to(&mut output).unwrap();

    assert_eq!(data, output);
}
