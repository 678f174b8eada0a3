use isobmff_syntax::boxes::minf::{MediaInformationBox, MediaInformationBoxOwned, MediaInformationBoxView};

#[test]
fn parse_empty_minf() {
    let mut data = Vec::new();
    data.extend_from_slice(&8u32.to_be_bytes());
    data.extend_from_slice(b"minf");

    let view = MediaInformationBoxView::new(&data).unwrap();
    assert_eq!(view.box_size(), 8);
}

#[test]
fn minf_roundtrip() {
    let mut data = Vec::new();
    data.extend_from_slice(&24u32.to_be_bytes());
    data.extend_from_slice(b"minf");
    data.extend_from_slice(&[0u8; 16]);

    let view = MediaInformationBoxView::new(&data).unwrap();
    let owned = MediaInformationBoxOwned::from(&view);

    let mut output = Vec::new();
    owned.write_to(&mut output).unwrap();

    assert_eq!(data, output);
}
