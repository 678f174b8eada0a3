use isobmff_syntax::boxes::sinf::{ProtectionSchemeInfoBox, ProtectionSchemeInfoBoxOwned, ProtectionSchemeInfoBoxView};

#[test]
fn parse_empty_sinf() {
    let mut data = Vec::new();
    data.extend_from_slice(&8u32.to_be_bytes());
    data.extend_from_slice(b"sinf");

    let view = ProtectionSchemeInfoBoxView::new(&data).unwrap();
    assert_eq!(view.box_size(), 8);
}

#[test]
fn sinf_roundtrip() {
    let mut data = Vec::new();
    data.extend_from_slice(&8u32.to_be_bytes());
    data.extend_from_slice(b"sinf");

    let view = ProtectionSchemeInfoBoxView::new(&data).unwrap();
    let owned = ProtectionSchemeInfoBoxOwned::from(&view);

    let mut output = Vec::new();
    owned.write_to(&mut output).unwrap();

    assert_eq!(data, output);
}
