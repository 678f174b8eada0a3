use isobmff_syntax::boxes::schm::{SchemeTypeBox, SchemeTypeBoxOwned, SchemeTypeBoxView};
use isobmff_syntax::code::FourCC;

fn make_schm_without_uri() -> Vec<u8> {
    let mut data = Vec::new();
    data.extend_from_slice(&20u32.to_be_bytes()); // size = 8 + 4 + 8
    data.extend_from_slice(b"schm");
    data.push(0); // version
    data.extend_from_slice(&[0, 0, 0]); // flags
    data.extend_from_slice(b"cenc"); // scheme_type
    data.extend_from_slice(&0x00010000u32.to_be_bytes()); // scheme_version
    data
}

fn make_schm_with_uri() -> Vec<u8> {
    let mut data = Vec::new();
    data.extend_from_slice(&28u32.to_be_bytes()); // size = 8 + 4 + 8 + 8
    data.extend_from_slice(b"schm");
    data.push(0); // version
    data.extend_from_slice(&[0, 0, 1]); // flags = 1 (uri present)
    data.extend_from_slice(b"cenc"); // scheme_type
    data.extend_from_slice(&0x00010000u32.to_be_bytes()); // scheme_version
    data.extend_from_slice(b"urn:foo"); // scheme_uri
    data.push(0); // null terminator
    data
}

#[test]
fn parse_schm_without_uri() {
    let data = make_schm_without_uri();
    let view = SchemeTypeBoxView::new(&data).unwrap();

    assert_eq!(view.scheme_type(), FourCC(*b"cenc"));
    assert_eq!(view.scheme_version(), 0x00010000);
    assert!(view.scheme_uri().is_none());
}

#[test]
fn parse_schm_with_uri() {
    let data = make_schm_with_uri();
    let view = SchemeTypeBoxView::new(&data).unwrap();

    assert_eq!(view.scheme_type(), FourCC(*b"cenc"));
    assert_eq!(view.scheme_uri(), Some(b"urn:foo".as_slice()));
}

#[test]
fn roundtrip_without_uri() {
    let data = make_schm_without_uri();
    let view = SchemeTypeBoxView::new(&data).unwrap();
    let owned = SchemeTypeBoxOwned::from(&view);

    let mut output = Vec::new();
    owned.write_to(&mut output).unwrap();

    assert_eq!(data, output);
}

#[test]
fn roundtrip_with_uri() {
    let data = make_schm_with_uri();
    let view = SchemeTypeBoxView::new(&data).unwrap();
    let owned = SchemeTypeBoxOwned::from(&view);

    let mut output = Vec::new();
    owned.write_to(&mut output).unwrap();

    assert_eq!(data, output);
}
