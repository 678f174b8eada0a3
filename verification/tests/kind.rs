use isobmff_syntax::boxes::kind::{KindBox, KindBoxOwned, KindBoxView};

fn make_kind() -> Vec<u8> {
    let scheme = b"urn:mpeg:dash:role:2011";
    let value = b"main";
    let mut data = Vec::new();
    // 8 + 4 + 23 + 1 + 4 + 1 = 41 bytes
    data.extend_from_slice(&41u32.to_be_bytes());
    data.extend_from_slice(b"kind");
    data.push(0); // version
    data.extend_from_slice(&[0, 0, 0]); // flags
    data.extend_from_slice(scheme);
    data.push(0); // null terminator
    data.extend_from_slice(value);
    data.push(0); // null terminator
    data
}

#[test]
fn parse_kind() {
    let data = make_kind();
    let view = KindBoxView::new(&data).unwrap();

    assert_eq!(view.scheme_uri(), b"urn:mpeg:dash:role:2011");
    assert_eq!(view.value(), b"main");
}

#[test]
fn kind_roundtrip() {
    let data = make_kind();
    let view = KindBoxView::new(&data).unwrap();
    let owned = KindBoxOwned::from(&view);

    let mut output = Vec::new();
    owned.write_to(&mut output).unwrap();

    assert_eq!(data, output);
}
