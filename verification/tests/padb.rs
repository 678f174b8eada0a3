use isobmff_syntax::boxes::padb::{PaddingBitsBox, PaddingBitsBoxOwned, PaddingBitsBoxView};

fn make_padb() -> Vec<u8> {
    let mut data = Vec::new();
    // 8 + 4 + 4 + 1 = 17 bytes (2 samples)
    data.extend_from_slice(&17u32.to_be_bytes());
    data.extend_from_slice(b"padb");
    data.push(0); // version
    data.extend_from_slice(&[0, 0, 0]); // flags
    data.extend_from_slice(&2u32.to_be_bytes()); // sample_count
    data.push(0x12); // pad1=1, pad2=2
    data
}

#[test]
fn parse_padb() {
    let data = make_padb();
    let view = PaddingBitsBoxView::new(&data).unwrap();

    assert_eq!(view.sample_count(), 2);
    assert_eq!(view.padding(0), Some((1, 2)));
}

#[test]
fn padb_roundtrip() {
    let data = make_padb();
    let view = PaddingBitsBoxView::new(&data).unwrap();
    let owned = PaddingBitsBoxOwned::from(&view);

    let mut output = Vec::new();
    owned.write_to(&mut output).unwrap();

    assert_eq!(data, output);
}
