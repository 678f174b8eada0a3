use isobmff_syntax::boxes::npck::{NumPacketsBox, NumPacketsBoxView, NumPacketsBoxOwned};

fn make_npck() -> Vec<u8> {
    let mut data = Vec::new();
    data.extend_from_slice(&12u32.to_be_bytes()); // 8 + 4
    data.extend_from_slice(b"npck");
    data.extend_from_slice(&50u32.to_be_bytes());
    data
}

#[test]
fn parse_npck() {
    let data = make_npck();
    let view = NumPacketsBoxView::new(&data).unwrap();
    assert_eq!(view.num_packets(), 50);
}

#[test]
fn npck_roundtrip() {
    let data = make_npck();
    let view = NumPacketsBoxView::new(&data).unwrap();
    let owned = NumPacketsBoxOwned::from(&view);

    let mut output = Vec::new();
    owned.write_to(&mut output).unwrap();

    assert_eq!(data, output);
}
