use isobmff_syntax::boxes::nump::{NumRTPPacketsBox, NumRTPPacketsBoxView, NumRTPPacketsBoxOwned};

fn make_nump() -> Vec<u8> {
    let mut data = Vec::new();
    data.extend_from_slice(&16u32.to_be_bytes()); // 8 + 8
    data.extend_from_slice(b"nump");
    data.extend_from_slice(&100u64.to_be_bytes());
    data
}

#[test]
fn parse_nump() {
    let data = make_nump();
    let view = NumRTPPacketsBoxView::new(&data).unwrap();
    assert_eq!(view.packets_sent(), 100);
}

#[test]
fn nump_roundtrip() {
    let data = make_nump();
    let view = NumRTPPacketsBoxView::new(&data).unwrap();
    let owned = NumRTPPacketsBoxOwned::from(&view);

    let mut output = Vec::new();
    owned.write_to(&mut output).unwrap();

    assert_eq!(data, output);
}
