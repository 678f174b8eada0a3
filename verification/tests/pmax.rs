use isobmff_syntax::boxes::pmax::{LargestPacketSizeBox, LargestPacketSizeBoxView, LargestPacketSizeBoxOwned};

fn make_pmax() -> Vec<u8> {
    let mut data = Vec::new();
    data.extend_from_slice(&12u32.to_be_bytes()); // 8 + 4
    data.extend_from_slice(b"pmax");
    data.extend_from_slice(&1500u32.to_be_bytes());
    data
}

#[test]
fn parse_pmax() {
    let data = make_pmax();
    let view = LargestPacketSizeBoxView::new(&data).unwrap();
    assert_eq!(view.max_packet_size(), 1500);
}

#[test]
fn pmax_roundtrip() {
    let data = make_pmax();
    let view = LargestPacketSizeBoxView::new(&data).unwrap();
    let owned = LargestPacketSizeBoxOwned::from(&view);

    let mut output = Vec::new();
    owned.write_to(&mut output).unwrap();

    assert_eq!(data, output);
}
