use isobmff_syntax::boxes::pixi::{PixelInformationBox, PixelInformationBoxOwned, PixelInformationBoxView};

fn make_pixi() -> Vec<u8> {
    let mut data = Vec::new();
    // 8 + 4 + 1 + 3 = 16 bytes
    data.extend_from_slice(&16u32.to_be_bytes());
    data.extend_from_slice(b"pixi");
    data.push(0); // version
    data.extend_from_slice(&[0, 0, 0]); // flags
    data.push(3); // num_channels
    data.push(8); // bits_per_channel[0]
    data.push(8); // bits_per_channel[1]
    data.push(8); // bits_per_channel[2]
    data
}

#[test]
fn parse_pixi() {
    let data = make_pixi();
    let view = PixelInformationBoxView::new(&data).unwrap();

    assert_eq!(view.num_channels(), 3);
    assert_eq!(view.bits_per_channels(), vec![8, 8, 8]);
}

#[test]
fn pixi_roundtrip() {
    let data = make_pixi();
    let view = PixelInformationBoxView::new(&data).unwrap();
    let owned = PixelInformationBoxOwned::from(&view);

    let mut output = Vec::new();
    owned.write_to(&mut output).unwrap();

    assert_eq!(data, output);
}
