use isobmff_syntax::boxes::payt::{PayloadTypeBox, PayloadTypeBoxOwned, PayloadTypeBoxView};

fn make_payt() -> Vec<u8> {
    let mut data = Vec::new();
    data.extend_from_slice(&13u32.to_be_bytes()); // 8 + 4 + 1
    data.extend_from_slice(b"payt");
    data.extend_from_slice(&96u32.to_be_bytes()); // payload_type
    data.push(0); // rtp_map count
    data
}

#[test]
fn parse_payt() {
    let data = make_payt();
    let view = PayloadTypeBoxView::new(&data).unwrap();
    assert_eq!(view.payload_type(), 96);
}

#[test]
fn payt_roundtrip() {
    let data = make_payt();
    let view = PayloadTypeBoxView::new(&data).unwrap();
    let owned = PayloadTypeBoxOwned::from(&view);

    let mut output = Vec::new();
    owned.write_to(&mut output).unwrap();

    assert_eq!(data, output);
}
