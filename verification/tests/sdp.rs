use isobmff_syntax::boxes::sdp::{SDPBox, SDPBoxOwned, SDPBoxView};

fn make_sdp() -> Vec<u8> {
    let mut data = Vec::new();
    let sdp_text = b"v=0";
    data.extend_from_slice(&(8 + sdp_text.len() as u32).to_be_bytes());
    data.extend_from_slice(b"sdp ");
    data.extend_from_slice(sdp_text);
    data
}

#[test]
fn parse_sdp() {
    let data = make_sdp();
    let view = SDPBoxView::new(&data).unwrap();
    assert_eq!(view.sdp_text_str(), Some("v=0"));
}

#[test]
fn sdp_roundtrip() {
    let data = make_sdp();
    let view = SDPBoxView::new(&data).unwrap();
    let owned = SDPBoxOwned::try_from(&view).unwrap();

    let mut output = Vec::new();
    owned.write_to(&mut output).unwrap();

    assert_eq!(data, output);
}
