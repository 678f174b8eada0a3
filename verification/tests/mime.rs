use isobmff_syntax::boxes::mime::{MIMEBox, MIMEBoxOwned, MIMEBoxView};

fn make_mime() -> Vec<u8> {
    let mut data = Vec::new();
    let content_type = b"text/plain";
    data.extend_from_slice(&(8 + 4 + content_type.len() as u32 + 1).to_be_bytes());
    data.extend_from_slice(b"mime");
    data.push(0); // version
    data.extend_from_slice(&[0, 0, 0]); // flags
    data.extend_from_slice(content_type);
    data.push(0); // null terminator
    data
}

#[test]
fn parse_mime() {
    let data = make_mime();
    let view = MIMEBoxView::new(&data).unwrap();
    assert_eq!(view.content_type_str(), Some("text/plain"));
}

#[test]
fn mime_roundtrip() {
    let data = make_mime();
    let view = MIMEBoxView::new(&data).unwrap();
    let owned = MIMEBoxOwned::try_from(&view).unwrap();

    let mut output = Vec::new();
    owned.write_to(&mut output).unwrap();

    assert_eq!(data, output);
}
