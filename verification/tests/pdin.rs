use isobmff_syntax::boxes::pdin::{ProgressiveDownloadEntry, ProgressiveDownloadInfoBox, ProgressiveDownloadInfoBoxOwned, ProgressiveDownloadInfoBoxView};

fn make_pdin() -> Vec<u8> {
    let mut data = Vec::new();
    // 8 + 4 + 8 = 20 bytes
    data.extend_from_slice(&20u32.to_be_bytes());
    data.extend_from_slice(b"pdin");
    data.push(0); // version
    data.extend_from_slice(&[0, 0, 0]); // flags
    data.extend_from_slice(&1000u32.to_be_bytes()); // rate
    data.extend_from_slice(&500u32.to_be_bytes()); // initial_delay
    data
}

#[test]
fn parse_pdin() {
    let data = make_pdin();
    let view = ProgressiveDownloadInfoBoxView::new(&data).unwrap();

    assert_eq!(view.entry_count(), 1);
    let entry = view.entry(0).unwrap();
    assert_eq!(entry.rate, 1000);
    assert_eq!(entry.initial_delay, 500);
}

#[test]
fn pdin_roundtrip() {
    let data = make_pdin();
    let view = ProgressiveDownloadInfoBoxView::new(&data).unwrap();
    let owned = ProgressiveDownloadInfoBoxOwned::from(&view);

    let mut output = Vec::new();
    owned.write_to(&mut output).unwrap();

    assert_eq!(data, output);
}
