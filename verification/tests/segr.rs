use isobmff_syntax::boxes::segr::{FDSessionGroupBox, FDSessionGroupBoxOwned, FDSessionGroupBoxView, SessionGroupEntry};

fn make_segr() -> Vec<u8> {
    let mut data = Vec::new();
    // 8 + 2 = 10 bytes (empty, no session groups)
    data.extend_from_slice(&10u32.to_be_bytes());
    data.extend_from_slice(b"segr");
    data.extend_from_slice(&0u16.to_be_bytes()); // num_session_groups
    data
}

fn make_segr_with_entries() -> Vec<u8> {
    let mut data = Vec::new();
    // 8 + 2 + (1 + 4 + 2 + 4) = 21 bytes
    data.extend_from_slice(&21u32.to_be_bytes());
    data.extend_from_slice(b"segr");
    data.extend_from_slice(&1u16.to_be_bytes()); // num_session_groups = 1
    data.push(1); // entry_count = 1
    data.extend_from_slice(&42u32.to_be_bytes()); // group_ID
    data.extend_from_slice(&1u16.to_be_bytes()); // num_channels_in_session_group = 1
    data.extend_from_slice(&99u32.to_be_bytes()); // hint_track_ID
    data
}

#[test]
fn parse_segr() {
    let data = make_segr();
    let view = FDSessionGroupBoxView::new(&data).unwrap();
    assert_eq!(view.num_session_groups(), 0);
}

#[test]
fn segr_roundtrip() {
    let data = make_segr();
    let view = FDSessionGroupBoxView::new(&data).unwrap();
    let owned = FDSessionGroupBoxOwned::from(&view);

    let mut output = Vec::new();
    owned.write_to(&mut output).unwrap();

    assert_eq!(data, output);
}

#[test]
fn parse_segr_with_entries() {
    let data = make_segr_with_entries();
    let view = FDSessionGroupBoxView::new(&data).unwrap();
    assert_eq!(view.num_session_groups(), 1);
    let groups = view.session_groups();
    assert_eq!(groups.len(), 1);
    assert_eq!(groups[0].entry_ids, vec![42]);
    assert_eq!(groups[0].hint_track_ids, vec![99]);
}

#[test]
fn roundtrip_with_entries() {
    let data = make_segr_with_entries();
    let view = FDSessionGroupBoxView::new(&data).unwrap();
    let owned = FDSessionGroupBoxOwned::from(&view);

    let mut output = Vec::new();
    owned.write_to(&mut output).unwrap();

    assert_eq!(data, output);
}
