use isobmff_syntax::boxes::pssh::{ProtectionSystemSpecificHeaderBox, ProtectionSystemSpecificHeaderBoxOwned, ProtectionSystemSpecificHeaderBoxView};
use isobmff_syntax::error::ParseError;

fn make_pssh_v0() -> Vec<u8> {
    let mut data = Vec::new();
    data.extend_from_slice(&32u32.to_be_bytes()); // 8 + 4 + 16 + 4
    data.extend_from_slice(b"pssh");
    data.push(0); // version
    data.extend_from_slice(&[0, 0, 0]); // flags
    data.extend_from_slice(&[0u8; 16]); // system_id
    data.extend_from_slice(&0u32.to_be_bytes()); // data_size
    data
}

fn make_pssh_v1(kids: &[[u8; 16]], pssh_data: &[u8]) -> Vec<u8> {
    let mut payload = Vec::new();
    payload.extend_from_slice(&[0u8; 16]); // system_id
    payload.extend_from_slice(&(kids.len() as u32).to_be_bytes());
    for kid in kids {
        payload.extend_from_slice(kid);
    }
    payload.extend_from_slice(&(pssh_data.len() as u32).to_be_bytes());
    payload.extend_from_slice(pssh_data);

    let mut data = Vec::new();
    data.extend_from_slice(&(12 + payload.len() as u32).to_be_bytes());
    data.extend_from_slice(b"pssh");
    data.push(1); // version
    data.extend_from_slice(&[0, 0, 0]); // flags
    data.extend_from_slice(&payload);
    data
}

#[test]
fn parse_pssh_v0() {
    let data = make_pssh_v0();
    let view = ProtectionSystemSpecificHeaderBoxView::new(&data).unwrap();
    assert_eq!(view.version(), 0);
    assert_eq!(view.kid_count(), 0);
    assert_eq!(view.key_ids().len(), 0);
    assert_eq!(ProtectionSystemSpecificHeaderBox::key_id(&view, 0), None);
}

#[test]
fn pssh_roundtrip_v0() {
    let data = make_pssh_v0();
    let view = ProtectionSystemSpecificHeaderBoxView::new(&data).unwrap();
    let owned = ProtectionSystemSpecificHeaderBoxOwned::from(&view);

    let mut output = Vec::new();
    owned.write_to(&mut output).unwrap();

    assert_eq!(data, output);
}

#[test]
fn parse_pssh_v1_key_ids() {
    let kids = [[0xaa; 16], [0xbb; 16]];
    let data = make_pssh_v1(&kids, &[1, 2, 3]);
    let view = ProtectionSystemSpecificHeaderBoxView::new(&data).unwrap();

    assert_eq!(view.version(), 1);
    assert_eq!(view.kid_count(), 2);
    assert_eq!(view.key_ids(), kids);
    assert_eq!(
        ProtectionSystemSpecificHeaderBox::key_id(&view, 1),
        Some([0xbb; 16])
    );
    assert_eq!(ProtectionSystemSpecificHeaderBox::key_id(&view, 2), None);
    assert_eq!(view.pssh_data(), &[1, 2, 3]);
}

#[test]
fn pssh_roundtrip_v1() {
    let data = make_pssh_v1(&[[0xaa; 16], [0xbb; 16]], &[1, 2, 3]);
    let view = ProtectionSystemSpecificHeaderBoxView::new(&data).unwrap();
    let owned = ProtectionSystemSpecificHeaderBoxOwned::from(&view);

    let mut output = Vec::new();
    owned.write_to(&mut output).unwrap();

    assert_eq!(data, output);
}

#[test]
fn owned_ignores_key_ids_at_version_0() {
    let mut owned = ProtectionSystemSpecificHeaderBoxOwned::new([0u8; 16]);
    owned.key_ids.push([0xaa; 16]);

    assert_eq!(owned.kid_count(), 0);
    assert_eq!(owned.key_ids().len(), 0);
    assert_eq!(owned.box_size(), 32);
}

#[test]
fn reject_kid_count_exceeding_box() {
    let mut data = make_pssh_v1(&[[0xaa; 16]], &[]);
    // Claim 100 KIDs where only one is present.
    let kid_count_offset = 12 + 16;
    data[kid_count_offset..kid_count_offset + 4].copy_from_slice(&100u32.to_be_bytes());

    assert!(matches!(
        ProtectionSystemSpecificHeaderBoxView::new(&data),
        Err(ParseError::InvalidEntryCount { count: 100, .. })
    ));
}

#[test]
fn reject_data_size_exceeding_box() {
    let mut data = make_pssh_v1(&[[0xaa; 16]], &[1, 2, 3]);
    let data_size_offset = 12 + 16 + 4 + 16;
    data[data_size_offset..data_size_offset + 4].copy_from_slice(&99u32.to_be_bytes());

    assert!(matches!(
        ProtectionSystemSpecificHeaderBoxView::new(&data),
        Err(ParseError::BufferTooShort { .. })
    ));
}
