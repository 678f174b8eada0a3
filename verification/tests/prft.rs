use isobmff_syntax::boxes::prft::{ProducerReferenceTimeBox, ProducerReferenceTimeBoxView, ProducerReferenceTimeBoxOwned};

fn make_prft_v0() -> Vec<u8> {
    let mut data = Vec::new();
    data.extend_from_slice(&28u32.to_be_bytes()); // size
    data.extend_from_slice(b"prft");
    data.push(0); // version
    data.extend_from_slice(&[0, 0, 0]); // flags
    data.extend_from_slice(&1u32.to_be_bytes()); // reference_track_id
    data.extend_from_slice(&0x12345678_9ABCDEF0u64.to_be_bytes()); // ntp_timestamp
    data.extend_from_slice(&1000u32.to_be_bytes()); // media_time
    data
}

#[test]
fn parse_prft_v0() {
    let data = make_prft_v0();
    let view = ProducerReferenceTimeBoxView::new(&data).unwrap();

    assert_eq!(view.version(), 0);
    assert_eq!(view.reference_track_id(), 1);
    assert_eq!(view.ntp_timestamp(), 0x12345678_9ABCDEF0);
    assert_eq!(view.media_time(), 1000);
}

#[test]
fn prft_roundtrip_v0() {
    let data = make_prft_v0();
    let view = ProducerReferenceTimeBoxView::new(&data).unwrap();
    let owned = ProducerReferenceTimeBoxOwned::from(&view);

    let mut output = Vec::new();
    owned.write_to(&mut output).unwrap();

    assert_eq!(data, output);
}
