use isobmff_syntax::boxes::senc::{SampleEncryptionBox, SampleEncryptionBoxOwned, SampleEncryptionBoxView};

fn make_senc() -> Vec<u8> {
    let mut data = Vec::new();
    data.extend_from_slice(&16u32.to_be_bytes()); // 8 + 4 + 4
    data.extend_from_slice(b"senc");
    data.push(0); // version
    data.extend_from_slice(&[0, 0, 0]); // flags
    data.extend_from_slice(&0u32.to_be_bytes()); // sample_count
    data
}

fn make_senc_with_samples() -> Vec<u8> {
    let mut data = Vec::new();
    // 8 (header) + 4 (version/flags) + 4 (sample_count) + 8 (IV) = 24
    data.extend_from_slice(&24u32.to_be_bytes());
    data.extend_from_slice(b"senc");
    data.push(0); // version
    data.extend_from_slice(&[0, 0, 0]); // flags (no subsamples)
    data.extend_from_slice(&1u32.to_be_bytes()); // sample_count = 1
    data.extend_from_slice(&[1, 2, 3, 4, 5, 6, 7, 8]); // 8-byte IV
    data
}

fn make_senc_with_subsamples() -> Vec<u8> {
    let mut data = Vec::new();
    // 8 + 4 + 4 + 8 + 2 + 6 = 32
    data.extend_from_slice(&32u32.to_be_bytes());
    data.extend_from_slice(b"senc");
    data.push(0); // version
    data.extend_from_slice(&[0, 0, 2]); // flags = subsample encryption
    data.extend_from_slice(&1u32.to_be_bytes()); // sample_count = 1
    data.extend_from_slice(&[1, 2, 3, 4, 5, 6, 7, 8]); // 8-byte IV
    data.extend_from_slice(&1u16.to_be_bytes()); // subsample_count = 1
    data.extend_from_slice(&100u16.to_be_bytes()); // BytesOfClearData
    data.extend_from_slice(&200u32.to_be_bytes()); // BytesOfProtectedData
    data
}

#[test]
fn parse_senc() {
    let data = make_senc();
    let view = SampleEncryptionBoxView::new(&data).unwrap();
    assert_eq!(view.sample_count(), 0);
    assert!(!view.uses_subsample_encryption());
}

#[test]
fn parse_samples() {
    let data = make_senc_with_samples();
    let view = SampleEncryptionBoxView::new(&data).unwrap();
    let entries: Vec<_> = view.samples(8).into_iter().collect::<Result<_, _>>().unwrap();
    assert_eq!(entries.len(), 1);
    assert_eq!(entries[0].iv(), &[1, 2, 3, 4, 5, 6, 7, 8]);
    assert_eq!(entries[0].subsamples().len(), 0);
}

#[test]
fn parse_samples_with_subsamples() {
    let data = make_senc_with_subsamples();
    let view = SampleEncryptionBoxView::new(&data).unwrap();
    assert!(view.uses_subsample_encryption());
    let entries: Vec<_> = view.samples(8).into_iter().collect::<Result<_, _>>().unwrap();
    assert_eq!(entries.len(), 1);
    assert_eq!(entries[0].iv(), &[1, 2, 3, 4, 5, 6, 7, 8]);
    let subs: Vec<_> = entries[0].subsamples();
    assert_eq!(subs.len(), 1);
    assert_eq!(subs[0].bytes_of_clear_data, 100);
    assert_eq!(subs[0].bytes_of_protected_data, 200);
}

#[test]
fn roundtrip_empty() {
    let data = make_senc();
    let view = SampleEncryptionBoxView::new(&data).unwrap();
    let owned = SampleEncryptionBoxOwned::from_view(&view, 8).unwrap();

    let mut output = Vec::new();
    owned.write_to(&mut output, 8).unwrap();

    assert_eq!(data, output);
}

#[test]
fn roundtrip_with_samples() {
    let data = make_senc_with_samples();
    let view = SampleEncryptionBoxView::new(&data).unwrap();
    let owned = SampleEncryptionBoxOwned::from_view(&view, 8).unwrap();

    let mut output = Vec::new();
    owned.write_to(&mut output, 8).unwrap();

    assert_eq!(data, output);
}

#[test]
fn roundtrip_with_subsamples() {
    let data = make_senc_with_subsamples();
    let view = SampleEncryptionBoxView::new(&data).unwrap();
    let owned = SampleEncryptionBoxOwned::from_view(&view, 8).unwrap();

    let mut output = Vec::new();
    owned.write_to(&mut output, 8).unwrap();

    assert_eq!(data, output);
}
