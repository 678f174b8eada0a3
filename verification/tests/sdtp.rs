use isobmff_syntax::boxes::sdtp::{SampleDependencyFlags, SampleDependencyTypeBox, SampleDependencyTypeBoxOwned, SampleDependencyTypeBoxView};

fn make_sdtp() -> Vec<u8> {
    let mut data = Vec::new();
    data.extend_from_slice(&14u32.to_be_bytes()); // size = 8 + 4 + 2
    data.extend_from_slice(b"sdtp");
    data.push(0); // version
    data.extend_from_slice(&[0, 0, 0]); // flags

    // Sample 0: is_leading=0, depends_on=2, depended_on=0, redundancy=0 = 0x20
    data.push(0x20);
    // Sample 1: is_leading=0, depends_on=0, depended_on=0, redundancy=0 = 0x00
    data.push(0x00);

    data
}

#[test]
fn parse_sdtp() {
    let data = make_sdtp();
    let view = SampleDependencyTypeBoxView::new(&data).unwrap();

    assert_eq!(view.sample_count(), 2);

    let flags0 = view.sample_flags(0).unwrap();
    assert_eq!(flags0.is_leading(), 0);
    assert_eq!(flags0.sample_depends_on(), 2);
    assert_eq!(flags0.sample_is_depended_on(), 0);
    assert_eq!(flags0.sample_has_redundancy(), 0);

    let flags1 = view.sample_flags(1).unwrap();
    assert_eq!(flags1.sample_depends_on(), 0);
}

#[test]
fn sdtp_roundtrip() {
    let data = make_sdtp();
    let view = SampleDependencyTypeBoxView::new(&data).unwrap();
    let owned = SampleDependencyTypeBoxOwned::from(&view);

    let mut output = Vec::new();
    owned.write_to(&mut output).unwrap();

    assert_eq!(data, output);
}

#[test]
fn flags_encoding() {
    let flags = SampleDependencyFlags::new(1, 2, 1, 3);

    let byte = flags.to_byte();
    let decoded = SampleDependencyFlags::from_byte(byte);

    assert_eq!(flags, decoded);
}
