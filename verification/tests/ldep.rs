use isobmff_syntax::boxes::ldep::{TierDependencyBox, TierDependencyBoxOwned, TierDependencyBoxView};

fn make_ldep() -> Vec<u8> {
    let mut data = Vec::new();
    data.extend_from_slice(&14u32.to_be_bytes()); // size = 8 + 2 + 4
    data.extend_from_slice(b"ldep");
    data.extend_from_slice(&2u16.to_be_bytes()); // numTierDependencies
    data.extend_from_slice(&100u16.to_be_bytes()); // dependency_tier_id[0]
    data.extend_from_slice(&200u16.to_be_bytes()); // dependency_tier_id[1]
    data
}

#[test]
fn parse_ldep() {
    let data = make_ldep();
    let view = TierDependencyBoxView::new(&data).unwrap();
    assert_eq!(view.num_tier_dependencies(), 2);
    assert_eq!(view.dependency_tier_id(0), Some(100));
    assert_eq!(view.dependency_tier_id(1), Some(200));
    assert_eq!(view.dependency_tier_id(2), None);
}

#[test]
fn ldep_roundtrip() {
    let data = make_ldep();
    let view = TierDependencyBoxView::new(&data).unwrap();
    let owned = TierDependencyBoxOwned::from(&view);
    let mut output = Vec::new();
    owned.write_to(&mut output).unwrap();
    assert_eq!(data, output);
}
