use isobmff_syntax::boxes::mehd::{MovieExtendsHeaderBox, MovieExtendsHeaderBoxView, MovieExtendsHeaderBoxOwned};

fn make_mehd_v0(duration: u32) -> Vec<u8> {
    let mut data = Vec::new();
    data.extend_from_slice(&16u32.to_be_bytes());
    data.extend_from_slice(b"mehd");
    data.push(0);
    data.extend_from_slice(&[0, 0, 0]);
    data.extend_from_slice(&duration.to_be_bytes());
    data
}

fn make_mehd_v1(duration: u64) -> Vec<u8> {
    let mut data = Vec::new();
    data.extend_from_slice(&20u32.to_be_bytes());
    data.extend_from_slice(b"mehd");
    data.push(1);
    data.extend_from_slice(&[0, 0, 0]);
    data.extend_from_slice(&duration.to_be_bytes());
    data
}

#[test]
fn parse_mehd_v0() {
    let data = make_mehd_v0(10000);
    let view = MovieExtendsHeaderBoxView::new(&data).unwrap();

    assert_eq!(view.version(), 0);
    assert_eq!(view.fragment_duration(), 10000);
}

#[test]
fn parse_mehd_v1() {
    let data = make_mehd_v1(5_000_000_000);
    let view = MovieExtendsHeaderBoxView::new(&data).unwrap();

    assert_eq!(view.version(), 1);
    assert_eq!(view.fragment_duration(), 5_000_000_000);
}

#[test]
fn mehd_roundtrip_v0() {
    let data = make_mehd_v0(20000);
    let view = MovieExtendsHeaderBoxView::new(&data).unwrap();
    let owned = MovieExtendsHeaderBoxOwned::from(&view);

    let mut output = Vec::new();
    owned.write_to(&mut output).unwrap();

    assert_eq!(data, output);
}

#[test]
fn mehd_roundtrip_v1() {
    let data = make_mehd_v1(10_000_000_000);
    let view = MovieExtendsHeaderBoxView::new(&data).unwrap();
    let owned = MovieExtendsHeaderBoxOwned::from(&view);

    let mut output = Vec::new();
    owned.write_to(&mut output).unwrap();

    assert_eq!(data, output);
}
