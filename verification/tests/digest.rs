use rust_file_filter::digest::{Digest, DIGEST_LEN};

fn filled(byte: u8) -> Digest {
    Digest::new([byte; 32])
}

#[test]
fn digest_of_empty_content() {
    assert_eq!(
        Digest::of(b"").to_hex(),
        "e3b0c44298fc1c149afbf4c8996fb92427ae41e4649b934ca495991b7852b855"
    );
}

#[test]
fn digest_of_short_contents() {
    assert_eq!(
        Digest::of(b"hi").to_hex(),
        "8f434346648f6b96df89dda901c5176b10a6d83961dd3c1ac88b59b2dc327aa4"
    );
    assert_eq!(
        Digest::of(b"bye").to_hex(),
        "b49f425a7e1f9cff3856329ada223f2f9d368f15a00cf48df16ca95986137fe8"
    );
    assert_eq!(
        Digest::of(b"abc").to_hex(),
        "ba7816bf8f01cfea414140de5dae2223b00361a396177a9cb410ff61f20015ad"
    );
}

#[test]
fn digest_differs_from_its_input() {
    let content = [7u8; 32];
    assert_ne!(Digest::of(&content).bytes(), content);
}

#[test]
fn equal_contents_have_equal_digests() {
    let first = Digest::of(b"the same bytes");
    let second = Digest::of(b"the same bytes");
    assert!(first.same(&second));
    assert_eq!(first, second);
    assert!(!first.same(&Digest::of(b"other bytes")));
}

#[test]
fn digest_has_thirty_two_bytes() {
    assert_eq!(DIGEST_LEN, 32);
    assert_eq!(Digest::of(b"hi").bytes().len(), 32);
}

#[test]
fn hex_is_lowercase_two_digits_per_byte() {
    let mut bytes = [0u8; 32];
    bytes[0] = 0x01;
    bytes[1] = 0x0f;
    bytes[2] = 0x10;
    bytes[3] = 0xab;
    bytes[31] = 0xff;
    let hex = Digest::new(bytes).to_hex();
    assert_eq!(hex.len(), 64);
    assert_eq!(
        hex,
        "010f10ab000000000000000000000000000000000000000000000000000000ff"
    );
}

#[test]
fn precedes_is_decided_by_first_difference() {
    let mut low = [5u8; 32];
    let mut high = [5u8; 32];
    low[3] = 1;
    high[3] = 2;
    low[4] = 200;
    high[4] = 0;
    assert!(Digest::new(low).precedes(&Digest::new(high)));
    assert!(!Digest::new(high).precedes(&Digest::new(low)));
}

#[test]
fn precedes_compares_bytes_as_unsigned() {
    assert!(filled(0x7f).precedes(&filled(0x80)));
    assert!(filled(0x00).precedes(&filled(0xff)));
    assert!(!filled(0xff).precedes(&filled(0x00)));
}

#[test]
fn precedes_sees_a_difference_in_the_last_byte() {
    let mut low = [9u8; 32];
    let high = [9u8; 32];
    low[31] = 8;
    assert!(Digest::new(low).precedes(&Digest::new(high)));
    assert!(!Digest::new(high).precedes(&Digest::new(low)));
    assert!(!Digest::new(low).same(&Digest::new(high)));
}

#[test]
fn no_digest_precedes_itself() {
    let digest = Digest::of(b"hi");
    assert!(!digest.precedes(&digest));
    assert!(digest.same(&digest));
}

#[test]
fn precedes_agrees_with_slice_order() {
    let digests = [
        Digest::of(b"a"),
        Digest::of(b"b"),
        Digest::of(b"c"),
        Digest::of(b"d"),
        filled(0),
        filled(255),
    ];
    for x in digests.iter() {
        for y in digests.iter() {
            assert_eq!(x.precedes(y), x.bytes()[..] < y.bytes()[..]);
            assert_eq!(x.same(y), x.bytes()[..] == y.bytes()[..]);
        }
    }
}
