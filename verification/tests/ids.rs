use listening_rooms::ids::{parse_uuid, Uuid};

const BITS: u128 = 0x550e8400e29b41d4a716446655440000;

fn read(text: &str) -> Option<u128> {
    parse_uuid(text).ok().map(|id| id.bits)
}

fn refusal(text: &str) -> String {
    match parse_uuid(text) {
        Ok(_) => panic!("accepted"),
        Err(e) => e.message,
    }
}

#[test]
fn reads_bare_digits_of_either_case() {
    assert_eq!(read("550e8400e29b41d4a716446655440000"), Some(BITS));
    assert_eq!(read("550E8400E29B41D4A716446655440000"), Some(BITS));
    assert_eq!(read("00000000000000000000000000000000"), Some(0));
    assert_eq!(read("ffffffffffffffffffffffffffffffff"), Some(u128::MAX));
}

#[test]
fn reads_grouped_digits() {
    assert_eq!(read("550e8400-e29b-41d4-a716-446655440000"), Some(BITS));
    assert_eq!(read("{550e8400-e29b-41d4-a716-446655440000}"), Some(BITS));
    assert_eq!(read("urn:uuid:550e8400-e29b-41d4-a716-446655440000"), Some(BITS));
    assert_eq!(read("Urn:uUiD:550E8400-e29b-41D4-a716-446655440000"), Some(BITS));
    assert_eq!(read("URN:UUID:550e8400-e29b-41d4-a716-446655440000"), Some(BITS));
}

#[test]
fn refuses_other_texts() {
    assert_eq!(read(""), None);
    assert_eq!(read("550e8400"), None);
    assert_eq!(read("550e8400-e29b-41d4-a716-44665544000g"), None);
    assert_eq!(read("550e8400e-29b-41d4-a716-446655440000"), None);
    assert_eq!(read("{550e8400e29b41d4a716446655440000}"), None);
    assert_eq!(read("(550e8400-e29b-41d4-a716-446655440000)"), None);
    assert_eq!(read("uri:uuid:550e8400-e29b-41d4-a716-446655440000"), None);
    assert_eq!(read("550e8400e29b41d4a7164466554400\u{e9}"), None);
    assert_eq!(read("urn:uui\u{e9}550e8400-e29b-41d4-a716-446655440000"), None);
}

#[test]
fn a_refusal_says_why() {
    assert_eq!(refusal(""), "invalid length: found 0");
    assert_eq!(
        refusal("550e8400-e29b-41d4-a716-44665544000g"),
        "invalid character: found `g` at 35"
    );
}

#[test]
fn text_is_grouped_and_in_lower_case() {
    assert_eq!(Uuid { bits: BITS }.to_text(), "550e8400-e29b-41d4-a716-446655440000");
    assert_eq!(
        Uuid { bits: 0xABCDEF }.to_text(),
        "00000000-0000-0000-0000-000000abcdef"
    );
}

#[test]
fn text_is_read_back() {
    for bits in [0, 1, BITS, u128::MAX, u128::MAX / 3] {
        assert_eq!(read(&Uuid { bits }.to_text()), Some(bits));
    }
}
