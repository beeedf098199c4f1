use user_api::json::decode_user;
use user_api::json::encode_user;
use user_api::user::User;

fn user(name: &str, email: &str) -> User {
    User { name: name.to_string(), email: email.to_string() }
}

#[test]
fn encode_simple_user() {
    let u = user("ana", "ana@x.io");
    assert_eq!(encode_user(&u), "{\"name\":\"ana\",\"email\":\"ana@x.io\"}");
}

#[test]
fn encode_escapes_specials() {
    let u = user("a\"b\\c", "tab\there\nand\r");
    assert_eq!(
        encode_user(&u),
        "{\"name\":\"a\\\"b\\\\c\",\"email\":\"tab\\there\\nand\\r\"}"
    );
}

#[test]
fn decode_simple_object() {
    let u = decode_user("{\"name\":\"ana\",\"email\":\"ana@x.io\"}").unwrap();
    assert_eq!(u.name, "ana");
    assert_eq!(u.email, "ana@x.io");
}

#[test]
fn decode_fields_in_either_order() {
    let u = decode_user("{\"email\":\"e@x\",\"name\":\"n\"}").unwrap();
    assert_eq!(u.name, "n");
    assert_eq!(u.email, "e@x");
}

#[test]
fn decode_tolerates_whitespace() {
    let u = decode_user("  {\n\t\"name\" : \"n\" ,\r\n \"email\" : \"e\" }  ").unwrap();
    assert_eq!(u.name, "n");
    assert_eq!(u.email, "e");
}

#[test]
fn decode_unescapes_specials() {
    let u = decode_user("{\"name\":\"a\\\"b\\\\c\\/d\",\"email\":\"x\\ny\\tz\\r\\b\\f\"}")
        .unwrap();
    assert_eq!(u.name, "a\"b\\c/d");
    assert_eq!(u.email, "x\ny\tz\r\u{8}\u{c}");
}

#[test]
fn decode_rejects_missing_email() {
    assert!(decode_user("{\"name\":\"ana\"}").is_none());
}

#[test]
fn decode_rejects_missing_name() {
    assert!(decode_user("{\"email\":\"ana@x.io\"}").is_none());
}

#[test]
fn decode_rejects_empty_object() {
    assert!(decode_user("{}").is_none());
}

#[test]
fn decode_rejects_extra_member() {
    assert!(decode_user("{\"name\":\"a\",\"email\":\"b\",\"age\":\"3\"}").is_none());
}

#[test]
fn decode_rejects_unknown_member() {
    assert!(decode_user("{\"name\":\"a\",\"age\":\"b\"}").is_none());
}

#[test]
fn decode_rejects_duplicate_member() {
    assert!(decode_user("{\"name\":\"a\",\"name\":\"b\"}").is_none());
}

#[test]
fn decode_rejects_non_string_value() {
    assert!(decode_user("{\"name\":\"a\",\"email\":3}").is_none());
}

#[test]
fn decode_rejects_malformed_json() {
    assert!(decode_user("").is_none());
    assert!(decode_user("not json").is_none());
    assert!(decode_user("{\"name\":\"a\",\"email\":\"b\"").is_none());
    assert!(decode_user("{\"name\":\"a\",\"email\":\"b\"} trailing").is_none());
    assert!(decode_user("[\"name\",\"email\"]").is_none());
}

#[test]
fn decode_rejects_unknown_escape_and_raw_control() {
    assert!(decode_user("{\"name\":\"a\\x41\",\"email\":\"b\"}").is_none());
    assert!(decode_user("{\"name\":\"a\nb\",\"email\":\"b\"}").is_none());
}

#[test]
fn decode_reads_hex_escapes() {
    let u = decode_user("{\"name\":\"Jos\\u00e9\",\"email\":\"x\"}").unwrap();
    assert_eq!(u.name, "Jos\u{e9}");
    assert_eq!(u.email, "x");
    let u = decode_user("{\"name\":\"\\u0041\\u004a\\u004B\",\"email\":\"\\u0001\"}").unwrap();
    assert_eq!(u.name, "AJK");
    assert_eq!(u.email, "\u{1}");
}

#[test]
fn decode_reads_surrogate_pairs() {
    let u = decode_user("{\"name\":\"\\uD83D\\uDE00\",\"email\":\"\\ud83d\\ude00!\"}").unwrap();
    assert_eq!(u.name, "\u{1F600}");
    assert_eq!(u.email, "\u{1F600}!");
}

#[test]
fn decode_rejects_bad_hex_escapes() {
    assert!(decode_user("{\"name\":\"\\u00G1\",\"email\":\"b\"}").is_none());
    assert!(decode_user("{\"name\":\"\\u00\",\"email\":\"b\"}").is_none());
    assert!(decode_user("{\"name\":\"\\uD800\",\"email\":\"b\"}").is_none());
    assert!(decode_user("{\"name\":\"\\uD800x\",\"email\":\"b\"}").is_none());
    assert!(decode_user("{\"name\":\"\\uD800\\u0041\",\"email\":\"b\"}").is_none());
    assert!(decode_user("{\"name\":\"\\uDC00\",\"email\":\"b\"}").is_none());
}

#[test]
fn encode_emits_hex_escapes_for_bare_controls() {
    let u = user("a\u{1}b", "\u{0}\u{1f}");
    assert_eq!(
        encode_user(&u),
        "{\"name\":\"a\\u0001b\",\"email\":\"\\u0000\\u001f\"}"
    );
}

#[test]
fn round_trip_survives_decode_of_encode() {
    let cases = [
        ("ana", "ana@x.io"),
        ("", ""),
        ("quote\" back\\ slash/ tab\t", "nl\n cr\r b\u{8} f\u{c}"),
        ("unicode \u{e9}\u{4e16}\u{754c}", "mixed \u{263a} text"),
        ("controls \u{0}\u{1}\u{1f}", "astral \u{1F600}\u{10FFFF}"),
    ];
    for (name, email) in cases {
        let encoded = encode_user(&user(name, email));
        let back = decode_user(&encoded).unwrap();
        assert_eq!(back.name, name);
        assert_eq!(back.email, email);
    }
}
