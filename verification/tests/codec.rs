use rbgg::codec::decode;
use rbgg::codec::encode;

#[test]
fn encodes_like_the_reference() {
    let cases = [
        "hello world",
        "key=",
        "a&b",
        "100%",
        "\u{fc}n\u{ef}c\u{f4}de \u{1f3b2}",
        "-._~ok",
        "",
        "this is a search",
    ];
    for c in cases {
        assert_eq!(encode(c), urlencoding::encode(c).into_owned());
    }
}

#[test]
fn encodes_space_and_reserved() {
    assert_eq!(encode("a b"), "a%20b");
    assert_eq!(encode("key="), "key%3D");
    assert_eq!(encode("a/b?c"), "a%2Fb%3Fc");
    assert_eq!(encode("a&b"), "a%26b");
}

#[test]
fn decode_inverts_encode() {
    let cases = ["", "plain", "with space", "sym&=?/%", "\u{e9}t\u{e9} \u{1f3b2}"];
    for c in cases {
        assert_eq!(decode(&encode(c)).expect("an encoded string decodes"), c);
    }
}

#[test]
fn decode_accepts_either_hex_case() {
    assert_eq!(decode("%41").unwrap(), "A");
    assert_eq!(decode("%2f%2F").unwrap(), "//");
}

#[test]
fn decode_rejects_malformed() {
    assert!(decode("abc%2").is_none());
    assert!(decode("%GG").is_none());
    assert!(decode("%").is_none());
    // a lone continuation byte is not valid UTF-8
    assert!(decode("%C3").is_none());
    // non-ASCII input is not an encoder output
    assert!(decode("\u{fc}").is_none());
}
