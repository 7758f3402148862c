use tiny_clean::uri_encoder::{UriEncoder, UriEncoderMode};

fn shared_test_cases(encoder: &UriEncoder) {
    assert_eq!("abcABC123", encoder.encode("abcABC123"));
    assert_eq!("%20", encoder.encode(" "));
    assert_eq!("%22", encoder.encode("\""));
    assert_eq!("%25", encoder.encode("%"));
    assert_eq!("%3C", encoder.encode("<"));
    assert_eq!("%3E", encoder.encode(">"));
    assert_eq!("%5C", encoder.encode("\\"));
    assert_eq!("%5E", encoder.encode("^"));
    assert_eq!("%60", encoder.encode("`"));
    assert_eq!("%7B", encoder.encode("{"));
    assert_eq!("%7C", encoder.encode("|"));
    assert_eq!("%7D", encoder.encode("}"));
    assert_eq!("%C2%A0", encoder.encode("\u{00a0}"));
    assert_eq!("%E0%A0%80", encoder.encode("\u{0800}"));
}

#[test]
fn test_component_encode() {
    let encoder = UriEncoder::new(UriEncoderMode::Component);
    assert_eq!("%3A", encoder.encode(":"));
    assert_eq!("%2F", encoder.encode("/"));
    assert_eq!("%3F", encoder.encode("?"));
    assert_eq!("%23", encoder.encode("#"));
    assert_eq!("%5B", encoder.encode("["));
    assert_eq!("%5D", encoder.encode("]"));
    assert_eq!("%40", encoder.encode("@"));
    assert_eq!("%21", encoder.encode("!"));
    assert_eq!("%24", encoder.encode("$"));
    assert_eq!("%26", encoder.encode("&"));
    assert_eq!("%27", encoder.encode("'"));
    assert_eq!("%28", encoder.encode("("));
    assert_eq!("%29", encoder.encode(")"));
    assert_eq!("%2A", encoder.encode("*"));
    assert_eq!("%2B", encoder.encode("+"));
    assert_eq!("%2C", encoder.encode(","));
    assert_eq!("%3B", encoder.encode(";"));
    assert_eq!("%3D", encoder.encode("="));
    shared_test_cases(&encoder);
}

#[test]
fn test_full_uri_encode() {
    let encoder = UriEncoder::new(UriEncoderMode::FullUri);
    assert_eq!(
        "http://www.owasp.org/index.php?foo=bar&baz#fragment",
        encoder.encode("http://www.owasp.org/index.php?foo=bar&baz#fragment")
    );
    shared_test_cases(&encoder);
}
