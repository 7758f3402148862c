use tiny_clean::xml_encoder::{XmlEncoder, XmlEncoderMode};

fn generic_tests(encoder: &XmlEncoder) {
    assert_eq!("\u{fffd}", encoder.encode("\u{fffd}"));
    assert_eq!(" ", encoder.encode("\u{ffff}"));
}

#[test]
fn test_all_encode() {
    let encoder = XmlEncoder::new(XmlEncoderMode::All);
    assert_eq!("&amp;", encoder.encode("&"));
    assert_eq!("&gt;", encoder.encode(">"));
    assert_eq!("&lt;", encoder.encode("<"));
    assert_eq!("&#39;", encoder.encode("\'"));
    assert_eq!("&#34;", encoder.encode("\""));
    generic_tests(&encoder);
}

#[test]
fn test_content_encode() {
    let encoder = XmlEncoder::new(XmlEncoderMode::Content);
    assert_eq!("&amp;", encoder.encode("&"));
    assert_eq!("&gt;", encoder.encode(">"));
    assert_eq!("&lt;", encoder.encode("<"));
    assert_eq!("\'", encoder.encode("\'"));
    assert_eq!("\"", encoder.encode("\""));
    generic_tests(&encoder);
}

#[test]
fn test_attribute_encode() {
    let encoder = XmlEncoder::new(XmlEncoderMode::Attribute);
    assert_eq!("&amp;", encoder.encode("&"));
    assert_eq!(">", encoder.encode(">"));
    assert_eq!("&lt;", encoder.encode("<"));
    assert_eq!("&#39;", encoder.encode("\'"));
    assert_eq!("&#34;", encoder.encode("\""));
    generic_tests(&encoder);
}

#[test]
fn test_single_quoted_encode() {
    let encoder = XmlEncoder::new(XmlEncoderMode::SingleQuotedAttribute);
    assert_eq!("&amp;", encoder.encode("&"));
    assert_eq!(">", encoder.encode(">"));
    assert_eq!("&lt;", encoder.encode("<"));
    assert_eq!("&#39;", encoder.encode("\'"));

    assert_eq!("\"", encoder.encode("\""));

    generic_tests(&encoder);
}

#[test]
fn test_double_quoted_encode() {
    let encoder = XmlEncoder::new(XmlEncoderMode::DoubleQuotedAttribute);
    assert_eq!("&amp;", encoder.encode("&"));
    assert_eq!(">", encoder.encode(">"));
    assert_eq!("&lt;", encoder.encode("<"));
    assert_eq!("&#34;", encoder.encode("\""));
    assert_eq!("\'", encoder.encode("\'"));

    generic_tests(&encoder);
}
