use tiny_clean::common::dump_classification;
use tiny_clean::encoder::{
    compile_encoder_rules, encode, Encoder, Rule, RuleType, ValidAsciiRange,
};
use tiny_clean::java_script_encoder::{
    JavaScriptEncoder, JavaScriptEncoderMode, JavaScriptEncoderSettings,
};
use tiny_clean::uri_encoder::{UriEncoder, UriEncoderMode};
use tiny_clean::xml_encoder::{XmlEncoder, XmlEncoderMode};

#[test]
fn range_rule_with_exclusions() {
    let rules = vec![Rule::Range {
        start_character: 'a',
        end_character: 'z',
        exclude: Some(vec!['e', 'i', 'o']),
        rule_type: RuleType::Sub("replacement"),
    }];
    let compiled = compile_encoder_rules(rules);
    let out = encode(&compiled, &ValidAsciiRange::NoRestrict, '\\', ' ', "ae");
    assert_eq!("replacemente", out);
    let out = encode(&compiled, &ValidAsciiRange::NoRestrict, '\\', ' ', "io");
    assert_eq!("io", out);
}

#[test]
fn invalidate_rule_uses_placeholder() {
    let rules = vec![Rule::Uni {
        ch: '!',
        rt: RuleType::Inv,
    }];
    let compiled = compile_encoder_rules(rules);
    let out = encode(&compiled, &ValidAsciiRange::NoRestrict, '\\', '#', "a!b");
    assert_eq!("a#b", out);
}

#[test]
fn escape_rule_above_byte_range() {
    let rules = vec![Rule::Uni {
        ch: '\u{0100}',
        rt: RuleType::Esc(false),
    }];
    let compiled = compile_encoder_rules(rules);
    let out = encode(&compiled, &ValidAsciiRange::NoRestrict, '\\', ' ', "\u{0100}");
    assert_eq!("\\u0100", out);
}

#[test]
fn policies_differ_without_rules() {
    let compiled = compile_encoder_rules(Vec::new());
    assert_eq!(
        "\\xe9",
        encode(&compiled, &ValidAsciiRange::ASCII, '\\', ' ', "\u{00e9}")
    );
    assert_eq!(
        "\u{00e9}",
        encode(&compiled, &ValidAsciiRange::ASCIIExtended, '\\', ' ', "\u{00e9}")
    );
    assert_eq!(
        "\u{00e9}",
        encode(&compiled, &ValidAsciiRange::NoRestrict, '\\', ' ', "\u{00e9}")
    );
    assert_eq!(
        "\\u1234",
        encode(&compiled, &ValidAsciiRange::ASCIIExtended, '\\', ' ', "\u{1234}")
    );
}

#[test]
fn ascii_policy_escapes_del_boundary() {
    let compiled = compile_encoder_rules(Vec::new());
    assert_eq!(
        "\\x7f",
        encode(&compiled, &ValidAsciiRange::ASCII, '\\', ' ', "\u{007f}")
    );
    assert_eq!(
        "~",
        encode(&compiled, &ValidAsciiRange::ASCII, '\\', ' ', "~")
    );
}

#[test]
fn range_rule_skips_surrogate_gap() {
    let rules = vec![Rule::Range {
        start_character: '\u{D7FF}',
        end_character: '\u{E000}',
        exclude: None,
        rule_type: RuleType::Esc(false),
    }];
    let compiled = compile_encoder_rules(rules);
    let out = encode(&compiled, &ValidAsciiRange::NoRestrict, '\\', ' ', "\u{D7FF}\u{E000}");
    assert_eq!("\\ud7ff\\ue000", out);
}

#[test]
fn range_rule_crossing_byte_boundary() {
    let rules = vec![Rule::Range {
        start_character: '\u{00FE}',
        end_character: '\u{0101}',
        exclude: None,
        rule_type: RuleType::Inv,
    }];
    let compiled = compile_encoder_rules(rules);
    let out = encode(&compiled, &ValidAsciiRange::NoRestrict, '\\', ' ', "\u{00FE}\u{0100}a");
    assert_eq!("  a", out);
}

#[test]
fn last_rule_covering_a_character_wins() {
    let esc_then_sub = vec![
        Rule::Uni {
            ch: 'a',
            rt: RuleType::Esc(true),
        },
        Rule::Uni {
            ch: 'a',
            rt: RuleType::Sub("zz"),
        },
    ];
    let compiled = compile_encoder_rules(esc_then_sub);
    assert_eq!(
        "zz",
        encode(&compiled, &ValidAsciiRange::NoRestrict, '\\', ' ', "a")
    );

    let sub_then_esc = vec![
        Rule::Uni {
            ch: 'a',
            rt: RuleType::Sub("zz"),
        },
        Rule::Uni {
            ch: 'a',
            rt: RuleType::Esc(true),
        },
    ];
    let compiled = compile_encoder_rules(sub_then_esc);
    assert_eq!(
        "\\a",
        encode(&compiled, &ValidAsciiRange::NoRestrict, '\\', ' ', "a")
    );

    let inv_then_esc = vec![
        Rule::Uni {
            ch: 'a',
            rt: RuleType::Inv,
        },
        Rule::Uni {
            ch: 'a',
            rt: RuleType::Esc(false),
        },
    ];
    let compiled = compile_encoder_rules(inv_then_esc);
    assert_eq!(
        "\\x61",
        encode(&compiled, &ValidAsciiRange::NoRestrict, '\\', ' ', "a")
    );
}

#[test]
fn byte_exact_escapes_for_nul() {
    let encoder = JavaScriptEncoder::create(
        '\\',
        ValidAsciiRange::ASCII,
        JavaScriptEncoderSettings {
            mode: JavaScriptEncoderMode::Block,
        },
    );
    assert_eq!("\\x00", encoder.encode("\u{0}"));

    let xml = XmlEncoder::new(XmlEncoderMode::All);
    assert_eq!(" ", xml.encode("\u{0}"));
}

#[test]
fn utf8_percent_splitting() {
    let encoder = UriEncoder::new(UriEncoderMode::FullUri);
    assert_eq!("%C2%A0", encoder.encode("\u{00a0}"));
    assert_eq!("%E0%A0%80", encoder.encode("\u{0800}"));
    assert_eq!("%F0%90%80%80", encoder.encode("\u{10000}"));
}

#[test]
fn mode_differentiation_on_slash() {
    let source = JavaScriptEncoder::create(
        '\\',
        ValidAsciiRange::ASCII,
        JavaScriptEncoderSettings {
            mode: JavaScriptEncoderMode::Source,
        },
    );
    assert_eq!("/", source.encode("/"));

    let block = JavaScriptEncoder::create(
        '\\',
        ValidAsciiRange::ASCII,
        JavaScriptEncoderSettings {
            mode: JavaScriptEncoderMode::Block,
        },
    );
    assert_eq!("\\/", block.encode("/"));

    let html = JavaScriptEncoder::create(
        '\\',
        ValidAsciiRange::ASCII,
        JavaScriptEncoderSettings {
            mode: JavaScriptEncoderMode::Html,
        },
    );
    assert_eq!("\\/", html.encode("/"));
}

#[test]
fn buffer_sized_output_for_ampersand() {
    let encoder = XmlEncoder::new(XmlEncoderMode::All);
    let out = encoder.encode("&");
    assert_eq!("&amp;", out);
    assert_eq!(5, out.len());
}

#[test]
fn xml_form_feed_stays() {
    let encoder = XmlEncoder::new(XmlEncoderMode::All);
    assert_eq!("\u{000C}", encoder.encode("\u{000C}"));
    assert_eq!(" ", encoder.encode("\u{000B}"));
}

#[test]
fn encoder_getters_report_configuration() {
    let encoder = JavaScriptEncoder::create(
        '\\',
        ValidAsciiRange::ASCII,
        JavaScriptEncoderSettings {
            mode: JavaScriptEncoderMode::Source,
        },
    );
    assert_eq!('\\', encoder.escape_char());
    assert_eq!(' ', encoder.invalid_char());
    assert!(matches!(encoder.ascii_properties(), ValidAsciiRange::ASCII));
    let compiled = encoder.compiled_rules();
    assert_eq!("x", encode(compiled, &ValidAsciiRange::ASCII, '\\', ' ', "x"));
}

#[test]
fn reencoding_stays_safe_but_not_idempotent() {
    let xml = XmlEncoder::new(XmlEncoderMode::All);
    let once = xml.encode("<");
    assert_eq!("&lt;", once);
    let twice = xml.encode(&once);
    assert_eq!("&amp;lt;", twice);
    assert!(!twice.contains('<'));

    let js = JavaScriptEncoder::create(
        '\\',
        ValidAsciiRange::ASCII,
        JavaScriptEncoderSettings {
            mode: JavaScriptEncoderMode::Block,
        },
    );
    let once = js.encode("\"\n");
    assert_eq!("\\\"\\n", once);
    let twice = js.encode(&once);
    assert_eq!("\\\\\\\"\\\\n", twice);
    assert!(!twice.contains('\n'));
}

#[test]
fn classification_dump_reads_the_table() {
    let all_valid = dump_classification(&[u32::MAX, u32::MAX, u32::MAX, u32::MAX]);
    assert_eq!(128, all_valid.len());
    assert!(all_valid.iter().all(|(_, valid)| *valid));

    let only_a = dump_classification(&[0, 0, 1u32 << 1, 0]);
    assert_eq!(('A', true), only_a[65]);
    assert_eq!(('B', false), only_a[66]);
    assert_eq!(('@', false), only_a[64]);
}
