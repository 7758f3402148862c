//! JavaScript profile: escaping for string literals in four embeddings.
//! All four modes substitute the control characters backspace, tab, line
//! feed, form feed and carriage return with their two-character escapes and
//! hex-escape NUL; they differ in whether `/` and `-` are escaped (`Block`
//! and `Html`), whether quotes are simple-escaped or hex-escaped (hex in
//! `Html` and `Attribute`, to survive an extra HTML-attribute decoding),
//! and whether `&` is escaped (every mode but `Source`).  The line and
//! paragraph separators U+2028 and U+2029 are escaped in every mode.

use vstd::prelude::*;

use crate::encoder::{compile_encoder_rules, encode, encode_char_rules, encode_seq_rules,
    CompiledEncoderRules, Encoder, Rule, RuleType, RulesModel, ValidAsciiRange, compile_model,
    rules_wf};

verus! {

pub enum JavaScriptEncoderMode {
    Source,
    Block,
    Html,
    Attribute,
}

pub struct JavaScriptEncoderSettings {
    pub mode: JavaScriptEncoderMode,
}

pub struct JavaScriptEncoder {
    pub(crate) rules: CompiledEncoderRules,
    pub(crate) escape_char: char,
    pub(crate) invalid_char: char,
    pub(crate) ascii_properties: ValidAsciiRange,
}

/// The substitutions every mode records: the five control characters with
/// two-character escapes.
pub open spec fn js_sub_map() -> Map<u32, Seq<char>> {
    Map::empty()
        .insert(8u32, seq!['\\', 'b'])
        .insert(9u32, seq!['\\', 't'])
        .insert(10u32, seq!['\\', 'n'])
        .insert(12u32, seq!['\\', 'f'])
        .insert(13u32, seq!['\\', 'r'])
}

/// The escape entries the mode records: the flag tells a simple escape
/// (lead plus raw character) from a hexadecimal one.
pub open spec fn js_esc_map(mode: JavaScriptEncoderMode) -> Map<u32, bool> {
    match mode {
        JavaScriptEncoderMode::Source => Map::empty()
            .insert(0x2028u32, true)
            .insert(0x2029u32, true)
            .insert(0u32, false)
            .insert(34u32, true)
            .insert(39u32, true)
            .insert(92u32, true),
        JavaScriptEncoderMode::Block => Map::empty()
            .insert(0u32, false)
            .insert(47u32, true)
            .insert(0x2028u32, true)
            .insert(0x2029u32, true)
            .insert(45u32, true)
            .insert(34u32, true)
            .insert(39u32, true)
            .insert(38u32, true)
            .insert(92u32, true),
        JavaScriptEncoderMode::Html => Map::empty()
            .insert(0u32, false)
            .insert(0x2028u32, true)
            .insert(0x2029u32, true)
            .insert(47u32, true)
            .insert(45u32, true)
            .insert(34u32, false)
            .insert(39u32, false)
            .insert(38u32, true)
            .insert(92u32, true),
        JavaScriptEncoderMode::Attribute => Map::empty()
            .insert(0x2028u32, true)
            .insert(0x2029u32, true)
            .insert(0u32, false)
            .insert(34u32, false)
            .insert(39u32, false)
            .insert(38u32, true)
            .insert(92u32, true),
    }
}

/// Whether the mode rules the code point below 256, clearing its mask bit:
/// the five substituted controls, NUL, the quotes, the backslash, and — in
/// every mode but `Source` — `&`, with `/` and `-` in `Block` and `Html`.
pub open spec fn js_low_ruled(mode: JavaScriptEncoderMode, cp: u32) -> bool {
    cp == 8 || cp == 9 || cp == 10 || cp == 12 || cp == 13 || cp == 0 || cp == 34 || cp == 39
        || cp == 92 || match mode {
        JavaScriptEncoderMode::Source => false,
        JavaScriptEncoderMode::Block => cp == 38 || cp == 47 || cp == 45,
        JavaScriptEncoderMode::Html => cp == 38 || cp == 47 || cp == 45,
        JavaScriptEncoderMode::Attribute => cp == 38,
    }
}

/// The model the mode's rule table compiles to.
pub open spec fn js_rules_model(mode: JavaScriptEncoderMode) -> RulesModel {
    RulesModel {
        valid: Set::new(|cp: u32| cp < 256 && !js_low_ruled(mode, cp)),
        esc: js_esc_map(mode),
        sub: js_sub_map(),
        inv: Set::empty(),
        max_sub: 2,
    }
}

/// The mode's declarative rule table, and the proof that compiling it
/// yields exactly [`js_rules_model`].
fn js_rules_vec(mode: &JavaScriptEncoderMode) -> (rules: Vec<Rule>)
    ensures
        rules_wf(rules@),
        compile_model(rules@) == js_rules_model(*mode),
{
    let mut rules: Vec<Rule> = Vec::new();
    rules.push(Rule::Uni { ch: '\u{0008}', rt: RuleType::Sub("\\b") });
    rules.push(Rule::Uni { ch: '\u{0009}', rt: RuleType::Sub("\\t") });
    rules.push(Rule::Uni { ch: '\u{000A}', rt: RuleType::Sub("\\n") });
    rules.push(Rule::Uni { ch: '\u{000C}', rt: RuleType::Sub("\\f") });
    rules.push(Rule::Uni { ch: '\u{000D}', rt: RuleType::Sub("\\r") });
    rules.push(Rule::Uni { ch: '\u{2028}', rt: RuleType::Esc(true) });
    rules.push(Rule::Uni { ch: '\u{2029}', rt: RuleType::Esc(true) });
    rules.push(Rule::Uni { ch: '\u{0000}', rt: RuleType::Esc(false) });
    match mode {
        JavaScriptEncoderMode::Source => {
            rules.push(Rule::Uni { ch: '"', rt: RuleType::Esc(true) });
            rules.push(Rule::Uni { ch: '\'', rt: RuleType::Esc(true) });
            rules.push(Rule::Uni { ch: '\\', rt: RuleType::Esc(true) });
        },
        JavaScriptEncoderMode::Block => {
            rules.push(Rule::Uni { ch: '/', rt: RuleType::Esc(true) });
            rules.push(Rule::Uni { ch: '-', rt: RuleType::Esc(true) });
            rules.push(Rule::Uni { ch: '"', rt: RuleType::Esc(true) });
            rules.push(Rule::Uni { ch: '\'', rt: RuleType::Esc(true) });
            rules.push(Rule::Uni { ch: '&', rt: RuleType::Esc(true) });
            rules.push(Rule::Uni { ch: '\\', rt: RuleType::Esc(true) });
        },
        JavaScriptEncoderMode::Html => {
            rules.push(Rule::Uni { ch: '/', rt: RuleType::Esc(true) });
            rules.push(Rule::Uni { ch: '-', rt: RuleType::Esc(true) });
            rules.push(Rule::Uni { ch: '"', rt: RuleType::Esc(false) });
            rules.push(Rule::Uni { ch: '\'', rt: RuleType::Esc(false) });
            rules.push(Rule::Uni { ch: '&', rt: RuleType::Esc(true) });
            rules.push(Rule::Uni { ch: '\\', rt: RuleType::Esc(true) });
        },
        JavaScriptEncoderMode::Attribute => {
            rules.push(Rule::Uni { ch: '"', rt: RuleType::Esc(false) });
            rules.push(Rule::Uni { ch: '\'', rt: RuleType::Esc(false) });
            rules.push(Rule::Uni { ch: '&', rt: RuleType::Esc(true) });
            rules.push(Rule::Uni { ch: '\\', rt: RuleType::Esc(true) });
        },
    }
    proof {
        reveal_strlit("\\b");
        reveal_strlit("\\t");
        reveal_strlit("\\n");
        reveal_strlit("\\f");
        reveal_strlit("\\r");
        reveal_with_fuel(crate::encoder::compile_onto, 16);
        assert(rules_wf(rules@));
        let compiled = compile_model(rules@);
        let target = js_rules_model(*mode);
        assert(compiled.valid =~= target.valid);
        assert(compiled.esc =~= target.esc);
        assert("\\b"@ =~= seq!['\\', 'b']);
        assert("\\t"@ =~= seq!['\\', 't']);
        assert("\\n"@ =~= seq!['\\', 'n']);
        assert("\\f"@ =~= seq!['\\', 'f']);
        assert("\\r"@ =~= seq!['\\', 'r']);
        assert(compiled.sub =~~= target.sub);
        assert(compiled.inv =~= target.inv);
        assert(compiled.max_sub == target.max_sub);
        assert(compiled =~~= target);
    }
    rules
}

impl Encoder<JavaScriptEncoderSettings> for JavaScriptEncoder {
    closed spec fn rules_model(&self) -> RulesModel {
        self.rules@
    }

    closed spec fn spec_escape_char(&self) -> char {
        self.escape_char
    }

    closed spec fn spec_invalid_char(&self) -> char {
        self.invalid_char
    }

    closed spec fn spec_ascii_properties(&self) -> ValidAsciiRange {
        self.ascii_properties
    }

    open spec fn created_rules(config: JavaScriptEncoderSettings) -> RulesModel {
        js_rules_model(config.mode)
    }

    open spec fn created_invalid_char(config: JavaScriptEncoderSettings) -> char {
        ' '
    }

    fn create(
        escape_char: char,
        valid_ascii_range: ValidAsciiRange,
        config: JavaScriptEncoderSettings,
    ) -> Self {
        let rules_vec = js_rules_vec(&config.mode);
        let compiled_rules = compile_encoder_rules(rules_vec);
        Self {
            rules: compiled_rules,
            escape_char,
            invalid_char: ' ',
            ascii_properties: valid_ascii_range,
        }
    }

    fn compiled_rules(&self) -> &CompiledEncoderRules {
        &self.rules
    }

    fn escape_char(&self) -> char {
        self.escape_char
    }

    fn invalid_char(&self) -> char {
        self.invalid_char
    }

    fn ascii_properties(&self) -> &ValidAsciiRange {
        &self.ascii_properties
    }

    fn encode(&self, input: &str) -> String {
        encode(&self.rules, &self.ascii_properties, self.escape_char, self.invalid_char, input)
    }
}

/// The four JavaScript line terminators: line feed, carriage return, and
/// the line and paragraph separators.
pub open spec fn js_line_terminator(cp: u32) -> bool {
    cp == 10 || cp == 13 || cp == 0x2028 || cp == 0x2029
}

/// The characters a hexadecimal digit can be are ordinary ASCII: never a
/// line terminator, never a quote, always 7-bit.
proof fn lemma_hex_digit_chars()
    ensures
        forall|n: u32|
            !js_line_terminator((#[trigger] crate::common::hex_lower(n)) as u32) && (
            crate::common::hex_lower(n) as u32) < 128 && crate::common::hex_lower(n) != '"'
                && crate::common::hex_lower(n) != '\'',
{
}

/// What one character's encoding never contains under any policy: a line
/// terminator (for an escape lead that is none itself).
proof fn lemma_js_unit_no_line_terminators(
    mode: JavaScriptEncoderMode,
    policy: ValidAsciiRange,
    lead: char,
    c: char,
)
    requires
        !js_line_terminator(lead as u32),
    ensures
        forall|k: int|
            0 <= k < encode_char_rules(js_rules_model(mode), policy, lead, ' ', c).len()
                ==> !js_line_terminator(
                (#[trigger] encode_char_rules(js_rules_model(mode), policy, lead, ' ', c)[k]) as u32,
            ),
{
    lemma_hex_digit_chars();
}

/// Total coverage for the JavaScript profile: whatever the input, mode and
/// policy, the encoding contains no unescaped line terminator — nothing in
/// the output can end the string literal's line.
pub proof fn lemma_js_encode_no_line_terminators(
    mode: JavaScriptEncoderMode,
    policy: ValidAsciiRange,
    lead: char,
    s: Seq<char>,
)
    requires
        !js_line_terminator(lead as u32),
    ensures
        forall|k: int|
            0 <= k < encode_seq_rules(js_rules_model(mode), policy, lead, ' ', s).len()
                ==> !js_line_terminator(
                (#[trigger] encode_seq_rules(js_rules_model(mode), policy, lead, ' ', s)[k]) as u32,
            ),
    decreases s.len(),
{
    if s.len() > 0 {
        lemma_js_encode_no_line_terminators(mode, policy, lead, s.drop_last());
        lemma_js_unit_no_line_terminators(mode, policy, lead, s.last());
        let prev = encode_seq_rules(js_rules_model(mode), policy, lead, ' ', s.drop_last());
        let unit = encode_char_rules(js_rules_model(mode), policy, lead, ' ', s.last());
        assert forall|k: int|
            0 <= k < encode_seq_rules(js_rules_model(mode), policy, lead, ' ', s).len()
                implies encode_seq_rules(js_rules_model(mode), policy, lead, ' ', s)[k] == (if k
            < prev.len() {
            prev[k]
        } else {
            unit[k - prev.len()]
        }) by {
            assert(encode_seq_rules(js_rules_model(mode), policy, lead, ' ', s) == prev + unit);
        }
    }
}

/// Idempotence of safety: re-encoding an encoded output still contains no
/// line terminator; nothing context-breaking is reintroduced (the encoding
/// itself need not be idempotent).
pub proof fn lemma_js_reencode_safe(
    mode: JavaScriptEncoderMode,
    policy: ValidAsciiRange,
    lead: char,
    s: Seq<char>,
)
    requires
        !js_line_terminator(lead as u32),
    ensures
        forall|k: int|
            0 <= k < encode_seq_rules(
                js_rules_model(mode),
                policy,
                lead,
                ' ',
                encode_seq_rules(js_rules_model(mode), policy, lead, ' ', s),
            ).len() ==> !js_line_terminator(
                (#[trigger] encode_seq_rules(
                    js_rules_model(mode),
                    policy,
                    lead,
                    ' ',
                    encode_seq_rules(js_rules_model(mode), policy, lead, ' ', s),
                )[k]) as u32,
            ),
{
    lemma_js_encode_no_line_terminators(
        mode,
        policy,
        lead,
        encode_seq_rules(js_rules_model(mode), policy, lead, ' ', s),
    );
}

/// What one character's encoding never contains under the HTML-embedded
/// modes: a quote character (for an escape lead that is none itself).
proof fn lemma_js_unit_no_quotes(
    mode: JavaScriptEncoderMode,
    policy: ValidAsciiRange,
    lead: char,
    c: char,
)
    requires
        mode is Html || mode is Attribute,
        lead != '"' && lead != '\'',
    ensures
        forall|k: int|
            0 <= k < encode_char_rules(js_rules_model(mode), policy, lead, ' ', c).len() ==> ((
            #[trigger] encode_char_rules(js_rules_model(mode), policy, lead, ' ', c)[k]) != '"'
                && encode_char_rules(js_rules_model(mode), policy, lead, ' ', c)[k] != '\''),
{
    lemma_hex_digit_chars();
}

/// Mode differentiation, stated generally: the HTML-embedded modes (`Html`
/// and `Attribute`) hex-escape the quotes, so with an escape lead that is
/// no quote itself their encodings never contain a quote character at all,
/// whatever the input and policy.
pub proof fn lemma_js_html_modes_no_quotes(
    mode: JavaScriptEncoderMode,
    policy: ValidAsciiRange,
    lead: char,
    s: Seq<char>,
)
    requires
        mode is Html || mode is Attribute,
        lead != '"' && lead != '\'',
    ensures
        forall|k: int|
            0 <= k < encode_seq_rules(js_rules_model(mode), policy, lead, ' ', s).len() ==> ((
            #[trigger] encode_seq_rules(js_rules_model(mode), policy, lead, ' ', s)[k]) != '"'
                && encode_seq_rules(js_rules_model(mode), policy, lead, ' ', s)[k] != '\''),
    decreases s.len(),
{
    if s.len() > 0 {
        lemma_js_html_modes_no_quotes(mode, policy, lead, s.drop_last());
        lemma_js_unit_no_quotes(mode, policy, lead, s.last());
        let prev = encode_seq_rules(js_rules_model(mode), policy, lead, ' ', s.drop_last());
        let unit = encode_char_rules(js_rules_model(mode), policy, lead, ' ', s.last());
        assert forall|k: int|
            0 <= k < encode_seq_rules(js_rules_model(mode), policy, lead, ' ', s).len()
                implies encode_seq_rules(js_rules_model(mode), policy, lead, ' ', s)[k] == (if k
            < prev.len() {
            prev[k]
        } else {
            unit[k - prev.len()]
        }) by {
            assert(encode_seq_rules(js_rules_model(mode), policy, lead, ' ', s) == prev + unit);
        }
    }
}

/// In what positions one character's encoding can hold a quote: only as
/// the second character of a simple escape, right after the escape lead.
proof fn lemma_js_unit_quote_escaped(
    mode: JavaScriptEncoderMode,
    policy: ValidAsciiRange,
    lead: char,
    c: char,
)
    requires
        lead != '"' && lead != '\'',
    ensures
        forall|j: int|
            0 <= j < encode_char_rules(js_rules_model(mode), policy, lead, ' ', c).len() && ((
            #[trigger] encode_char_rules(js_rules_model(mode), policy, lead, ' ', c)[j]) == '"'
                || encode_char_rules(js_rules_model(mode), policy, lead, ' ', c)[j] == '\'')
                ==> (j == 1 && encode_char_rules(js_rules_model(mode), policy, lead, ' ', c).len()
                == 2 && encode_char_rules(js_rules_model(mode), policy, lead, ' ', c)[0] == lead),
{
    lemma_hex_digit_chars();
}

/// Every quote that survives in the encoding is escaped: it stands
/// immediately after the escape lead, in every mode and under every
/// policy (in the HTML-embedded modes no quote survives at all).  With
/// [`lemma_js_encode_no_line_terminators`] this is the re-encoding safety
/// guarantee for the characters that can break out of a string literal.
pub proof fn lemma_js_encode_quotes_escaped(
    mode: JavaScriptEncoderMode,
    policy: ValidAsciiRange,
    lead: char,
    s: Seq<char>,
)
    requires
        lead != '"' && lead != '\'',
    ensures
        forall|k: int|
            0 <= k < encode_seq_rules(js_rules_model(mode), policy, lead, ' ', s).len() && ((
            #[trigger] encode_seq_rules(js_rules_model(mode), policy, lead, ' ', s)[k]) == '"'
                || encode_seq_rules(js_rules_model(mode), policy, lead, ' ', s)[k] == '\'') ==> (k
                >= 1 && encode_seq_rules(js_rules_model(mode), policy, lead, ' ', s)[k - 1]
                == lead),
    decreases s.len(),
{
    if s.len() > 0 {
        lemma_js_encode_quotes_escaped(mode, policy, lead, s.drop_last());
        lemma_js_unit_quote_escaped(mode, policy, lead, s.last());
        let prev = encode_seq_rules(js_rules_model(mode), policy, lead, ' ', s.drop_last());
        let unit = encode_char_rules(js_rules_model(mode), policy, lead, ' ', s.last());
        assert forall|k: int|
            0 <= k < encode_seq_rules(js_rules_model(mode), policy, lead, ' ', s).len()
                implies encode_seq_rules(js_rules_model(mode), policy, lead, ' ', s)[k] == (if k
            < prev.len() {
            prev[k]
        } else {
            unit[k - prev.len()]
        }) by {
            assert(encode_seq_rules(js_rules_model(mode), policy, lead, ' ', s) == prev + unit);
        }
    }
}

/// Idempotence of safety for quotes: in the doubly encoded output every
/// quote still stands immediately after the escape lead.
pub proof fn lemma_js_reencode_quotes_escaped(
    mode: JavaScriptEncoderMode,
    policy: ValidAsciiRange,
    lead: char,
    s: Seq<char>,
)
    requires
        lead != '"' && lead != '\'',
    ensures
        forall|k: int|
            0 <= k < encode_seq_rules(
                js_rules_model(mode),
                policy,
                lead,
                ' ',
                encode_seq_rules(js_rules_model(mode), policy, lead, ' ', s),
            ).len() && ((#[trigger] encode_seq_rules(
                js_rules_model(mode),
                policy,
                lead,
                ' ',
                encode_seq_rules(js_rules_model(mode), policy, lead, ' ', s),
            )[k]) == '"' || encode_seq_rules(
                js_rules_model(mode),
                policy,
                lead,
                ' ',
                encode_seq_rules(js_rules_model(mode), policy, lead, ' ', s),
            )[k] == '\'') ==> (k >= 1 && encode_seq_rules(
                js_rules_model(mode),
                policy,
                lead,
                ' ',
                encode_seq_rules(js_rules_model(mode), policy, lead, ' ', s),
            )[k - 1] == lead),
{
    lemma_js_encode_quotes_escaped(
        mode,
        policy,
        lead,
        encode_seq_rules(js_rules_model(mode), policy, lead, ' ', s),
    );
}

/// The `ASCII` policy means what it says: with a 7-bit escape lead, every
/// character of the encoding is 7-bit clean, whatever the input and mode.
pub proof fn lemma_js_ascii_only_output(mode: JavaScriptEncoderMode, lead: char, s: Seq<char>)
    requires
        (lead as u32) < 128,
    ensures
        forall|k: int|
            0 <= k < encode_seq_rules(js_rules_model(mode), ValidAsciiRange::ASCII, lead, ' ', s).len()
                ==> ((#[trigger] encode_seq_rules(
                js_rules_model(mode),
                ValidAsciiRange::ASCII,
                lead,
                ' ',
                s,
            )[k]) as u32) < 128,
    decreases s.len(),
{
    lemma_hex_digit_chars();
    if s.len() > 0 {
        lemma_js_ascii_only_output(mode, lead, s.drop_last());
        let prev = encode_seq_rules(js_rules_model(mode), ValidAsciiRange::ASCII, lead, ' ', s.drop_last());
        let unit = encode_char_rules(js_rules_model(mode), ValidAsciiRange::ASCII, lead, ' ', s.last());
        assert forall|k: int|
            0 <= k < unit.len() implies ((#[trigger] unit[k]) as u32) < 128 by {
        }
        assert forall|k: int|
            0 <= k < encode_seq_rules(js_rules_model(mode), ValidAsciiRange::ASCII, lead, ' ', s).len()
                implies encode_seq_rules(js_rules_model(mode), ValidAsciiRange::ASCII, lead, ' ', s)[k]
                == (if k < prev.len() {
            prev[k]
        } else {
            unit[k - prev.len()]
        }) by {
            assert(encode_seq_rules(js_rules_model(mode), ValidAsciiRange::ASCII, lead, ' ', s)
                == prev + unit);
        }
    }
}

} // verus!
