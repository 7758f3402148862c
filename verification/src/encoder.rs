//! The rule model, the rule compiler, and the encoding engine.
//!
//! A profile hands the compiler a sequence of declarative [`Rule`]s; the
//! compiler folds them into a [`CompiledEncoderRules`] artifact: a 256-bit
//! mask table for fast classification below code point 256, hash maps for
//! escape flags and substitution strings, a set of invalidated characters,
//! and a buffer-sizing hint.  The engine's [`encode`] walks the input once,
//! consulting that artifact and the [`ValidAsciiRange`] policy.
//!
//! The whole artifact is described, in specifications, by a [`RulesModel`]:
//! the mask table as a set of still-valid code points, and each map by its
//! entries.

use vstd::prelude::*;

use fnv::{FnvHashMap, FnvHashSet};

use crate::common::{char_bucket, char_mask, encode_as_hex_byte, encode_as_unicode,
    hex_byte_escape, mask_bit, push_char, shrink_string, str_chars, string_with_capacity,
    unicode_escape};
use vstd::string::StrSliceExecFns;
use vstd::string::StringExecFns;

verus! {

/// fnv's hasher type, used only as the hasher parameter of the standard
/// maps the compiled artifact holds.
#[verifier::external_type_specification]
#[verifier::external_body]
pub struct ExFnvHasher(fnv::FnvHasher);

/// The standard library's hasher builder, which fnv's map alias
/// instantiates with its hasher; vstd gives it no specification.
#[verifier::external_type_specification]
#[verifier::external_body]
#[verifier::reject_recursive_types(H)]
pub struct ExBuildHasherDefault<H>(std::hash::BuildHasherDefault<H>);

/// Defines the range of characters allowed to pass through unescaped when no
/// explicit rule intercepts them.
#[derive(Debug)]
pub enum ValidAsciiRange {
    /// Only 7-bit-clean characters pass; everything else is escaped.
    ASCII,
    /// 8-bit-clean characters pass; code points above 255 are escaped.
    ASCIIExtended,
    /// Everything passes through unmodified.
    NoRestrict,
}

/// How a ruled character is transformed.
#[derive(Clone, Debug)]
pub enum RuleType {
    /// Replace the character with the single configured placeholder.
    Inv,
    /// Escape the character: when the flag is set, as the escape lead
    /// followed by the raw character; otherwise as a fixed-width
    /// hexadecimal escape.
    Esc(bool),
    /// Replace the character with the fixed string.
    Sub(&'static str),
}

/// A transformation directive: a rule over an inclusive character range with
/// an optional exclusion list, or over one character.
#[derive(Clone, Debug)]
pub enum Rule {
    Range {
        start_character: char,
        end_character: char,
        exclude: Option<Vec<char>>,
        rule_type: RuleType,
    },
    Uni {
        ch: char,
        rt: RuleType,
    },
}

/// The mathematical content of a compiled artifact: which code points below
/// 256 are still valid (their mask bit set), the recorded escape flags,
/// substitutions and invalidated code points, and the buffer-sizing hint.
#[verifier::ext_equal]
pub ghost struct RulesModel {
    pub valid: Set<u32>,
    pub esc: Map<u32, bool>,
    pub sub: Map<u32, Seq<char>>,
    pub inv: Set<u32>,
    pub max_sub: nat,
}

/// The code points below 256 whose mask bit is set in the table.
pub open spec fn valid_set_of(masks: Seq<u32>) -> Set<u32> {
    Set::new(|cp: u32| cp < 256 && mask_bit(masks, cp))
}

/// The model before any rule is applied: all 256 mask bits set, no entries,
/// and a sizing hint of one.
pub open spec fn initial_rules_model() -> RulesModel {
    RulesModel {
        valid: Set::new(|cp: u32| cp < 256),
        esc: Map::empty(),
        sub: Map::empty(),
        inv: Set::empty(),
        max_sub: 1,
    }
}

/// One rule applied to one code point: below 256 the mask bit is cleared;
/// the action is recorded in its map and evicts any stale record of the
/// code point from the other two structures, so the last rule covering a
/// character wins; a substitution also raises the sizing hint to its
/// length.
pub open spec fn apply_action(m: RulesModel, cp: u32, rt: RuleType) -> RulesModel {
    let cleared = if cp < 256 {
        RulesModel { valid: m.valid.remove(cp), esc: m.esc, sub: m.sub, inv: m.inv, max_sub: m.max_sub }
    } else {
        m
    };
    match rt {
        RuleType::Esc(simple) => RulesModel {
            valid: cleared.valid,
            esc: cleared.esc.insert(cp, simple),
            sub: cleared.sub.remove(cp),
            inv: cleared.inv.remove(cp),
            max_sub: cleared.max_sub,
        },
        RuleType::Sub(s) => RulesModel {
            valid: cleared.valid,
            esc: cleared.esc.remove(cp),
            sub: cleared.sub.insert(cp, s@),
            inv: cleared.inv.remove(cp),
            max_sub: if s@.len() > cleared.max_sub {
                s@.len()
            } else {
                cleared.max_sub
            },
        },
        RuleType::Inv => RulesModel {
            valid: cleared.valid,
            esc: cleared.esc.remove(cp),
            sub: cleared.sub.remove(cp),
            inv: cleared.inv.insert(cp),
            max_sub: cleared.max_sub,
        },
    }
}

/// Whether `cp` is a Unicode scalar value, that is, the code point of some
/// `char`.
pub open spec fn is_scalar(cp: u32) -> bool {
    cp < 0xD800 || (0xE000 <= cp && cp <= 0x10FFFF)
}

/// Whether the exclusion list holds the character with code point `cp`.
pub open spec fn excluded(exclude: Option<Vec<char>>, cp: u32) -> bool {
    match exclude {
        None => false,
        Some(v) => exists|i: int| 0 <= i < v@.len() && (#[trigger] v@[i]) as u32 == cp,
    }
}

/// One range rule applied to one code point: skipped when the code point is
/// no scalar value or stands in the exclusion list.
pub open spec fn apply_range_step(
    m: RulesModel,
    cp: u32,
    exclude: Option<Vec<char>>,
    rt: RuleType,
) -> RulesModel {
    if is_scalar(cp) && !excluded(exclude, cp) {
        apply_action(m, cp, rt)
    } else {
        m
    }
}

/// A range rule applied to every code point from `cp` to `end` inclusive.
pub open spec fn apply_range(
    m: RulesModel,
    cp: int,
    end: int,
    exclude: Option<Vec<char>>,
    rt: RuleType,
) -> RulesModel
    decreases end - cp + 1,
{
    if cp > end {
        m
    } else {
        apply_range(apply_range_step(m, cp as u32, exclude, rt), cp + 1, end, exclude, rt)
    }
}

/// One rule applied to a model.
pub open spec fn apply_rule(m: RulesModel, r: Rule) -> RulesModel {
    match r {
        Rule::Range { start_character, end_character, exclude, rule_type } => apply_range(
            m,
            (start_character as u32) as int,
            (end_character as u32) as int,
            exclude,
            rule_type,
        ),
        Rule::Uni { ch, rt } => apply_action(m, ch as u32, rt),
    }
}

/// The rules applied in order, starting from `m`.
pub open spec fn compile_onto(m: RulesModel, rules: Seq<Rule>) -> RulesModel
    decreases rules.len(),
{
    if rules.len() == 0 {
        m
    } else {
        compile_onto(apply_rule(m, rules[0]), rules.drop_first())
    }
}

/// What compiling a rule sequence yields: the fold of the rules, in order,
/// over the initial model.
pub open spec fn compile_model(rules: Seq<Rule>) -> RulesModel {
    compile_onto(initial_rules_model(), rules)
}

/// A code point is recorded in at most one of the escape map, the
/// substitution map and the invalid set.
pub open spec fn disjoint_actions(m: RulesModel) -> bool {
    &&& forall|cp: u32|
        #[trigger] m.esc.contains_key(cp) ==> !m.sub.contains_key(cp) && !m.inv.contains(cp)
    &&& forall|cp: u32| #[trigger] m.sub.contains_key(cp) ==> !m.inv.contains(cp)
}

proof fn lemma_apply_action_disjoint(m: RulesModel, cp: u32, rt: RuleType)
    requires
        disjoint_actions(m),
    ensures
        disjoint_actions(apply_action(m, cp, rt)),
{
}

proof fn lemma_apply_range_disjoint(
    m: RulesModel,
    cp: int,
    end: int,
    exclude: Option<Vec<char>>,
    rt: RuleType,
)
    requires
        disjoint_actions(m),
    ensures
        disjoint_actions(apply_range(m, cp, end, exclude, rt)),
    decreases end - cp + 1,
{
    if cp <= end {
        lemma_apply_action_disjoint(m, cp as u32, rt);
        lemma_apply_range_disjoint(apply_range_step(m, cp as u32, exclude, rt), cp + 1, end, exclude, rt);
    }
}

proof fn lemma_compile_onto_disjoint(m: RulesModel, rules: Seq<Rule>)
    requires
        disjoint_actions(m),
    ensures
        disjoint_actions(compile_onto(m, rules)),
    decreases rules.len(),
{
    if rules.len() > 0 {
        match rules[0] {
            Rule::Range { start_character, end_character, exclude, rule_type } => {
                lemma_apply_range_disjoint(
                    m,
                    (start_character as u32) as int,
                    (end_character as u32) as int,
                    exclude,
                    rule_type,
                );
            },
            Rule::Uni { ch, rt } => {
                lemma_apply_action_disjoint(m, ch as u32, rt);
            },
        }
        lemma_compile_onto_disjoint(apply_rule(m, rules[0]), rules.drop_first());
    }
}

/// The compiled artifact's invariant: a character appears in at most one
/// of the escape map, the substitution map and the invalid set — the rule
/// that covered it last decided which, so the engine's lookup priority
/// among the three is immaterial.
pub proof fn lemma_compile_disjoint(rules: Seq<Rule>)
    ensures
        disjoint_actions(compile_model(rules)),
{
    lemma_compile_onto_disjoint(initial_rules_model(), rules);
}

/// Every range rule runs upward: its start character is strictly below its
/// end character.  Violation is a programmer error in a profile definition,
/// rejected at construction.
pub open spec fn rules_wf(rules: Seq<Rule>) -> bool {
    forall|i: int|
        0 <= i < rules.len() ==> ((#[trigger] rules[i]) matches Rule::Range {
            start_character,
            end_character,
            ..
        } ==> (start_character as u32) < (end_character as u32))
}

/// A collection of precompiled rules used to configure encoding behavior:
/// the 256-bit validity mask, the substitution and escape maps, the
/// invalidated set, and the sizing hint for output buffers.
pub struct CompiledEncoderRules {
    /// Eight 32-bit words; bit `n` set means code point `n` needs no
    /// transformation.
    pub(crate) valid_ascii_mask: [u32; 8],
    /// Characters replaced by a fixed string, by code point.
    pub(crate) replace_map: FnvHashMap<u32, &'static str>,
    /// Characters escaped, by code point; the value tells a simple escape
    /// from a hexadecimal one.
    pub(crate) encode_map: FnvHashMap<u32, bool>,
    /// Code points replaced by the configured placeholder character.
    pub(crate) invalid_set: FnvHashSet<u32>,
    /// The length of the longest substitution string, at least one.
    pub(crate) output_buffer_max_len: usize,
}

/// What the escape map holds, as a map from code point to the simple-escape
/// flag.
pub uninterp spec fn esc_entries(m: FnvHashMap<u32, bool>) -> Map<u32, bool>;

/// What the substitution map holds, as a map from code point to the
/// replacement's characters.
pub uninterp spec fn sub_entries(m: FnvHashMap<u32, &'static str>) -> Map<u32, Seq<char>>;

/// What the invalidated-character set holds, as a set of code points.
pub uninterp spec fn inv_entries(s: FnvHashSet<u32>) -> Set<u32>;

/// Relies on `HashMap::default` (fnv's map is the standard one with the
/// FNV hasher): a new map is empty.
#[verifier::external_body]
fn esc_map_new() -> (m: FnvHashMap<u32, bool>)
    ensures
        forall|k: u32| !esc_entries(m).contains_key(k),
{
    FnvHashMap::default()
}

/// Relies on `HashMap::insert`: maps the key to the value and keeps every
/// other entry.
#[verifier::external_body]
fn esc_map_insert(m: &mut FnvHashMap<u32, bool>, k: u32, v: bool)
    ensures
        esc_entries(*final(m)) == esc_entries(*old(m)).insert(k, v),
{
    m.insert(k, v);
}

/// Relies on `HashMap::get`: returns the value stored for the key, if any.
#[verifier::external_body]
fn esc_map_get(m: &FnvHashMap<u32, bool>, k: u32) -> (r: Option<bool>)
    ensures
        r == if esc_entries(*m).contains_key(k) {
            Some(esc_entries(*m)[k])
        } else {
            None::<bool>
        },
{
    m.get(&k).copied()
}

/// Relies on `HashMap::default` (fnv's map is the standard one with the
/// FNV hasher): a new map is empty.
#[verifier::external_body]
fn sub_map_new() -> (m: FnvHashMap<u32, &'static str>)
    ensures
        forall|k: u32| !sub_entries(m).contains_key(k),
{
    FnvHashMap::default()
}

/// Relies on `HashMap::insert`: maps the key to the value and keeps every
/// other entry.
#[verifier::external_body]
fn sub_map_insert(m: &mut FnvHashMap<u32, &'static str>, k: u32, v: &'static str)
    ensures
        sub_entries(*final(m)) == sub_entries(*old(m)).insert(k, v@),
{
    m.insert(k, v);
}

/// Relies on `HashMap::get`: returns the value stored for the key, if any.
#[verifier::external_body]
fn sub_map_get(m: &FnvHashMap<u32, &'static str>, k: u32) -> (r: Option<&'static str>)
    ensures
        r is Some <==> sub_entries(*m).contains_key(k),
        r matches Some(s) ==> s@ == sub_entries(*m)[k],
{
    m.get(&k).copied()
}

/// Relies on `HashSet::default` (fnv's set is the standard one with the
/// FNV hasher): a new set is empty.
#[verifier::external_body]
fn inv_set_new() -> (s: FnvHashSet<u32>)
    ensures
        forall|k: u32| !inv_entries(s).contains(k),
{
    FnvHashSet::default()
}

/// Relies on `HashSet::insert`: adds the value and keeps every other
/// element.
#[verifier::external_body]
fn inv_set_insert(s: &mut FnvHashSet<u32>, v: u32)
    ensures
        inv_entries(*final(s)) == inv_entries(*old(s)).insert(v),
{
    s.insert(v);
}

/// Relies on `HashSet::contains`: whether the value is in the set.
#[verifier::external_body]
fn inv_set_contains(s: &FnvHashSet<u32>, v: u32) -> (r: bool)
    ensures
        r == inv_entries(*s).contains(v),
{
    s.contains(&v)
}

/// Relies on `HashMap::remove`: drops the key's entry, if any, and keeps
/// every other entry.
#[verifier::external_body]
fn esc_map_remove(m: &mut FnvHashMap<u32, bool>, k: u32)
    ensures
        esc_entries(*final(m)) == esc_entries(*old(m)).remove(k),
{
    m.remove(&k);
}

/// Relies on `HashMap::remove`: drops the key's entry, if any, and keeps
/// every other entry.
#[verifier::external_body]
fn sub_map_remove(m: &mut FnvHashMap<u32, &'static str>, k: u32)
    ensures
        sub_entries(*final(m)) == sub_entries(*old(m)).remove(k),
{
    m.remove(&k);
}

/// Relies on `HashSet::remove`: drops the value, if present, and keeps
/// every other element.
#[verifier::external_body]
fn inv_set_remove(s: &mut FnvHashSet<u32>, v: u32)
    ensures
        inv_entries(*final(s)) == inv_entries(*old(s)).remove(v),
{
    s.remove(&v);
}

impl View for CompiledEncoderRules {
    type V = RulesModel;

    closed spec fn view(&self) -> RulesModel {
        RulesModel {
            valid: valid_set_of(self.valid_ascii_mask@),
            esc: esc_entries(self.encode_map),
            sub: sub_entries(self.replace_map),
            inv: inv_entries(self.invalid_set),
            max_sub: self.output_buffer_max_len as nat,
        }
    }
}

/// The model of the compiler's working state.
pub open spec fn state_model(
    masks: Seq<u32>,
    encode_map: FnvHashMap<u32, bool>,
    replace_map: FnvHashMap<u32, &'static str>,
    invalid_set: FnvHashSet<u32>,
    largest: usize,
) -> RulesModel {
    RulesModel {
        valid: valid_set_of(masks),
        esc: esc_entries(encode_map),
        sub: sub_entries(replace_map),
        inv: inv_entries(invalid_set),
        max_sub: largest as nat,
    }
}

/// Facts about single bits in 32-bit words: every word of all-ones has every
/// bit set; a code point below 256 selects one of eight words; clearing one
/// bit leaves exactly the other bits; and a (word, bit) pair determines the
/// code point.
proof fn lemma_mask_words()
    by (bit_vector)
    ensures
        forall|j: u32| 0xFFFF_FFFFu32 & (#[trigger] (1u32 << (j & 31))) != 0,
        forall|cp: u32| cp < 256 ==> (#[trigger] (cp >> 5u32)) < 8,
        forall|w: u32, j: u32, k: u32|
            ((#[trigger] ((w & !(1u32 << (j & 31))) & (1u32 << (k & 31)))) != 0) == ((w & (1u32 << (
            k & 31)) != 0) && (j & 31) != (k & 31)),
        forall|j: u32, k: u32|
            ((#[trigger] (j >> 5u32)) == (#[trigger] (k >> 5u32)) && (j & 31) == (k & 31)) ==> j
                == k,
{
}

/// Clearing the bit of `cp` in its bucket removes exactly `cp` from the
/// valid set.
proof fn lemma_clear_bit(masks: Seq<u32>, cp: u32)
    requires
        masks.len() == 8,
        cp < 256,
    ensures
        valid_set_of(
            masks.update((cp >> 5u32) as int, masks[(cp >> 5u32) as int] & !(1u32 << (cp & 31))),
        ) == valid_set_of(masks).remove(cp),
{
    lemma_mask_words();
    let b = (cp >> 5u32) as int;
    let m2 = masks.update(b, masks[b] & !(1u32 << (cp & 31)));
    assert forall|k: u32| #[trigger]
        valid_set_of(m2).contains(k) == valid_set_of(masks).remove(cp).contains(k) by {
        if k < 256 {
            let bk = (k >> 5u32) as int;
            if bk == b {
                assert((k >> 5u32) == (cp >> 5u32));
                if (k & 31) == (cp & 31) {
                    assert(k == cp);
                }
            } else {
                assert(m2[bk] == masks[bk]);
            }
        }
    }
    assert(valid_set_of(m2) =~= valid_set_of(masks).remove(cp));
}

/// All mask bits set means every code point below 256 is valid.
proof fn lemma_all_bits_set(masks: Seq<u32>)
    requires
        masks.len() == 8,
        forall|i: int| 0 <= i < 8 ==> masks[i] == 0xFFFF_FFFFu32,
    ensures
        valid_set_of(masks) == Set::new(|cp: u32| cp < 256),
{
    lemma_mask_words();
    assert forall|k: u32| #[trigger] valid_set_of(masks).contains(k) == (k < 256) by {
        if k < 256 {
            assert((k >> 5u32) < 8);
            assert(masks[(k >> 5u32) as int] == 0xFFFF_FFFFu32);
            assert(0xFFFF_FFFFu32 & (1u32 << (k & 31)) != 0);
        }
    }
    assert(valid_set_of(masks) =~= Set::new(|cp: u32| cp < 256));
}

/// Whether the exclusion list holds the character with code point `cp`.
fn is_excluded(exclude: &Option<Vec<char>>, cp: u32) -> (r: bool)
    ensures
        r == excluded(*exclude, cp),
{
    match exclude.as_ref() {
        None => false,
        Some(v) => {
            let n = v.len();
            for j in 0..n
                invariant
                    n == v@.len(),
                    *exclude matches Some(vv) && vv@ == v@,
                    forall|k: int| 0 <= k < j ==> ((#[trigger] v@[k]) as u32) != cp,
            {
                if v[j] as u32 == cp {
                    proof {
                        assert(0 <= j < v@.len() && (v@[j as int]) as u32 == cp);
                    }
                    return true;
                }
            }
            false
        },
    }
}

/// Records one action for one code point in the compiler's working state.
fn apply_action_exec(
    valid_mask: &mut [u32; 8],
    encode_map: &mut FnvHashMap<u32, bool>,
    replace_map: &mut FnvHashMap<u32, &'static str>,
    invalid_set: &mut FnvHashSet<u32>,
    largest: &mut usize,
    cp: u32,
    rule_type: &RuleType,
)
    ensures
        state_model(
            final(valid_mask)@,
            *final(encode_map),
            *final(replace_map),
            *final(invalid_set),
            *final(largest),
        ) == apply_action(
            state_model(
                old(valid_mask)@,
                *old(encode_map),
                *old(replace_map),
                *old(invalid_set),
                *old(largest),
            ),
            cp,
            *rule_type,
        ),
{
    if cp < 256 {
        proof {
            lemma_mask_words();
            assert(cp & 31 < 32) by (bit_vector);
        }
        let bucket = (cp >> 5u32) as usize;
        valid_mask[bucket] = valid_mask[bucket] & !(1u32 << (cp & 31));
        proof {
            lemma_clear_bit(old(valid_mask)@, cp);
        }
    }
    match rule_type {
        RuleType::Esc(simple) => {
            esc_map_insert(encode_map, cp, *simple);
            sub_map_remove(replace_map, cp);
            inv_set_remove(invalid_set, cp);
        },
        RuleType::Sub(replace_string) => {
            let l = (*replace_string).unicode_len();
            if l > *largest {
                *largest = l;
            }
            esc_map_remove(encode_map, cp);
            sub_map_insert(replace_map, cp, *replace_string);
            inv_set_remove(invalid_set, cp);
        },
        RuleType::Inv => {
            esc_map_remove(encode_map, cp);
            sub_map_remove(replace_map, cp);
            inv_set_insert(invalid_set, cp);
        },
    }
    proof {
        assert(state_model(
            final(valid_mask)@,
            *final(encode_map),
            *final(replace_map),
            *final(invalid_set),
            *final(largest),
        ) =~= apply_action(
            state_model(
                old(valid_mask)@,
                *old(encode_map),
                *old(replace_map),
                *old(invalid_set),
                *old(largest),
            ),
            cp,
            *rule_type,
        ));
    }
}

/// Folds an array of rules into an optimized artifact: every mask bit
/// starts set; each rule clears the bits of the code points it rules (below
/// 256) and records its action in the matching map, tracking the longest
/// substitution for buffer sizing.  Large ranges are linear in their size,
/// a cost paid once at construction.
pub fn compile_encoder_rules(rules: Vec<Rule>) -> (r: CompiledEncoderRules)
    requires
        rules_wf(rules@),
    ensures
        r@ == compile_model(rules@),
{
    let mut valid_mask: [u32; 8] = [
        u32::MAX,
        u32::MAX,
        u32::MAX,
        u32::MAX,
        u32::MAX,
        u32::MAX,
        u32::MAX,
        u32::MAX,
    ];
    let mut encode_map = esc_map_new();
    let mut replace_map = sub_map_new();
    let mut invalid_set = inv_set_new();
    let mut largest: usize = 1;
    proof {
        lemma_all_bits_set(valid_mask@);
        assert(esc_entries(encode_map) =~= Map::<u32, bool>::empty());
        assert(sub_entries(replace_map) =~= Map::<u32, Seq<char>>::empty());
        assert(inv_entries(invalid_set) =~= Set::<u32>::empty());
        assert(state_model(valid_mask@, encode_map, replace_map, invalid_set, largest)
            =~= initial_rules_model());
    }
    let n = rules.len();
    proof {
        assert(rules@.skip(0) =~= rules@);
    }
    for i in 0..n
        invariant
            n == rules@.len(),
            rules_wf(rules@),
            compile_onto(
                state_model(valid_mask@, encode_map, replace_map, invalid_set, largest),
                rules@.skip(i as int),
            ) == compile_model(rules@),
    {
        let ghost entry = state_model(valid_mask@, encode_map, replace_map, invalid_set, largest);
        proof {
            assert(rules@.skip(i as int)[0] == rules@[i as int]);
            assert(rules@.skip(i as int).drop_first() =~= rules@.skip(i as int + 1));
        }
        match &rules[i] {
            Rule::Range { start_character, end_character, exclude, rule_type } => {
                let start = *start_character as u32;
                let end = *end_character as u32;
                let mut cp = start;
                while cp <= end
                    invariant
                        end <= 0x10FFFF,
                        cp <= end + 1,
                        compile_onto(
                            apply_range(
                                state_model(
                                    valid_mask@,
                                    encode_map,
                                    replace_map,
                                    invalid_set,
                                    largest,
                                ),
                                cp as int,
                                end as int,
                                *exclude,
                                *rule_type,
                            ),
                            rules@.skip(i as int + 1),
                        ) == compile_model(rules@),
                    decreases end - cp + 1,
                {
                    let ghost before = state_model(
                        valid_mask@,
                        encode_map,
                        replace_map,
                        invalid_set,
                        largest,
                    );
                    let surrogate = 0xD800 <= cp && cp < 0xE000;
                    if !surrogate && !is_excluded(exclude, cp) {
                        apply_action_exec(
                            &mut valid_mask,
                            &mut encode_map,
                            &mut replace_map,
                            &mut invalid_set,
                            &mut largest,
                            cp,
                            rule_type,
                        );
                    }
                    proof {
                        assert(state_model(valid_mask@, encode_map, replace_map, invalid_set, largest)
                            == apply_range_step(before, cp, *exclude, *rule_type));
                    }
                    cp = cp + 1;
                }
            },
            Rule::Uni { ch, rt } => {
                apply_action_exec(
                    &mut valid_mask,
                    &mut encode_map,
                    &mut replace_map,
                    &mut invalid_set,
                    &mut largest,
                    *ch as u32,
                    rt,
                );
                proof {
                    assert(state_model(valid_mask@, encode_map, replace_map, invalid_set, largest)
                        == apply_rule(entry, rules@[i as int]));
                }
            },
        }
    }
    proof {
        assert(rules@.skip(n as int) =~= Seq::<Rule>::empty());
    }
    let r = CompiledEncoderRules {
        valid_ascii_mask: valid_mask,
        replace_map,
        encode_map,
        invalid_set,
        output_buffer_max_len: largest,
    };
    proof {
        assert(r@ =~= compile_model(rules@));
    }
    r
}

/// What the generic policy step emits for `c`: a substitution, then an
/// escape (two hex digits up to 0xFF, four above), then the invalid
/// placeholder, and otherwise whatever the [`ValidAsciiRange`] allows.
pub open spec fn generic_policy_encode(
    m: RulesModel,
    policy: ValidAsciiRange,
    lead: char,
    invalid: char,
    c: char,
) -> Seq<char> {
    let cp = c as u32;
    if m.sub.contains_key(cp) {
        m.sub[cp]
    } else if m.esc.contains_key(cp) {
        if cp <= 0xFF {
            hex_byte_escape(lead, cp)
        } else {
            unicode_escape(lead, cp)
        }
    } else if m.inv.contains(cp) {
        seq![invalid]
    } else {
        match policy {
            ValidAsciiRange::NoRestrict => seq![c],
            ValidAsciiRange::ASCIIExtended => if cp <= 0xFF {
                seq![c]
            } else {
                unicode_escape(lead, cp)
            },
            ValidAsciiRange::ASCII => if cp <= 0xFF {
                hex_byte_escape(lead, cp)
            } else {
                unicode_escape(lead, cp)
            },
        }
    }
}

/// What the engine emits for one character `c`.  Below code point 256, a
/// cleared mask bit selects the recorded rule (escape first, then
/// substitution, then invalidation) and a missing record falls through to
/// the generic policy step; a set bit passes the character through, except
/// that the `ASCII` policy sends code points of 127 and above through the
/// generic step as well.  From 256 upward, the generic step decides.
pub open spec fn encode_char_rules(
    m: RulesModel,
    policy: ValidAsciiRange,
    lead: char,
    invalid: char,
    c: char,
) -> Seq<char> {
    let cp = c as u32;
    if cp < 256 {
        if !m.valid.contains(cp) {
            if m.esc.contains_key(cp) {
                if m.esc[cp] {
                    seq![lead, c]
                } else if cp <= 0xFF {
                    hex_byte_escape(lead, cp)
                } else {
                    unicode_escape(lead, cp)
                }
            } else if m.sub.contains_key(cp) {
                m.sub[cp]
            } else if m.inv.contains(cp) {
                seq![invalid]
            } else {
                generic_policy_encode(m, policy, lead, invalid, c)
            }
        } else if policy is ASCII && cp >= 127 {
            generic_policy_encode(m, policy, lead, invalid, c)
        } else {
            seq![c]
        }
    } else {
        generic_policy_encode(m, policy, lead, invalid, c)
    }
}

/// The whole encoding: the concatenation of each character's encoding.
pub open spec fn encode_seq_rules(
    m: RulesModel,
    policy: ValidAsciiRange,
    lead: char,
    invalid: char,
    s: Seq<char>,
) -> Seq<char>
    decreases s.len(),
{
    if s.len() == 0 {
        Seq::empty()
    } else {
        encode_seq_rules(m, policy, lead, invalid, s.drop_last()) + encode_char_rules(
            m,
            policy,
            lead,
            invalid,
            s.last(),
        )
    }
}

/// The generic policy step: substitution, then hex or unicode escape, then
/// the invalid placeholder, then whatever the policy allows.
fn encode_generic(
    compiled: &CompiledEncoderRules,
    policy: &ValidAsciiRange,
    escape_char: char,
    invalid_char: char,
    c: char,
    output: &mut String,
)
    ensures
        final(output)@ == old(output)@ + generic_policy_encode(
            compiled@,
            *policy,
            escape_char,
            invalid_char,
            c,
        ),
{
    let cp = c as u32;
    match sub_map_get(&compiled.replace_map, cp) {
        Some(replace) => {
            output.append(replace);
        },
        None => {
            if esc_map_get(&compiled.encode_map, cp).is_some() {
                if cp <= 0xFF {
                    encode_as_hex_byte(escape_char, output, c);
                } else {
                    encode_as_unicode(escape_char, output, c);
                }
            } else if inv_set_contains(&compiled.invalid_set, cp) {
                push_char(output, invalid_char);
            } else {
                match policy {
                    ValidAsciiRange::NoRestrict => {
                        push_char(output, c);
                    },
                    ValidAsciiRange::ASCIIExtended => {
                        if cp <= 0xFF {
                            push_char(output, c);
                        } else {
                            encode_as_unicode(escape_char, output, c);
                        }
                    },
                    ValidAsciiRange::ASCII => {
                        if cp <= 0xFF {
                            encode_as_hex_byte(escape_char, output, c);
                        } else {
                            encode_as_unicode(escape_char, output, c);
                        }
                    },
                }
            }
        },
    }
}

/// Encodes one character onto the output.
fn encode_one(
    compiled: &CompiledEncoderRules,
    policy: &ValidAsciiRange,
    escape_char: char,
    invalid_char: char,
    c: char,
    output: &mut String,
)
    ensures
        final(output)@ == old(output)@ + encode_char_rules(
            compiled@,
            *policy,
            escape_char,
            invalid_char,
            c,
        ),
{
    let cp = c as u32;
    if cp < 256 {
        let bucket = char_bucket(c);
        let mask = char_mask(c);
        proof {
            assert(cp < 256 ==> (cp >> 5u32) < 8) by (bit_vector);
        }
        if compiled.valid_ascii_mask[bucket] & mask == 0 {
            match esc_map_get(&compiled.encode_map, cp) {
                Some(simple) => {
                    if simple {
                        push_char(output, escape_char);
                        push_char(output, c);
                        proof {
                            assert(final(output)@ =~= old(output)@ + seq![escape_char, c]);
                        }
                    } else if cp <= 0xFF {
                        encode_as_hex_byte(escape_char, output, c);
                    } else {
                        encode_as_unicode(escape_char, output, c);
                    }
                },
                None => {
                    match sub_map_get(&compiled.replace_map, cp) {
                        Some(replace) => {
                            output.append(replace);
                        },
                        None => {
                            if inv_set_contains(&compiled.invalid_set, cp) {
                                push_char(output, invalid_char);
                                proof {
                                    assert(final(output)@ =~= old(output)@ + seq![invalid_char]);
                                }
                            } else {
                                encode_generic(
                                    compiled,
                                    policy,
                                    escape_char,
                                    invalid_char,
                                    c,
                                    output,
                                );
                            }
                        },
                    }
                },
            }
        } else {
            let restrict_ascii = match policy {
                ValidAsciiRange::ASCII => true,
                _ => false,
            };
            if restrict_ascii && cp >= 127 {
                encode_generic(compiled, policy, escape_char, invalid_char, c, output);
            } else {
                push_char(output, c);
                proof {
                    assert(final(output)@ =~= old(output)@ + seq![c]);
                }
            }
        }
    } else {
        encode_generic(compiled, policy, escape_char, invalid_char, c, output);
    }
}

/// The encoding engine: walks the input once and, per character, consults
/// the compiled artifact to pass it through, substitute it, escape it, or
/// replace it with the invalid placeholder; the policy governs everything
/// no rule intercepts.  The output buffer is pre-sized from the sizing
/// hint, capped, and shrunk to fit before return.
pub fn encode(
    compiled: &CompiledEncoderRules,
    policy: &ValidAsciiRange,
    escape_char: char,
    invalid_char: char,
    input: &str,
) -> (out: String)
    ensures
        out@ == encode_seq_rules(compiled@, *policy, escape_char, invalid_char, input@),
{
    let chars = str_chars(input);
    let cap: usize = match compiled.output_buffer_max_len.checked_mul(input.len()) {
        Some(p) => if p > 0x7FFF_FFFF {
            0x7FFF_FFFF
        } else {
            p
        },
        None => 0x7FFF_FFFF,
    };
    let mut output = string_with_capacity(cap);
    let n = chars.len();
    for i in 0..n
        invariant
            n == chars@.len(),
            chars@ == input@,
            output@ == encode_seq_rules(
                compiled@,
                *policy,
                escape_char,
                invalid_char,
                input@.take(i as int),
            ),
    {
        let c = chars[i];
        encode_one(compiled, policy, escape_char, invalid_char, c, &mut output);
        proof {
            let pre = input@.take(i as int);
            let now = input@.take(i + 1);
            assert(now.drop_last() =~= pre);
            assert(now.last() == c);
        }
    }
    proof {
        assert(input@.take(n as int) =~= input@);
    }
    shrink_string(&mut output);
    output
}

/// An encoder: an immutable compiled artifact, the two scalar parameters,
/// and the policy, with the one operation every profile exposes.  The spec
/// functions name the model each method's contract speaks of.
pub trait Encoder<C: Sized>: Sized {
    /// The model of the compiled rules the encoder carries.
    spec fn rules_model(&self) -> RulesModel;

    /// The escape lead character the encoder was created with.
    spec fn spec_escape_char(&self) -> char;

    /// The placeholder character for invalidated characters.
    spec fn spec_invalid_char(&self) -> char;

    /// The policy the encoder was created with.
    spec fn spec_ascii_properties(&self) -> ValidAsciiRange;

    /// The model that creation with this configuration compiles to.
    spec fn created_rules(config: C) -> RulesModel;

    /// The placeholder character that creation with this configuration
    /// chooses.
    spec fn created_invalid_char(config: C) -> char;

    /// Compiles a set of rules into the optimized artifact; provided once
    /// for every encoder.
    fn compile_encoder_rules(rules: Vec<Rule>) -> (r: CompiledEncoderRules)
        requires
            rules_wf(rules@),
        ensures
            r@ == compile_model(rules@),
    {
        compile_encoder_rules(rules)
    }

    /// Creates an encoder from the escape lead, the policy, and the
    /// profile's configuration.
    fn create(escape_char: char, valid_ascii_range: ValidAsciiRange, config: C) -> (r: Self)
        ensures
            r.rules_model() == Self::created_rules(config),
            r.spec_escape_char() == escape_char,
            r.spec_invalid_char() == Self::created_invalid_char(config),
            r.spec_ascii_properties() == valid_ascii_range,
    ;

    fn compiled_rules(&self) -> (r: &CompiledEncoderRules)
        ensures
            r@ == self.rules_model(),
    ;

    fn escape_char(&self) -> (c: char)
        ensures
            c == self.spec_escape_char(),
    ;

    fn invalid_char(&self) -> (c: char)
        ensures
            c == self.spec_invalid_char(),
    ;

    fn ascii_properties(&self) -> (r: &ValidAsciiRange)
        ensures
            *r == self.spec_ascii_properties(),
    ;

    /// Encodes the input according to the encoder's compiled rules and
    /// policy.
    fn encode(&self, input: &str) -> (out: String)
        ensures
            out@ == encode_seq_rules(
                self.rules_model(),
                self.spec_ascii_properties(),
                self.spec_escape_char(),
                self.spec_invalid_char(),
                input@,
            ),
    ;
}

} // verus!
