//! Save-time validation of a write rule and its conditions, the value-mode
//! normalization applied before persisting, and the vocabulary the rule
//! table accepts. The cross-table lookups (target type, copy-source type,
//! each condition's source type) are done by the caller and passed in
//! resolved; the write-loop check lives in [`crate::write_cycle`].

use vstd::prelude::*;
use vstd::string::*;

use crate::error::{append_errors, error_views, push_error, FieldError};
use crate::support::{
    max_length_message, max_length_text, required_message, required_text, sjis_error_spec,
    sjis_text_error,
};
use crate::text::{char_count, int_decimal, push_i64, str_eq, trim, trim_spec};
use crate::write_rule_conditions::{
    condition_errors_spec, field, validate_condition_input, ConditionFacts, SourceTagKind, text_view,
};

verus! {

/// The longest rule name, in characters.
pub const MAX_NAME_LEN: usize = 100;

/// A row's `(data_type, string_length)` as resolved at save time.
pub struct TypeMeta {
    pub data_type: String,
    pub string_length: Option<i64>,
}

/// The data type that marks a string tag or target.
pub open spec fn string_data_type() -> Seq<char> {
    "string"@
}

/// The validation shape of a resolved row: a string row gets its length
/// (a missing length counts as zero), anything else is numeric.
pub open spec fn kind_spec(m: TypeMeta) -> SourceTagKind {
    if m.data_type@ == string_data_type() {
        SourceTagKind::Str {
            length: match m.string_length {
                Some(l) => l,
                None => 0,
            },
        }
    } else {
        SourceTagKind::Numeric
    }
}

/// The validation shape of a resolved row.
pub fn kind_of(m: &TypeMeta) -> (r: SourceTagKind)
    ensures
        r == kind_spec(*m),
{
    if str_eq(m.data_type.as_str(), "string") {
        SourceTagKind::Str {
            length: match m.string_length {
                Some(l) => l,
                None => 0,
            },
        }
    } else {
        SourceTagKind::Numeric
    }
}

/// The optional shape of an optionally resolved row.
pub open spec fn opt_kind(m: Option<TypeMeta>) -> Option<SourceTagKind> {
    match m {
        Some(x) => Some(kind_spec(x)),
        None => None,
    }
}

fn opt_kind_of(m: &Option<TypeMeta>) -> (r: Option<SourceTagKind>)
    ensures
        r == opt_kind(*m),
{
    match m {
        Some(x) => Some(kind_of(x)),
        None => None,
    }
}

/// The edge modes a rule may use.
pub open spec fn allowed_edge_mode(s: Seq<char>) -> bool {
    s == "rising"@ || s == "falling"@ || s == "change"@
}

/// The write-value modes a rule may use.
pub open spec fn allowed_value_mode(s: Seq<char>) -> bool {
    s == "constant"@ || s == "copy_from_source"@
}

/// A rule create/update payload, as validation reads it.
pub struct RuleDraft {
    pub name: String,
    pub enabled: bool,
    pub edge_mode: String,
    pub cooldown_ms: Option<i64>,
    pub write_target_id: i64,
    pub write_value_mode: String,
    /// `writeConstantValue` is set.
    pub has_write_constant_value: bool,
    pub write_constant_text: Option<String>,
    pub write_source_tag_id: Option<i64>,
    pub conditions: Vec<ConditionFacts>,
}

/// What the caller looked up for a draft: the write target's type, the copy
/// source's type (consulted only for a copy rule that names one), and each
/// condition's source type, in condition order (`None` = no such row).
pub struct ResolvedRefs {
    pub target: Option<TypeMeta>,
    pub copy_source: Option<TypeMeta>,
    pub condition_sources: Vec<Option<TypeMeta>>,
}

/// The name errors.
pub open spec fn name_errors_spec(name: Seq<char>) -> Seq<(Seq<char>, Seq<char>)> {
    let t = trim_spec(name);
    if t.len() == 0 {
        seq![("name"@, required_text())]
    } else if t.len() > 100 {
        seq![("name"@, max_length_text(100))]
    } else {
        Seq::empty()
    }
}

/// The value-mode errors, given the target's shape.
pub open spec fn value_errors_spec(d: RuleDraft, target: Option<SourceTagKind>, copy_source: Option<TypeMeta>) -> Seq<(Seq<char>, Seq<char>)> {
    let mode = d.write_value_mode@;
    if mode == "constant"@ {
        match target {
            Some(SourceTagKind::Str { length }) => {
                let e1 = if d.has_write_constant_value {
                    seq![("writeConstantValue"@, "文字列書き込み先には数値定数は設定できません"@)]
                } else {
                    Seq::empty()
                };
                let e2 = match text_view(d.write_constant_text) {
                    None => seq![("writeConstantText"@, "定数書き込みには書き込む文字列が必要です"@)],
                    Some(t) => if t.len() == 0 {
                        seq![("writeConstantText"@, "定数書き込みには書き込む文字列が必要です"@)]
                    } else {
                        match sjis_error_spec(t, length) {
                            Some(m) => seq![("writeConstantText"@, m)],
                            None => Seq::empty(),
                        }
                    },
                };
                e1 + e2
            },
            Some(SourceTagKind::Numeric) => {
                let e1 = if d.write_constant_text is Some {
                    seq![("writeConstantText"@, "数値書き込み先には文字列定数は設定できません"@)]
                } else {
                    Seq::empty()
                };
                let e2 = if !d.has_write_constant_value {
                    seq![("writeConstantValue"@, "定数書き込みには書き込む値が必要です"@)]
                } else {
                    Seq::empty()
                };
                e1 + e2
            },
            None => Seq::empty(),
        }
    } else if mode == "copy_from_source"@ {
        match d.write_source_tag_id {
            None => seq![("writeSourceTagId"@, "ソース値のコピーには参照元タグが必要です"@)],
            Some(_) => match copy_source {
                None => seq![("writeSourceTagId"@, "指定された参照元タグが見つかりません"@)],
                Some(sm) => match (kind_spec(sm), target) {
                    (SourceTagKind::Str { length: src }, Some(SourceTagKind::Str { length: tgt })) => if tgt < src {
                        seq![
                            (
                                "writeSourceTagId"@,
                                "コピー先の文字列長（"@ + int_decimal(tgt as int) + "語）がコピー元（"@ + int_decimal(
                                    src as int,
                                ) + "語）より短いため、コピーできません"@,
                            ),
                        ]
                    } else {
                        Seq::empty()
                    },
                    (SourceTagKind::Str { .. }, Some(SourceTagKind::Numeric)) => seq![
                        ("writeSourceTagId"@, "文字列タグの値を数値書き込み先へはコピーできません"@),
                    ],
                    (SourceTagKind::Numeric, Some(SourceTagKind::Str { .. })) => seq![
                        ("writeSourceTagId"@, "数値タグの値を文字列書き込み先へはコピーできません"@),
                    ],
                    _ => Seq::empty(),
                },
            },
        }
    } else {
        seq![("writeValueMode"@, "対応書き込みモードは constant, copy_from_source のいずれかです"@)]
    }
}

/// The errors of conditions `0..n`, in order: a missing source tag, then
/// that row's own violations.
pub open spec fn conditions_errors_spec(
    cs: Seq<ConditionFacts>,
    metas: Seq<Option<TypeMeta>>,
    n: nat,
) -> Seq<(Seq<char>, Seq<char>)>
    decreases n,
{
    if n == 0 {
        Seq::empty()
    } else {
        let i = (n - 1) as nat;
        let missing = if metas[i as int] is None {
            seq![(crate::write_rule_conditions::condition_field(i, "sourceTagId"@), "指定されたソースタグが見つかりません"@)]
        } else {
            Seq::empty()
        };
        conditions_errors_spec(cs, metas, i) + missing + condition_errors_spec(cs[i as int], i, opt_kind(metas[i as int]))
    }
}

/// Every violation of a rule draft except the write-loop check, in report
/// order: name, edge mode, cooldown, target, value mode, conditions.
pub open spec fn rule_errors_spec(d: RuleDraft, refs: ResolvedRefs) -> Seq<(Seq<char>, Seq<char>)> {
    rule_errors_of(d, refs.target, refs.copy_source, refs.condition_sources@)
}

/// [`rule_errors_spec`] over the looked-up types given one by one.
pub open spec fn rule_errors_of(
    d: RuleDraft,
    target_meta: Option<TypeMeta>,
    copy_source: Option<TypeMeta>,
    condition_sources: Seq<Option<TypeMeta>>,
) -> Seq<(Seq<char>, Seq<char>)> {
    let edge = if !allowed_edge_mode(d.edge_mode@) {
        seq![("edgeMode"@, "対応エッジモードは rising, falling, change のいずれかです"@)]
    } else {
        Seq::empty()
    };
    let cooldown = match d.cooldown_ms {
        Some(c) => if c < 0 {
            seq![("cooldownMs"@, "クールダウンは0以上にしてください"@)]
        } else {
            Seq::empty()
        },
        None => Seq::empty(),
    };
    let target = if target_meta is None {
        seq![("writeTargetId"@, "指定された書き込み先が見つかりません"@)]
    } else {
        Seq::empty()
    };
    let empty = if d.conditions@.len() == 0 {
        seq![("conditions"@, "条件を1つ以上設定してください"@)]
    } else {
        Seq::empty()
    };
    name_errors_spec(d.name@) + edge + cooldown + target + value_errors_spec(d, opt_kind(target_meta), copy_source)
        + empty + conditions_errors_spec(d.conditions@, condition_sources, d.conditions@.len())
}

fn name_errors(errors: &mut Vec<FieldError>, name: &str)
    ensures
        error_views(final(errors)@) == error_views(old(errors)@) + name_errors_spec(name@),
{
    let t = trim(name);
    let n = char_count(t.as_str());
    let ghost before = error_views(errors@);
    if n == 0 {
        push_error(errors, String::from_str("name"), required_message());
    } else if n > MAX_NAME_LEN {
        push_error(errors, String::from_str("name"), max_length_message(MAX_NAME_LEN));
    }
    proof {
        assert(error_views(errors@) =~= before + name_errors_spec(name@));
    }
}

fn value_errors(errors: &mut Vec<FieldError>, d: &RuleDraft, target: Option<SourceTagKind>, copy_source: &Option<TypeMeta>)
    ensures
        error_views(final(errors)@) == error_views(old(errors)@) + value_errors_spec(*d, target, *copy_source),
{
    let ghost before = error_views(errors@);
    let mode = d.write_value_mode.as_str();
    if str_eq(mode, "constant") {
        match target {
            Some(SourceTagKind::Str { length }) => {
                if d.has_write_constant_value {
                    push_error(
                        errors,
                        String::from_str("writeConstantValue"),
                        String::from_str("文字列書き込み先には数値定数は設定できません"),
                    );
                }
                match &d.write_constant_text {
                    None => {
                        push_error(
                            errors,
                            String::from_str("writeConstantText"),
                            String::from_str("定数書き込みには書き込む文字列が必要です"),
                        );
                    },
                    Some(text) => {
                        if text.as_str().unicode_len() == 0 {
                            push_error(
                                errors,
                                String::from_str("writeConstantText"),
                                String::from_str("定数書き込みには書き込む文字列が必要です"),
                            );
                        } else {
                            match sjis_text_error(text.as_str(), length) {
                                Some(m) => {
                                    push_error(errors, String::from_str("writeConstantText"), m);
                                },
                                None => {},
                            }
                        }
                    },
                }
            },
            Some(SourceTagKind::Numeric) => {
                if d.write_constant_text.is_some() {
                    push_error(
                        errors,
                        String::from_str("writeConstantText"),
                        String::from_str("数値書き込み先には文字列定数は設定できません"),
                    );
                }
                if !d.has_write_constant_value {
                    push_error(
                        errors,
                        String::from_str("writeConstantValue"),
                        String::from_str("定数書き込みには書き込む値が必要です"),
                    );
                }
            },
            None => {},
        }
    } else if str_eq(mode, "copy_from_source") {
        match d.write_source_tag_id {
            None => {
                push_error(
                    errors,
                    String::from_str("writeSourceTagId"),
                    String::from_str("ソース値のコピーには参照元タグが必要です"),
                );
            },
            Some(_) => match copy_source {
                None => {
                    push_error(
                        errors,
                        String::from_str("writeSourceTagId"),
                        String::from_str("指定された参照元タグが見つかりません"),
                    );
                },
                Some(sm) => match (kind_of(sm), target) {
                    (SourceTagKind::Str { length: src }, Some(SourceTagKind::Str { length: tgt })) => {
                        if tgt < src {
                            let mut m = String::from_str("コピー先の文字列長（");
                            push_i64(&mut m, tgt);
                            m.append("語）がコピー元（");
                            push_i64(&mut m, src);
                            m.append("語）より短いため、コピーできません");
                            push_error(errors, String::from_str("writeSourceTagId"), m);
                        }
                    },
                    (SourceTagKind::Str { .. }, Some(SourceTagKind::Numeric)) => {
                        push_error(
                            errors,
                            String::from_str("writeSourceTagId"),
                            String::from_str("文字列タグの値を数値書き込み先へはコピーできません"),
                        );
                    },
                    (SourceTagKind::Numeric, Some(SourceTagKind::Str { .. })) => {
                        push_error(
                            errors,
                            String::from_str("writeSourceTagId"),
                            String::from_str("数値タグの値を文字列書き込み先へはコピーできません"),
                        );
                    },
                    _ => {},
                },
            },
        }
    } else {
        push_error(
            errors,
            String::from_str("writeValueMode"),
            String::from_str("対応書き込みモードは constant, copy_from_source のいずれかです"),
        );
    }
    proof {
        assert(error_views(errors@) =~= before + value_errors_spec(*d, target, *copy_source));
    }
}

/// Collects every violation of a rule draft except the write-loop check
/// (which runs afterwards, for enabled rules only).
pub fn collect_rule_errors(d: &RuleDraft, refs: &ResolvedRefs) -> (r: Vec<FieldError>)
    requires
        refs.condition_sources@.len() == d.conditions@.len(),
    ensures
        error_views(r@) == rule_errors_spec(*d, *refs),
{
    let mut errors: Vec<FieldError> = Vec::new();
    name_errors(&mut errors, d.name.as_str());
    let e = d.edge_mode.as_str();
    if !(str_eq(e, "rising") || str_eq(e, "falling") || str_eq(e, "change")) {
        push_error(
            &mut errors,
            String::from_str("edgeMode"),
            String::from_str("対応エッジモードは rising, falling, change のいずれかです"),
        );
    }
    match d.cooldown_ms {
        Some(c) => {
            if c < 0 {
                push_error(&mut errors, String::from_str("cooldownMs"), String::from_str("クールダウンは0以上にしてください"));
            }
        },
        None => {},
    }
    if refs.target.is_none() {
        push_error(&mut errors, String::from_str("writeTargetId"), String::from_str("指定された書き込み先が見つかりません"));
    }
    let target_kind = opt_kind_of(&refs.target);
    value_errors(&mut errors, d, target_kind, &refs.copy_source);
    if d.conditions.len() == 0 {
        push_error(&mut errors, String::from_str("conditions"), String::from_str("条件を1つ以上設定してください"));
    }
    let ghost head = error_views(errors@);
    let mut i: usize = 0;
    while i < d.conditions.len()
        invariant
            i <= d.conditions@.len(),
            refs.condition_sources@.len() == d.conditions@.len(),
            error_views(errors@) == head + conditions_errors_spec(d.conditions@, refs.condition_sources@, i as nat),
        decreases d.conditions@.len() - i,
    {
        let ghost before = error_views(errors@);
        if refs.condition_sources[i].is_none() {
            push_error(&mut errors, field(i, "sourceTagId"), String::from_str("指定されたソースタグが見つかりません"));
        }
        let k = opt_kind_of(&refs.condition_sources[i]);
        let row = validate_condition_input(&d.conditions[i], i, k);
        append_errors(&mut errors, row);
        proof {
            assert(error_views(errors@) =~= head + conditions_errors_spec(
                d.conditions@,
                refs.condition_sources@,
                (i + 1) as nat,
            ));
        }
        i = i + 1;
    }
    proof {
        assert(error_views(errors@) =~= rule_errors_spec(*d, *refs));
    }
    errors
}

/// Which value-mode columns a rule persists: only those matching its mode
/// (the others are cleared), all of them for an unknown mode.
pub struct NormalizedValue<C> {
    pub constant_value: Option<C>,
    pub constant_text: Option<String>,
    pub source_tag_id: Option<i64>,
}

/// Keeps only the columns of the selected write-value mode: a constant rule
/// keeps its constants and drops the copy source, a copy rule keeps its copy
/// source and drops the constants; an unknown mode keeps everything.
pub fn normalize<C>(
    write_value_mode: &str,
    constant_value: Option<C>,
    constant_text: Option<String>,
    source_tag_id: Option<i64>,
) -> (r: NormalizedValue<C>)
    ensures
        write_value_mode@ == "constant"@ ==> r.constant_value == constant_value && r.constant_text == constant_text
            && r.source_tag_id is None,
        write_value_mode@ == "copy_from_source"@ ==> r.constant_value is None && r.constant_text is None
            && r.source_tag_id == source_tag_id,
        !allowed_value_mode(write_value_mode@) ==> r.constant_value == constant_value && r.constant_text
            == constant_text && r.source_tag_id == source_tag_id,
{
    proof {
        reveal_strlit("constant");
        reveal_strlit("copy_from_source");
        assert("constant"@[2] != "copy_from_source"@[2]);
        assert("constant"@ != "copy_from_source"@);
    }
    if str_eq(write_value_mode, "constant") {
        NormalizedValue { constant_value, constant_text, source_tag_id: None }
    } else if str_eq(write_value_mode, "copy_from_source") {
        NormalizedValue { constant_value: None, constant_text: None, source_tag_id }
    } else {
        NormalizedValue { constant_value, constant_text, source_tag_id }
    }
}

/// The upper threshold a condition row persists: only `between` keeps it.
pub fn persisted_upper<C>(operator: &str, threshold_value_2: Option<C>) -> (r: Option<C>)
    ensures
        r == if operator@ == "between"@ { threshold_value_2 } else { None },
{
    if str_eq(operator, "between") {
        threshold_value_2
    } else {
        None
    }
}

} // verus!
