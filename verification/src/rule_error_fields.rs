//! Which fields the validation of a write rule draft or a write target draft
//! reports, and when: each field of the form gets an error exactly when its
//! own rule is broken, whatever else is wrong with the draft (all errors are
//! reported together).

use vstd::prelude::*;
use vstd::string::*;

use crate::text::{digit_char, nat_digits, trim_spec};
use crate::write_rule_conditions::{
    allowed_operator, condition_errors_spec, law_saved_operators_are_the_compiled_ones, condition_field, text_view, ConditionFacts, SourceTagKind,
};
use crate::write_rules::{
    allowed_edge_mode, allowed_value_mode, conditions_errors_spec, kind_spec, name_errors_spec, opt_kind,
    rule_errors_of, value_errors_spec, RuleDraft, TypeMeta,
};
use crate::support::sjis_error_spec;
use crate::write_targets::{target_errors_spec, TargetDraft};

verus! {

/// `errs` holds an error for the field `f`.
pub open spec fn reports(errs: Seq<(Seq<char>, Seq<char>)>, f: Seq<char>) -> bool {
    exists|k: int| 0 <= k < errs.len() && (#[trigger] errs[k]).0 == f
}

/// An error list joined from two reports a field when either part does.
pub broadcast proof fn lemma_reports_concat(a: Seq<(Seq<char>, Seq<char>)>, b: Seq<(Seq<char>, Seq<char>)>, f: Seq<char>)
    ensures
        #[trigger] reports(a + b, f) <==> (reports(a, f) || reports(b, f)),
{
    if reports(a + b, f) {
        let k = choose|k: int| 0 <= k < (a + b).len() && (#[trigger] (a + b)[k]).0 == f;
        if k < a.len() {
            assert(a[k] == (a + b)[k]);
        } else {
            assert(b[k - a.len()] == (a + b)[k]);
        }
    }
    if reports(a, f) {
        let k = choose|k: int| 0 <= k < a.len() && (#[trigger] a[k]).0 == f;
        assert((a + b)[k] == a[k]);
    }
    if reports(b, f) {
        let k = choose|k: int| 0 <= k < b.len() && (#[trigger] b[k]).0 == f;
        assert((a + b)[k + a.len()] == b[k]);
    }
}

/// A single error reports exactly its own field.
pub broadcast proof fn lemma_reports_one(x: Seq<char>, m: Seq<char>, f: Seq<char>)
    ensures
        #[trigger] reports(seq![(x, m)], f) <==> x == f,
{
    if x == f {
        assert(seq![(x, m)][0].0 == f);
    }
}

/// No error reports no field.
pub broadcast proof fn lemma_reports_empty(f: Seq<char>)
    ensures
        !#[trigger] reports(Seq::<(Seq<char>, Seq<char>)>::empty(), f),
{
}

/// Decimal digits are never empty and never hold a dot.
proof fn lemma_digits_shape(n: nat)
    ensures
        nat_digits(n).len() >= 1,
        forall|k: int| 0 <= k < nat_digits(n).len() ==> #[trigger] nat_digits(n)[k] != '.',
    decreases n,
{
    if n >= 10 {
        lemma_digits_shape((n / 10) as nat);
        let p = nat_digits((n / 10) as nat);
        assert forall|k: int| 0 <= k < nat_digits(n).len() implies #[trigger] nat_digits(n)[k] != '.' by {
            if k < p.len() {
                assert(nat_digits(n)[k] == p[k]);
            }
        }
    }
}

/// Different digits are different characters.
proof fn lemma_digit_char_injective(x: int, y: int)
    requires
        0 <= x < 10,
        0 <= y < 10,
        digit_char(x) == digit_char(y),
    ensures
        x == y,
{
}

/// Different numbers have different digits.
proof fn lemma_digits_injective(a: nat, b: nat)
    requires
        nat_digits(a) == nat_digits(b),
    ensures
        a == b,
    decreases a,
{
    if a < 10 && b < 10 {
        assert(nat_digits(a)[0] == digit_char(a as int));
        assert(nat_digits(b)[0] == digit_char(b as int));
        lemma_digit_char_injective(a as int, b as int);
    } else if a < 10 {
        lemma_digits_shape((b / 10) as nat);
        assert(nat_digits(b).len() >= 2);
        assert(nat_digits(a).len() == 1);
    } else if b < 10 {
        lemma_digits_shape((a / 10) as nat);
        assert(nat_digits(a).len() >= 2);
        assert(nat_digits(b).len() == 1);
    } else {
        let pa = nat_digits((a / 10) as nat);
        let pb = nat_digits((b / 10) as nat);
        assert(pa =~= nat_digits(a).drop_last());
        assert(pb =~= nat_digits(b).drop_last());
        assert(digit_char((a % 10) as int) == nat_digits(a).last());
        assert(digit_char((b % 10) as int) == nat_digits(b).last());
        lemma_digit_char_injective((a % 10) as int, (b % 10) as int);
        assert(a % 10 == b % 10);
        lemma_digits_injective((a / 10) as nat, (b / 10) as nat);
        assert(a / 10 == b / 10);
        assert(a == 10 * (a / 10) + a % 10);
        assert(b == 10 * (b / 10) + b % 10);
    }
}

/// A condition field names one row and one field: `conditions.{i}.{x}`
/// equals `conditions.{j}.{y}` only when `i == j` and `x == y`.
pub proof fn lemma_condition_field_injective(i: nat, j: nat, x: Seq<char>, y: Seq<char>)
    requires
        condition_field(i, x) == condition_field(j, y),
    ensures
        i == j,
        x == y,
{
    reveal_strlit("conditions.");
    reveal_strlit(".");
    let a = nat_digits(i);
    let b = nat_digits(j);
    lemma_digits_shape(i);
    lemma_digits_shape(j);
    let s = condition_field(i, x);
    let t = condition_field(j, y);
    assert(s =~= "conditions."@ + a + seq!['.'] + x);
    assert(t =~= "conditions."@ + b + seq!['.'] + y);
    if a.len() < b.len() {
        assert(s[11 + a.len() as int] == '.');
        assert(t[11 + a.len() as int] == b[a.len() as int]);
    } else if b.len() < a.len() {
        assert(t[11 + b.len() as int] == '.');
        assert(s[11 + b.len() as int] == a[b.len() as int]);
    }
    assert(a =~= s.subrange(11, 11 + a.len() as int));
    assert(b =~= t.subrange(11, 11 + b.len() as int));
    lemma_digits_injective(i, j);
    assert(x =~= s.subrange(12 + a.len() as int, s.len() as int));
    assert(y =~= t.subrange(12 + b.len() as int, t.len() as int));
}

/// A condition field is at least 13 characters longer than its field name.
proof fn lemma_condition_field_len(i: nat, x: Seq<char>)
    ensures
        condition_field(i, x).len() >= x.len() + 13,
{
    reveal_strlit("conditions.");
    reveal_strlit(".");
    lemma_digits_shape(i);
}

/// One condition row's errors name only its own row's fields, never its
/// `sourceTagId`, and no field shorter than 21 characters.
proof fn lemma_condition_row_fields(c: ConditionFacts, index: nat, kind: Option<SourceTagKind>)
    ensures
        forall|j: nat| !reports(condition_errors_spec(c, index, kind), #[trigger] condition_field(j, "sourceTagId"@)),
        forall|t: Seq<char>| t.len() < 21 ==> !reports(condition_errors_spec(c, index, kind), t),
{
    broadcast use lemma_reports_concat, lemma_reports_one, lemma_reports_empty;

    reveal_strlit("operator");
    reveal_strlit("thresholdText");
    reveal_strlit("thresholdValue");
    reveal_strlit("thresholdValue2");
    reveal_strlit("sourceTagId");
    lemma_condition_field_len(index, "operator"@);
    lemma_condition_field_len(index, "thresholdText"@);
    lemma_condition_field_len(index, "thresholdValue"@);
    lemma_condition_field_len(index, "thresholdValue2"@);
    let e = condition_errors_spec(c, index, kind);
    assert forall|j: nat| !reports(e, #[trigger] condition_field(j, "sourceTagId"@)) by {
        let s = condition_field(j, "sourceTagId"@);
        if condition_field(index, "operator"@) == s {
            lemma_condition_field_injective(index, j, "operator"@, "sourceTagId"@);
        }
        if condition_field(index, "thresholdText"@) == s {
            lemma_condition_field_injective(index, j, "thresholdText"@, "sourceTagId"@);
        }
        if condition_field(index, "thresholdValue"@) == s {
            lemma_condition_field_injective(index, j, "thresholdValue"@, "sourceTagId"@);
        }
        if condition_field(index, "thresholdValue2"@) == s {
            lemma_condition_field_injective(index, j, "thresholdValue2"@, "sourceTagId"@);
        }
    }
}

/// The conditions' errors: no field shorter than 21 characters, and row
/// `i`'s `sourceTagId` exactly when its source tag is missing.
proof fn lemma_conditions_fields(cs: Seq<ConditionFacts>, metas: Seq<Option<TypeMeta>>, n: nat)
    ensures
        forall|t: Seq<char>| t.len() < 21 ==> !reports(conditions_errors_spec(cs, metas, n), t),
        forall|j: nat|
            j >= n ==> !reports(conditions_errors_spec(cs, metas, n), #[trigger] condition_field(j, "sourceTagId"@)),
        forall|i: nat|
            i < n ==> (reports(conditions_errors_spec(cs, metas, n), #[trigger] condition_field(i, "sourceTagId"@))
                <==> metas[i as int] is None),
    decreases n,
{
    broadcast use lemma_reports_concat, lemma_reports_one, lemma_reports_empty;

    if n > 0 {
        let m = (n - 1) as nat;
        reveal_strlit("sourceTagId");
        lemma_conditions_fields(cs, metas, m);
        lemma_condition_row_fields(cs[m as int], m, opt_kind(metas[m as int]));
        lemma_condition_field_len(m, "sourceTagId"@);
        let prev = conditions_errors_spec(cs, metas, m);
        let row = condition_errors_spec(cs[m as int], m, opt_kind(metas[m as int]));
        let missing = if metas[m as int] is None {
            seq![(condition_field(m, "sourceTagId"@), "指定されたソースタグが見つかりません"@)]
        } else {
            Seq::empty()
        };
        assert(conditions_errors_spec(cs, metas, n) == prev + missing + row);
        assert forall|j: nat| j >= n implies !reports(
            conditions_errors_spec(cs, metas, n),
            #[trigger] condition_field(j, "sourceTagId"@),
        ) by {
            if condition_field(m, "sourceTagId"@) == condition_field(j, "sourceTagId"@) {
                lemma_condition_field_injective(m, j, "sourceTagId"@, "sourceTagId"@);
            }
        }
        assert forall|i: nat| i < n implies (reports(
            conditions_errors_spec(cs, metas, n),
            #[trigger] condition_field(i, "sourceTagId"@),
        ) <==> metas[i as int] is None) by {
            if i < m && condition_field(m, "sourceTagId"@) == condition_field(i, "sourceTagId"@) {
                lemma_condition_field_injective(m, i, "sourceTagId"@, "sourceTagId"@);
            }
        }
    }
}

/// The lengths of the rule form's own field names (the only two of equal
/// length differ).
proof fn lemma_rule_field_names()
    ensures
        "name"@.len() == 4,
        "edgeMode"@.len() == 8,
        "cooldownMs"@.len() == 10,
        "conditions"@.len() == 10,
        "writeTargetId"@.len() == 13,
        "writeValueMode"@.len() == 14,
        "writeSourceTagId"@.len() == 16,
        "writeConstantText"@.len() == 17,
        "writeConstantValue"@.len() == 18,
        "cooldownMs"@ != "conditions"@,
{
    reveal_strlit("name");
    reveal_strlit("edgeMode");
    reveal_strlit("cooldownMs");
    reveal_strlit("writeTargetId");
    reveal_strlit("writeValueMode");
    reveal_strlit("conditions");
    reveal_strlit("writeConstantValue");
    reveal_strlit("writeConstantText");
    reveal_strlit("writeSourceTagId");
    assert("cooldownMs"@[2] != "conditions"@[2]);
}

/// The value-mode errors name only the value fields: `writeValueMode` for
/// an unknown mode, else the constant or the copy-source fields.
proof fn lemma_value_fields(d: RuleDraft, target: Option<SourceTagKind>, copy_source: Option<TypeMeta>, f: Seq<char>)
    requires
        reports(value_errors_spec(d, target, copy_source), f),
    ensures
        f == "writeValueMode"@ || f == "writeConstantValue"@ || f == "writeConstantText"@ || f
            == "writeSourceTagId"@,
{
    broadcast use lemma_reports_concat, lemma_reports_one, lemma_reports_empty;

}

/// The text constant a string target refuses: none, empty, or not fitting
/// its words in Shift-JIS.
pub open spec fn constant_text_refused(text: Option<Seq<char>>, words: i64) -> bool {
    match text {
        None => true,
        Some(t) => t.len() == 0 || sjis_error_spec(t, words) is Some,
    }
}

/// The copy source a resolved target refuses: none named, none found, a
/// string into a number or a number into a string, or a string into a
/// shorter string.
pub open spec fn copy_refused(source_id: Option<i64>, source: Option<TypeMeta>, target: SourceTagKind) -> bool {
    match (source_id, source) {
        (None, _) => true,
        (Some(_), None) => true,
        (Some(_), Some(sm)) => match (kind_spec(sm), target) {
            (SourceTagKind::Str { length: src }, SourceTagKind::Str { length: tgt }) => tgt < src,
            (SourceTagKind::Numeric, SourceTagKind::Numeric) => false,
            _ => true,
        },
    }
}

/// A rule draft's errors name each field of the form exactly when its own
/// rule is broken, all reported together: `name` when the trimmed name is
/// empty or over 100 characters; `edgeMode` for an edge mode other than
/// rising, falling or change; `cooldownMs` for a negative cooldown;
/// `writeTargetId` when the target is missing; `writeValueMode` for a mode
/// other than constant or copy_from_source; `conditions` when there are
/// none; `conditions.{i}.sourceTagId` when row `i`'s source tag is missing.
pub proof fn law_rule_errors_by_field(
    d: RuleDraft,
    target_meta: Option<TypeMeta>,
    copy_source: Option<TypeMeta>,
    condition_sources: Seq<Option<TypeMeta>>,
)
    ensures
        ({
            let e = rule_errors_of(d, target_meta, copy_source, condition_sources);
            &&& reports(e, "name"@) <==> (trim_spec(d.name@).len() == 0 || trim_spec(d.name@).len() > 100)
            &&& reports(e, "edgeMode"@) <==> !allowed_edge_mode(d.edge_mode@)
            &&& reports(e, "cooldownMs"@) <==> (d.cooldown_ms matches Some(c) && c < 0)
            &&& reports(e, "writeTargetId"@) <==> target_meta is None
            &&& reports(e, "writeValueMode"@) <==> !allowed_value_mode(d.write_value_mode@)
            &&& reports(e, "conditions"@) <==> d.conditions@.len() == 0
            &&& forall|i: nat|
                i < d.conditions@.len() ==> (reports(e, #[trigger] condition_field(i, "sourceTagId"@))
                    <==> condition_sources[i as int] is None)
        }),
{
    broadcast use lemma_reports_concat, lemma_reports_one, lemma_reports_empty;

    lemma_rule_field_names();
    let n = d.conditions@.len();
    lemma_conditions_fields(d.conditions@, condition_sources, n);
    let v = value_errors_spec(d, opt_kind(target_meta), copy_source);
    if reports(v, "name"@) {
        lemma_value_fields(d, opt_kind(target_meta), copy_source, "name"@);
    }
    if reports(v, "edgeMode"@) {
        lemma_value_fields(d, opt_kind(target_meta), copy_source, "edgeMode"@);
    }
    if reports(v, "cooldownMs"@) {
        lemma_value_fields(d, opt_kind(target_meta), copy_source, "cooldownMs"@);
    }
    if reports(v, "writeTargetId"@) {
        lemma_value_fields(d, opt_kind(target_meta), copy_source, "writeTargetId"@);
    }
    if reports(v, "conditions"@) {
        lemma_value_fields(d, opt_kind(target_meta), copy_source, "conditions"@);
    }
    assert forall|i: nat| i < n implies (reports(
        rule_errors_of(d, target_meta, copy_source, condition_sources),
        #[trigger] condition_field(i, "sourceTagId"@),
    ) <==> condition_sources[i as int] is None) by {
        let f = condition_field(i, "sourceTagId"@);
        reveal_strlit("sourceTagId");
        lemma_condition_field_len(i, "sourceTagId"@);
        if reports(v, f) {
            lemma_value_fields(d, opt_kind(target_meta), copy_source, f);
        }
    }
}

/// Only the value-mode errors can name a value field.
proof fn lemma_value_field_only_from_value_errors(
    d: RuleDraft,
    target_meta: Option<TypeMeta>,
    copy_source: Option<TypeMeta>,
    condition_sources: Seq<Option<TypeMeta>>,
    f: Seq<char>,
)
    requires
        f == "writeConstantValue"@ || f == "writeConstantText"@ || f == "writeSourceTagId"@,
    ensures
        reports(rule_errors_of(d, target_meta, copy_source, condition_sources), f) <==> reports(
            value_errors_spec(d, opt_kind(target_meta), copy_source),
            f,
        ),
{
    broadcast use lemma_reports_concat, lemma_reports_one, lemma_reports_empty;

    lemma_rule_field_names();
    lemma_conditions_fields(d.conditions@, condition_sources, d.conditions@.len());
}

/// With a constant to write and a resolved target: a string target of
/// `length` words reports `writeConstantValue` exactly when a numeric
/// constant is set, and `writeConstantText` exactly when the text is
/// missing, empty, or does not fit in Shift-JIS; a numeric target reports
/// `writeConstantText` exactly when a text is set, and `writeConstantValue`
/// exactly when no value is.
pub proof fn law_constant_mode_errors(
    d: RuleDraft,
    target: TypeMeta,
    copy_source: Option<TypeMeta>,
    condition_sources: Seq<Option<TypeMeta>>,
)
    requires
        d.write_value_mode@ == "constant"@,
    ensures
        ({
            let e = rule_errors_of(d, Some(target), copy_source, condition_sources);
            match kind_spec(target) {
                SourceTagKind::Str { length } => {
                    &&& reports(e, "writeConstantValue"@) <==> d.has_write_constant_value
                    &&& reports(e, "writeConstantText"@) <==> constant_text_refused(
                        text_view(d.write_constant_text),
                        length,
                    )
                },
                SourceTagKind::Numeric => {
                    &&& reports(e, "writeConstantText"@) <==> d.write_constant_text is Some
                    &&& reports(e, "writeConstantValue"@) <==> !d.has_write_constant_value
                },
            }
        }),
{
    broadcast use lemma_reports_concat, lemma_reports_one, lemma_reports_empty;

    lemma_rule_field_names();
    lemma_value_field_only_from_value_errors(d, Some(target), copy_source, condition_sources, "writeConstantValue"@);
    lemma_value_field_only_from_value_errors(d, Some(target), copy_source, condition_sources, "writeConstantText"@);
}

/// Copying from a source into a resolved target reports `writeSourceTagId`
/// exactly when [`copy_refused`] holds: no source named, none found, a
/// string into a number or a number into a string, or a string into a
/// shorter string. A number into a number, or a string into a string at
/// least as long, adds no error there.
pub proof fn law_copy_mode_errors(
    d: RuleDraft,
    target: TypeMeta,
    copy_source: Option<TypeMeta>,
    condition_sources: Seq<Option<TypeMeta>>,
)
    requires
        d.write_value_mode@ == "copy_from_source"@,
    ensures
        reports(rule_errors_of(d, Some(target), copy_source, condition_sources), "writeSourceTagId"@)
            <==> copy_refused(d.write_source_tag_id, copy_source, kind_spec(target)),
{
    broadcast use lemma_reports_concat, lemma_reports_one, lemma_reports_empty;

    reveal_strlit("constant");
    reveal_strlit("copy_from_source");
    lemma_rule_field_names();
    lemma_value_field_only_from_value_errors(d, Some(target), copy_source, condition_sources, "writeSourceTagId"@);
    assert(d.write_value_mode@ != "constant"@) by {
        assert("copy_from_source"@.len() != "constant"@.len());
    }
    let v = value_errors_spec(d, opt_kind(Some(target)), copy_source);
    match (d.write_source_tag_id, copy_source) {
        (None, _) => {
            assert(v == seq![("writeSourceTagId"@, "ソース値のコピーには参照元タグが必要です"@)]);
        },
        (Some(_), None) => {
            assert(v == seq![("writeSourceTagId"@, "指定された参照元タグが見つかりません"@)]);
        },
        (Some(_), Some(sm)) => {
            match (kind_spec(sm), kind_spec(target)) {
                (SourceTagKind::Str { length: src }, SourceTagKind::Str { length: tgt }) => {
                    if tgt < src {
                        assert(v.len() == 1 && v[0].0 == "writeSourceTagId"@);
                        assert(v =~= seq![(v[0].0, v[0].1)]);
                    } else {
                        assert(v == Seq::<(Seq<char>, Seq<char>)>::empty());
                    }
                },
                (SourceTagKind::Str { .. }, SourceTagKind::Numeric) => {
                    assert(v == seq![("writeSourceTagId"@, "文字列タグの値を数値書き込み先へはコピーできません"@)]);
                },
                (SourceTagKind::Numeric, SourceTagKind::Str { .. }) => {
                    assert(v == seq![("writeSourceTagId"@, "数値タグの値を文字列書き込み先へはコピーできません"@)]);
                },
                (SourceTagKind::Numeric, SourceTagKind::Numeric) => {
                    assert(v == Seq::<(Seq<char>, Seq<char>)>::empty());
                },
            }
        },
    }
}

/// A write target draft's errors name each of its own fields exactly when
/// its rule is broken (given that the registry's scaling verdict does not
/// itself name that field): `name` when the trimmed name is empty or over
/// 100 characters, `address` when the trimmed address is empty, `dataType`
/// for a type outside the registry's list, `decimals` outside 0..=6,
/// `plcConnectionId` when the connection is missing.
pub proof fn law_target_errors_by_field(
    d: TargetDraft,
    allowed: Seq<Seq<char>>,
    scaling: Seq<(Seq<char>, Seq<char>)>,
    connection_exists: bool,
)
    ensures
        ({
            let e = target_errors_spec(d, allowed, scaling, connection_exists);
            &&& !reports(scaling, "name"@) ==> (reports(e, "name"@) <==> (trim_spec(d.name@).len() == 0
                || trim_spec(d.name@).len() > 100))
            &&& !reports(scaling, "address"@) ==> (reports(e, "address"@) <==> trim_spec(d.address@).len() == 0)
            &&& !reports(scaling, "dataType"@) ==> (reports(e, "dataType"@) <==> !allowed.contains(d.data_type@))
            &&& !reports(scaling, "decimals"@) ==> (reports(e, "decimals"@) <==> !(0 <= d.decimals <= 6))
            &&& !reports(scaling, "plcConnectionId"@) ==> (reports(e, "plcConnectionId"@) <==> !connection_exists)
        }),
{
    broadcast use lemma_reports_concat, lemma_reports_one, lemma_reports_empty;

    reveal_strlit("name");
    reveal_strlit("address");
    reveal_strlit("dataType");
    reveal_strlit("decimals");
    reveal_strlit("plcConnectionId");
    assert("name"@.len() == 4);
    assert("address"@.len() == 7);
    assert("dataType"@.len() == 8 && "decimals"@.len() == 8);
    assert("plcConnectionId"@.len() == 15);
    assert("dataType"@[1] != "decimals"@[1]);
}

/// The fields of one condition row differ when their names do.
proof fn lemma_row_fields_differ(index: nat)
    ensures
        condition_field(index, "operator"@) != condition_field(index, "thresholdText"@),
        condition_field(index, "operator"@) != condition_field(index, "thresholdValue"@),
        condition_field(index, "operator"@) != condition_field(index, "thresholdValue2"@),
        condition_field(index, "thresholdText"@) != condition_field(index, "thresholdValue"@),
        condition_field(index, "thresholdText"@) != condition_field(index, "thresholdValue2"@),
        condition_field(index, "thresholdValue"@) != condition_field(index, "thresholdValue2"@),
{
    reveal_strlit("operator");
    reveal_strlit("thresholdText");
    reveal_strlit("thresholdValue");
    reveal_strlit("thresholdValue2");
    assert("operator"@.len() == 8);
    assert("thresholdText"@.len() == 13);
    assert("thresholdValue"@.len() == 14);
    assert("thresholdValue2"@.len() == 15);
    let o = "operator"@;
    let t = "thresholdText"@;
    let v = "thresholdValue"@;
    let w = "thresholdValue2"@;
    if condition_field(index, o) == condition_field(index, t) {
        lemma_condition_field_injective(index, index, o, t);
    }
    if condition_field(index, o) == condition_field(index, v) {
        lemma_condition_field_injective(index, index, o, v);
    }
    if condition_field(index, o) == condition_field(index, w) {
        lemma_condition_field_injective(index, index, o, w);
    }
    if condition_field(index, t) == condition_field(index, v) {
        lemma_condition_field_injective(index, index, t, v);
    }
    if condition_field(index, t) == condition_field(index, w) {
        lemma_condition_field_injective(index, index, t, w);
    }
    if condition_field(index, v) == condition_field(index, w) {
        lemma_condition_field_injective(index, index, v, w);
    }
}

/// One condition row's errors name each of its fields exactly when its rule
/// is broken: `operator` for an unknown operator, or on a string source for
/// one other than eq/neq. With a known operator on a numeric source:
/// `thresholdText` when a text is set, `thresholdValue` when it is missing
/// or is not 0/1 for `bit_is`, `thresholdValue2` for `between` without an
/// upper bound or with both bounds set and the upper below the lower. On a
/// string source: `thresholdValue` when either number is set,
/// `thresholdText` when the text is missing, empty or does not fit its
/// words in Shift-JIS.
pub proof fn law_condition_errors_by_field(c: ConditionFacts, index: nat, kind: Option<SourceTagKind>)
    ensures
        ({
            let e = condition_errors_spec(c, index, kind);
            let op = c.operator@;
            &&& reports(e, condition_field(index, "operator"@)) <==> (!allowed_operator(op) || (kind matches Some(
                SourceTagKind::Str { .. },
            ) && !(op == "eq"@ || op == "neq"@)))
            &&& (allowed_operator(op) && kind == Some(SourceTagKind::Numeric)) ==> {
                &&& reports(e, condition_field(index, "thresholdText"@)) <==> c.threshold_text is Some
                &&& reports(e, condition_field(index, "thresholdValue"@)) <==> (!c.has_threshold_value || (op
                    == "bit_is"@ && c.threshold_not_bit))
                &&& reports(e, condition_field(index, "thresholdValue2"@)) <==> (op == "between"@ && (
                !c.has_threshold_value_2 || (c.has_threshold_value && c.bounds_inverted)))
            }
            &&& allowed_operator(op) ==> (kind matches Some(SourceTagKind::Str { length }) ==> {
                &&& reports(e, condition_field(index, "thresholdValue"@)) <==> (c.has_threshold_value
                    || c.has_threshold_value_2)
                &&& reports(e, condition_field(index, "thresholdText"@)) <==> constant_text_refused(
                    text_view(c.threshold_text),
                    length,
                )
                &&& !reports(e, condition_field(index, "thresholdValue2"@))
            })
        }),
{
    broadcast use lemma_reports_concat, lemma_reports_one, lemma_reports_empty;

    lemma_row_fields_differ(index);
}

/// A condition row's operator is refused exactly when it is none of the
/// eight comparison names, or, on a string source, neither `eq` nor `neq`:
/// a numeric row using `lte` (or any other of the eight) never gets an
/// operator error.
pub proof fn law_operator_error_only_for_unknown_operators(c: ConditionFacts, index: nat, kind: Option<SourceTagKind>)
    ensures
        ({
            let op = c.operator@;
            let known = op == "eq"@ || op == "neq"@ || op == "gt"@ || op == "gte"@ || op == "lt"@ || op == "lte"@
                || op == "between"@ || op == "bit_is"@;
            let reported = reports(condition_errors_spec(c, index, kind), condition_field(index, "operator"@));
            &&& !(kind matches Some(SourceTagKind::Str { .. })) ==> (reported <==> !known)
            &&& kind matches Some(SourceTagKind::Str { .. }) ==> (reported <==> !(op == "eq"@ || op == "neq"@))
        }),
{
    law_condition_errors_by_field(c, index, kind);
    law_saved_operators_are_the_compiled_ones(c.operator@);
}

} // verus!
