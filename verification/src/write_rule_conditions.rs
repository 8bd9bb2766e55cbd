//! Per-row validation of a write rule's AND-combined conditions. What a row
//! may hold depends on its source tag's resolved type:
//! - numeric/bit source: any operator; `thresholdValue` required
//!   (`thresholdValue2` too for `between`, not below the lower bound);
//!   `bit_is` takes 0 or 1; no text comparand;
//! - string source: `eq`/`neq` only; a non-empty, Shift-JIS-encodable text
//!   comparand that fits the tag's byte span; no numeric thresholds.
//! An unresolved source (`None`) gets only the type-independent checks.
//!
//! Numeric comparands are given as the facts validation reads (presence, and
//! the two comparisons), computed by the caller from the values.

use vstd::prelude::*;
use vstd::string::*;

use crate::error::{error_views, push_error, FieldError};
use crate::support::{sjis_error_spec, sjis_text_error};
use crate::rule_engine::{law_operator_parse_round_trip, operator_of, operator_text, Operator};
use crate::text::{nat_digits, push_u64, str_eq};

verus! {

/// A condition source tag's shape, as far as validation cares.
#[derive(Clone, Copy, PartialEq, Eq, Debug, Structural)]
pub enum SourceTagKind {
    /// Any numeric or bit data type.
    Numeric,
    /// A string tag with its registered length in words.
    Str { length: i64 },
}

/// One condition row of a rule form, as validation reads it.
pub struct ConditionFacts {
    pub source_tag_id: i64,
    pub operator: String,
    /// `thresholdValue` is set.
    pub has_threshold_value: bool,
    /// `thresholdValue2` is set.
    pub has_threshold_value_2: bool,
    /// The lower threshold exceeds the upper. Read only when both are set:
    /// with either one missing there is no pair of bounds to invert.
    pub bounds_inverted: bool,
    /// `thresholdValue` is set and is neither 0 nor 1.
    pub threshold_not_bit: bool,
    pub threshold_text: Option<String>,
}

impl ConditionFacts {
    /// Is this the `between` operator, the one that keeps `thresholdValue2`?
    pub fn is_between(&self) -> (r: bool)
        ensures
            r == (self.operator@ == "between"@),
    {
        str_eq(self.operator.as_str(), "between")
    }
}

/// The operators a condition may use.
pub open spec fn allowed_operator(op: Seq<char>) -> bool {
    op == "eq"@ || op == "neq"@ || op == "gt"@ || op == "gte"@ || op == "lt"@ || op == "lte"@ || op
        == "between"@ || op == "bit_is"@
}

/// Whether `op` is one of the allowed operators.
pub fn is_allowed_operator(op: &str) -> (r: bool)
    ensures
        r == allowed_operator(op@),
        r == (operator_of(op@) is Some),
{
    proof {
        law_saved_operators_are_the_compiled_ones(op@);
    }
    str_eq(op, "eq") || str_eq(op, "neq") || str_eq(op, "gt") || str_eq(op, "gte") || str_eq(op, "lt")
        || str_eq(op, "lte") || str_eq(op, "between") || str_eq(op, "bit_is")
}

/// A condition row accepts exactly the eight comparison names `eq`, `neq`,
/// `gt`, `gte`, `lt`, `lte`, `between` and `bit_is`: exactly the names the
/// engine's compiler parses into an operator, so every saved condition
/// compiles and no other does.
pub proof fn law_saved_operators_are_the_compiled_ones(op: Seq<char>)
    ensures
        allowed_operator(op) <==> (op == "eq"@ || op == "neq"@ || op == "gt"@ || op == "gte"@ || op == "lt"@
            || op == "lte"@ || op == "between"@ || op == "bit_is"@),
        allowed_operator(op) <==> operator_of(op) is Some,
        allowed_operator(op) <==> exists|o: Operator| #[trigger] operator_text(o) == op,
{
    law_operator_parse_round_trip(Operator::Eq, op);
    if allowed_operator(op) {
        let o = operator_of(op)->0;
        assert(operator_text(o) == op);
    }
    if exists|o: Operator| #[trigger] operator_text(o) == op {
        let o = choose|o: Operator| #[trigger] operator_text(o) == op;
        law_operator_parse_round_trip(o, op);
    }
}

/// The field name of one condition row's field: `conditions.{index}.{name}`.
pub open spec fn condition_field(index: nat, name: Seq<char>) -> Seq<char> {
    "conditions."@ + nat_digits(index) + "."@ + name
}

/// Builds `conditions.{index}.{name}`.
pub fn field(index: usize, name: &str) -> (r: String)
    ensures
        r@ == condition_field(index as nat, name@),
{
    let mut s = String::from_str("conditions.");
    push_u64(&mut s, index as u64);
    s.append(".");
    s.append(name);
    s
}

/// The view of the facts validation reads.
pub open spec fn text_view(t: Option<String>) -> Option<Seq<char>> {
    match t {
        Some(s) => Some(s@),
        None => None,
    }
}

/// Every violation of one condition row, in report order.
pub open spec fn condition_errors_spec(
    c: ConditionFacts,
    index: nat,
    kind: Option<SourceTagKind>,
) -> Seq<(Seq<char>, Seq<char>)> {
    let op = c.operator@;
    if !allowed_operator(op) {
        seq![
            (
                condition_field(index, "operator"@),
                "対応演算子は eq, neq, gt, gte, lt, lte, between, bit_is のいずれかです"@,
            ),
        ]
    } else {
        match kind {
            None => Seq::empty(),
            Some(SourceTagKind::Numeric) => {
                let e1 = if c.threshold_text is Some {
                    seq![
                        (
                            condition_field(index, "thresholdText"@),
                            "数値タグの条件にはテキストしきい値は設定できません"@,
                        ),
                    ]
                } else {
                    Seq::empty()
                };
                let e2 = if !c.has_threshold_value {
                    seq![(condition_field(index, "thresholdValue"@), "必須項目です"@)]
                } else {
                    Seq::empty()
                };
                let e3 = if op == "between"@ {
                    if !c.has_threshold_value_2 {
                        seq![
                            (
                                condition_field(index, "thresholdValue2"@),
                                "between には上限値（2つ目のしきい値）が必要です"@,
                            ),
                        ]
                    } else if c.has_threshold_value && c.bounds_inverted {
                        seq![(condition_field(index, "thresholdValue2"@), "上限値は下限値以上にしてください"@)]
                    } else {
                        Seq::empty()
                    }
                } else {
                    Seq::empty()
                };
                let e4 = if op == "bit_is"@ && c.threshold_not_bit {
                    seq![
                        (
                            condition_field(index, "thresholdValue"@),
                            "bit_is のしきい値は 0 または 1 にしてください"@,
                        ),
                    ]
                } else {
                    Seq::empty()
                };
                e1 + e2 + e3 + e4
            },
            Some(SourceTagKind::Str { length }) => {
                let e1 = if !(op == "eq"@ || op == "neq"@) {
                    seq![
                        (
                            condition_field(index, "operator"@),
                            "文字列タグの条件で使える演算子は eq, neq のみです"@,
                        ),
                    ]
                } else {
                    Seq::empty()
                };
                let e2 = if c.has_threshold_value || c.has_threshold_value_2 {
                    seq![
                        (
                            condition_field(index, "thresholdValue"@),
                            "文字列タグの条件には数値しきい値は設定できません"@,
                        ),
                    ]
                } else {
                    Seq::empty()
                };
                let e3 = match text_view(c.threshold_text) {
                    None => seq![(condition_field(index, "thresholdText"@), "必須項目です"@)],
                    Some(t) => if t.len() == 0 {
                        seq![(condition_field(index, "thresholdText"@), "必須項目です"@)]
                    } else {
                        match sjis_error_spec(t, length) {
                            Some(m) => seq![(condition_field(index, "thresholdText"@), m)],
                            None => Seq::empty(),
                        }
                    },
                };
                e1 + e2 + e3
            },
        }
    }
}

/// Validates one condition row, collecting every violation. `index` places
/// the errors within the rule form's condition list; `kind` is the row's
/// resolved source tag shape (`None` = unresolved).
pub fn validate_condition_input(
    input: &ConditionFacts,
    index: usize,
    kind: Option<SourceTagKind>,
) -> (r: Vec<FieldError>)
    ensures
        error_views(r@) == condition_errors_spec(*input, index as nat, kind),
{
    let mut errors: Vec<FieldError> = Vec::new();
    let op = input.operator.as_str();
    if !is_allowed_operator(op) {
        push_error(
            &mut errors,
            field(index, "operator"),
            String::from_str("対応演算子は eq, neq, gt, gte, lt, lte, between, bit_is のいずれかです"),
        );
        proof {
            assert(error_views(errors@) =~= condition_errors_spec(*input, index as nat, kind));
        }
        return errors;
    }
    match kind {
        None => {
            proof {
                assert(error_views(errors@) =~= condition_errors_spec(*input, index as nat, kind));
            }
        },
        Some(SourceTagKind::Numeric) => {
            if input.threshold_text.is_some() {
                push_error(
                    &mut errors,
                    field(index, "thresholdText"),
                    String::from_str("数値タグの条件にはテキストしきい値は設定できません"),
                );
            }
            if !input.has_threshold_value {
                push_error(&mut errors, field(index, "thresholdValue"), String::from_str("必須項目です"));
            }
            if input.is_between() {
                if !input.has_threshold_value_2 {
                    push_error(
                        &mut errors,
                        field(index, "thresholdValue2"),
                        String::from_str("between には上限値（2つ目のしきい値）が必要です"),
                    );
                } else if input.has_threshold_value && input.bounds_inverted {
                    push_error(
                        &mut errors,
                        field(index, "thresholdValue2"),
                        String::from_str("上限値は下限値以上にしてください"),
                    );
                }
            }
            if str_eq(op, "bit_is") && input.threshold_not_bit {
                push_error(
                    &mut errors,
                    field(index, "thresholdValue"),
                    String::from_str("bit_is のしきい値は 0 または 1 にしてください"),
                );
            }
            proof {
                assert(error_views(errors@) =~= condition_errors_spec(*input, index as nat, kind));
            }
        },
        Some(SourceTagKind::Str { length }) => {
            if !(str_eq(op, "eq") || str_eq(op, "neq")) {
                push_error(
                    &mut errors,
                    field(index, "operator"),
                    String::from_str("文字列タグの条件で使える演算子は eq, neq のみです"),
                );
            }
            if input.has_threshold_value || input.has_threshold_value_2 {
                push_error(
                    &mut errors,
                    field(index, "thresholdValue"),
                    String::from_str("文字列タグの条件には数値しきい値は設定できません"),
                );
            }
            match &input.threshold_text {
                None => {
                    push_error(&mut errors, field(index, "thresholdText"), String::from_str("必須項目です"));
                },
                Some(text) => {
                    if text.as_str().unicode_len() == 0 {
                        push_error(&mut errors, field(index, "thresholdText"), String::from_str("必須項目です"));
                    } else {
                        match sjis_text_error(text.as_str(), length) {
                            Some(message) => {
                                push_error(&mut errors, field(index, "thresholdText"), message);
                            },
                            None => {},
                        }
                    }
                },
            }
            proof {
                assert(error_views(errors@) =~= condition_errors_spec(*input, index as nat, kind));
            }
        },
    }
    errors
}

} // verus!
