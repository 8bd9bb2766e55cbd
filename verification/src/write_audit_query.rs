//! Listing the write audit log: the wire-name to column mapping that
//! filters and sorts may name, and the default order (newest first).

use vstd::prelude::*;
use vstd::string::*;

use crate::text::str_eq;

verus! {

/// The sortable and filterable columns, as `(wire name, column)` pairs.
pub open spec fn audit_columns() -> Seq<(Seq<char>, Seq<char>)> {
    seq![
        ("id"@, "id"@),
        ("ts"@, "ts"@),
        ("writeRuleId"@, "write_rule_id"@),
        ("ruleNameSnapshot"@, "rule_name_snapshot"@),
        ("sourceTagId"@, "source_tag_id"@),
        ("sourceValueSnapshot"@, "source_value_snapshot"@),
        ("writeTargetId"@, "write_target_id"@),
        ("targetValueWritten"@, "target_value_written"@),
        ("actorUsername"@, "actor_username"@),
        ("action"@, "action"@),
        ("result"@, "result"@),
        ("detail"@, "detail"@),
    ]
}

/// `c` is an upper-case ASCII letter.
pub open spec fn is_ascii_upper(c: char) -> bool {
    65 <= (c as int) && (c as int) <= 90
}

/// One character in snake case: an upper-case letter becomes `_` and its
/// lower-case form, anything else stays.
pub open spec fn snake_char(c: char) -> Seq<char> {
    if is_ascii_upper(c) {
        seq!['_', ((c as int) + 32) as char]
    } else {
        seq![c]
    }
}

/// A camel-case name in snake case (`writeTargetId` is `write_target_id`).
pub open spec fn snake_case(s: Seq<char>) -> Seq<char>
    decreases s.len(),
{
    if s.len() == 0 {
        Seq::empty()
    } else {
        snake_case(s.drop_last()) + snake_char(s.last())
    }
}

/// Each wire name in the table.
proof fn lemma_columns_are_snake_case()
    ensures
        forall|i: int| 0 <= i < audit_columns().len() ==> (#[trigger] audit_columns()[i]).1 == snake_case(audit_columns()[i].0),
{
    reveal_strlit("id");
    assert("id"@ =~= seq!['i', 'd']);
    assert(snake_case(seq!['i', 'd']) =~= seq!['i', 'd']) by {
        reveal_with_fuel(snake_case, 20);
    }
    reveal_strlit("ts");
    assert("ts"@ =~= seq!['t', 's']);
    assert(snake_case(seq!['t', 's']) =~= seq!['t', 's']) by {
        reveal_with_fuel(snake_case, 20);
    }
    reveal_strlit("writeRuleId");
    assert("writeRuleId"@ =~= seq!['w', 'r', 'i', 't', 'e', 'R', 'u', 'l', 'e', 'I', 'd']);
    reveal_strlit("write_rule_id");
    assert("write_rule_id"@ =~= seq!['w', 'r', 'i', 't', 'e', '_', 'r', 'u', 'l', 'e', '_', 'i', 'd']);
    assert(snake_case(seq!['w', 'r', 'i', 't', 'e', 'R', 'u', 'l', 'e', 'I', 'd']) =~= seq!['w', 'r', 'i', 't', 'e', '_', 'r', 'u', 'l', 'e', '_', 'i', 'd']) by {
        reveal_with_fuel(snake_case, 20);
    }
    reveal_strlit("ruleNameSnapshot");
    assert("ruleNameSnapshot"@ =~= seq!['r', 'u', 'l', 'e', 'N', 'a', 'm', 'e', 'S', 'n', 'a', 'p', 's', 'h', 'o', 't']);
    reveal_strlit("rule_name_snapshot");
    assert("rule_name_snapshot"@ =~= seq!['r', 'u', 'l', 'e', '_', 'n', 'a', 'm', 'e', '_', 's', 'n', 'a', 'p', 's', 'h', 'o', 't']);
    assert(snake_case(seq!['r', 'u', 'l', 'e', 'N', 'a', 'm', 'e', 'S', 'n', 'a', 'p', 's', 'h', 'o', 't']) =~= seq!['r', 'u', 'l', 'e', '_', 'n', 'a', 'm', 'e', '_', 's', 'n', 'a', 'p', 's', 'h', 'o', 't']) by {
        reveal_with_fuel(snake_case, 20);
    }
    reveal_strlit("sourceTagId");
    assert("sourceTagId"@ =~= seq!['s', 'o', 'u', 'r', 'c', 'e', 'T', 'a', 'g', 'I', 'd']);
    reveal_strlit("source_tag_id");
    assert("source_tag_id"@ =~= seq!['s', 'o', 'u', 'r', 'c', 'e', '_', 't', 'a', 'g', '_', 'i', 'd']);
    assert(snake_case(seq!['s', 'o', 'u', 'r', 'c', 'e', 'T', 'a', 'g', 'I', 'd']) =~= seq!['s', 'o', 'u', 'r', 'c', 'e', '_', 't', 'a', 'g', '_', 'i', 'd']) by {
        reveal_with_fuel(snake_case, 20);
    }
    reveal_strlit("sourceValueSnapshot");
    assert("sourceValueSnapshot"@ =~= seq!['s', 'o', 'u', 'r', 'c', 'e', 'V', 'a', 'l', 'u', 'e', 'S', 'n', 'a', 'p', 's', 'h', 'o', 't']);
    reveal_strlit("source_value_snapshot");
    assert("source_value_snapshot"@ =~= seq!['s', 'o', 'u', 'r', 'c', 'e', '_', 'v', 'a', 'l', 'u', 'e', '_', 's', 'n', 'a', 'p', 's', 'h', 'o', 't']);
    assert(snake_case(seq!['s', 'o', 'u', 'r', 'c', 'e', 'V', 'a', 'l', 'u', 'e', 'S', 'n', 'a', 'p', 's', 'h', 'o', 't']) =~= seq!['s', 'o', 'u', 'r', 'c', 'e', '_', 'v', 'a', 'l', 'u', 'e', '_', 's', 'n', 'a', 'p', 's', 'h', 'o', 't']) by {
        reveal_with_fuel(snake_case, 20);
    }
    reveal_strlit("writeTargetId");
    assert("writeTargetId"@ =~= seq!['w', 'r', 'i', 't', 'e', 'T', 'a', 'r', 'g', 'e', 't', 'I', 'd']);
    reveal_strlit("write_target_id");
    assert("write_target_id"@ =~= seq!['w', 'r', 'i', 't', 'e', '_', 't', 'a', 'r', 'g', 'e', 't', '_', 'i', 'd']);
    assert(snake_case(seq!['w', 'r', 'i', 't', 'e', 'T', 'a', 'r', 'g', 'e', 't', 'I', 'd']) =~= seq!['w', 'r', 'i', 't', 'e', '_', 't', 'a', 'r', 'g', 'e', 't', '_', 'i', 'd']) by {
        reveal_with_fuel(snake_case, 20);
    }
    reveal_strlit("targetValueWritten");
    assert("targetValueWritten"@ =~= seq!['t', 'a', 'r', 'g', 'e', 't', 'V', 'a', 'l', 'u', 'e', 'W', 'r', 'i', 't', 't', 'e', 'n']);
    reveal_strlit("target_value_written");
    assert("target_value_written"@ =~= seq!['t', 'a', 'r', 'g', 'e', 't', '_', 'v', 'a', 'l', 'u', 'e', '_', 'w', 'r', 'i', 't', 't', 'e', 'n']);
    assert(snake_case(seq!['t', 'a', 'r', 'g', 'e', 't', 'V', 'a', 'l', 'u', 'e', 'W', 'r', 'i', 't', 't', 'e', 'n']) =~= seq!['t', 'a', 'r', 'g', 'e', 't', '_', 'v', 'a', 'l', 'u', 'e', '_', 'w', 'r', 'i', 't', 't', 'e', 'n']) by {
        reveal_with_fuel(snake_case, 20);
    }
    reveal_strlit("actorUsername");
    assert("actorUsername"@ =~= seq!['a', 'c', 't', 'o', 'r', 'U', 's', 'e', 'r', 'n', 'a', 'm', 'e']);
    reveal_strlit("actor_username");
    assert("actor_username"@ =~= seq!['a', 'c', 't', 'o', 'r', '_', 'u', 's', 'e', 'r', 'n', 'a', 'm', 'e']);
    assert(snake_case(seq!['a', 'c', 't', 'o', 'r', 'U', 's', 'e', 'r', 'n', 'a', 'm', 'e']) =~= seq!['a', 'c', 't', 'o', 'r', '_', 'u', 's', 'e', 'r', 'n', 'a', 'm', 'e']) by {
        reveal_with_fuel(snake_case, 20);
    }
    reveal_strlit("action");
    assert("action"@ =~= seq!['a', 'c', 't', 'i', 'o', 'n']);
    assert(snake_case(seq!['a', 'c', 't', 'i', 'o', 'n']) =~= seq!['a', 'c', 't', 'i', 'o', 'n']) by {
        reveal_with_fuel(snake_case, 20);
    }
    reveal_strlit("result");
    assert("result"@ =~= seq!['r', 'e', 's', 'u', 'l', 't']);
    assert(snake_case(seq!['r', 'e', 's', 'u', 'l', 't']) =~= seq!['r', 'e', 's', 'u', 'l', 't']) by {
        reveal_with_fuel(snake_case, 20);
    }
    reveal_strlit("detail");
    assert("detail"@ =~= seq!['d', 'e', 't', 'a', 'i', 'l']);
    assert(snake_case(seq!['d', 'e', 't', 'a', 'i', 'l']) =~= seq!['d', 'e', 't', 'a', 'i', 'l']) by {
        reveal_with_fuel(snake_case, 20);
    }
    assert forall|i: int| 0 <= i < audit_columns().len() implies (#[trigger] audit_columns()[i]).1 == snake_case(
        audit_columns()[i].0,
    ) by {
        assert(audit_columns()[i] == audit_columns()[i]);
    }
}

/// The wire names a filter or sort may use map to their columns: every
/// column is its wire name in snake case (`writeTargetId` is
/// `write_target_id`, `writeRuleId` is `write_rule_id`), and no two wire
/// names share a column or appear twice.
pub proof fn law_columns_are_the_wire_names_in_snake_case()
    ensures
        forall|i: int| 0 <= i < audit_columns().len() ==> (#[trigger] audit_columns()[i]).1 == snake_case(audit_columns()[i].0),
        forall|i: int, j: int|
            0 <= i < audit_columns().len() && 0 <= j < audit_columns().len() && i != j ==> #[trigger] audit_columns()[i].1
                != #[trigger] audit_columns()[j].1 && audit_columns()[i].0 != audit_columns()[j].0,
{
    lemma_columns_are_snake_case();
    reveal_strlit("id");
    assert("id"@.len() == 2 && "id"@[0] == 'i');
    reveal_strlit("ts");
    assert("ts"@.len() == 2 && "ts"@[0] == 't');
    reveal_strlit("writeRuleId");
    assert("writeRuleId"@.len() == 11 && "writeRuleId"@[0] == 'w');
    reveal_strlit("write_rule_id");
    assert("write_rule_id"@.len() == 13 && "write_rule_id"@[0] == 'w');
    reveal_strlit("ruleNameSnapshot");
    assert("ruleNameSnapshot"@.len() == 16 && "ruleNameSnapshot"@[0] == 'r');
    reveal_strlit("rule_name_snapshot");
    assert("rule_name_snapshot"@.len() == 18 && "rule_name_snapshot"@[0] == 'r');
    reveal_strlit("sourceTagId");
    assert("sourceTagId"@.len() == 11 && "sourceTagId"@[0] == 's');
    reveal_strlit("source_tag_id");
    assert("source_tag_id"@.len() == 13 && "source_tag_id"@[0] == 's');
    reveal_strlit("sourceValueSnapshot");
    assert("sourceValueSnapshot"@.len() == 19 && "sourceValueSnapshot"@[0] == 's');
    reveal_strlit("source_value_snapshot");
    assert("source_value_snapshot"@.len() == 21 && "source_value_snapshot"@[0] == 's');
    reveal_strlit("writeTargetId");
    assert("writeTargetId"@.len() == 13 && "writeTargetId"@[0] == 'w');
    reveal_strlit("write_target_id");
    assert("write_target_id"@.len() == 15 && "write_target_id"@[0] == 'w');
    reveal_strlit("targetValueWritten");
    assert("targetValueWritten"@.len() == 18 && "targetValueWritten"@[0] == 't');
    reveal_strlit("target_value_written");
    assert("target_value_written"@.len() == 20 && "target_value_written"@[0] == 't');
    reveal_strlit("actorUsername");
    assert("actorUsername"@.len() == 13 && "actorUsername"@[0] == 'a');
    reveal_strlit("actor_username");
    assert("actor_username"@.len() == 14 && "actor_username"@[0] == 'a');
    reveal_strlit("action");
    assert("action"@.len() == 6 && "action"@[0] == 'a');
    reveal_strlit("result");
    assert("result"@.len() == 6 && "result"@[0] == 'r');
    reveal_strlit("detail");
    assert("detail"@.len() == 6 && "detail"@[0] == 'd');
    let t = audit_columns();
    assert forall|i: int, j: int|
        0 <= i < t.len() && 0 <= j < t.len() && i != j implies #[trigger] t[i].1 != #[trigger] t[j].1 && t[i].0
            != t[j].0 by {
        if t[i].1 == t[j].1 {
            assert(t[i].1.len() == t[j].1.len() && t[i].1[0] == t[j].1[0]);
        }
        if t[i].0 == t[j].0 {
            assert(t[i].0.len() == t[j].0.len() && t[i].0[0] == t[j].0[0]);
        }
    }

}

/// Looks up the column for a wire field name.
pub fn audit_column(wire: &str) -> (r: Option<&'static str>)
    ensures
        match r {
            Some(c) => exists|i: int|
                0 <= i < audit_columns().len() && #[trigger] audit_columns()[i] == (wire@, c@),
            None => forall|i: int| 0 <= i < audit_columns().len() ==> #[trigger] audit_columns()[i].0 != wire@,
        },
        r matches Some(c) ==> c@ == snake_case(wire@),
{
    proof {
        lemma_columns_are_snake_case();
        reveal_strlit("id");
        reveal_strlit("ts");
        reveal_strlit("writeRuleId");
        reveal_strlit("ruleNameSnapshot");
        reveal_strlit("sourceTagId");
        reveal_strlit("sourceValueSnapshot");
        reveal_strlit("writeTargetId");
        reveal_strlit("targetValueWritten");
        reveal_strlit("actorUsername");
        reveal_strlit("action");
        reveal_strlit("result");
        reveal_strlit("detail");
    }
    let wires: [&'static str; 12] = [
        "id",
        "ts",
        "writeRuleId",
        "ruleNameSnapshot",
        "sourceTagId",
        "sourceValueSnapshot",
        "writeTargetId",
        "targetValueWritten",
        "actorUsername",
        "action",
        "result",
        "detail",
    ];
    let cols: [&'static str; 12] = [
        "id",
        "ts",
        "write_rule_id",
        "rule_name_snapshot",
        "source_tag_id",
        "source_value_snapshot",
        "write_target_id",
        "target_value_written",
        "actor_username",
        "action",
        "result",
        "detail",
    ];
    let mut i: usize = 0;
    while i < 12
        invariant
            i <= 12,
            forall|k: int| 0 <= k < 12 ==> (#[trigger] wires@[k])@ == audit_columns()[k].0,
            forall|k: int| 0 <= k < 12 ==> (#[trigger] cols@[k])@ == audit_columns()[k].1,
            forall|k: int| 0 <= k < i ==> #[trigger] audit_columns()[k].0 != wire@,
        decreases 12 - i,
    {
        if str_eq(wire, wires[i]) {
            proof {
                assert(audit_columns()[i as int] == (wire@, cols@[i as int]@));
                lemma_columns_are_snake_case();
                assert(audit_columns()[i as int].1 == snake_case(audit_columns()[i as int].0));
            }
            return Some(cols[i]);
        }
        i = i + 1;
    }
    None
}

/// One sort key of a list request.
pub struct SortKey {
    pub field: String,
    pub descending: bool,
}

/// A list request without a sort is ordered by `ts`, newest first; an
/// explicit sort is kept as given.
pub fn default_sort(sort: Vec<SortKey>) -> (r: Vec<SortKey>)
    ensures
        sort@.len() == 0 ==> r@.len() == 1 && r@[0].field@ == "ts"@ && r@[0].descending,
        sort@.len() != 0 ==> r@ == sort@,
{
    if sort.len() == 0 {
        vec![SortKey { field: String::from_str("ts"), descending: true }]
    } else {
        sort
    }
}

} // verus!
