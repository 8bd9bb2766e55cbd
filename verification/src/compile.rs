//! The decisions of rule compilation: a string row's word span, what a
//! rule writes, and which resolved sources still need polling.
//!
//! A rule compiles only when every reference resolves; what it writes
//! follows its value mode and its target's kind, and each source tag is
//! polled once however many rules read it.

use std::collections::HashSet;

use vstd::prelude::*;
use vstd::string::*;

use crate::rule_engine::{edge_mode_of, operator_of, EdgeMode, Operator};
use crate::rule_engine::{edge_mode_text, law_edge_mode_parse_round_trip};
use crate::text::str_eq;
use crate::write_rules::{allowed_edge_mode, allowed_value_mode};

verus! {

/// The smallest word span of a string row.
pub const MIN_STRING_WORDS: i64 = 1;

/// The largest word span of a string row.
pub const MAX_STRING_WORDS: i64 = 128;

/// The word span of a string row: its `string_length` when present and
/// within 1..=128; a row outside that range does not resolve.
pub fn string_words(string_length: Option<i64>) -> (r: Option<u16>)
    ensures
        match string_length {
            Some(len) => if MIN_STRING_WORDS <= len <= MAX_STRING_WORDS {
                r == Some(len as u16)
            } else {
                r is None
            },
            None => r is None,
        },
{
    match string_length {
        Some(len) => if MIN_STRING_WORDS <= len && len <= MAX_STRING_WORDS {
            Some(len as u16)
        } else {
            None
        },
        None => None,
    }
}

/// What a compiled rule writes.
#[derive(Clone, Copy, PartialEq, Eq, Debug, Structural)]
pub enum ValueModeChoice {
    /// The rule's numeric constant.
    Constant,
    /// The rule's text constant (into a string target).
    ConstantText,
    /// The current value of the given source tag.
    CopyFromSource(i64),
}

/// What a rule writes, from its stored value mode and its target's kind:
/// a `constant` writes the text constant into a string target and the
/// numeric constant otherwise (each must be present); `copy_from_source`
/// needs its source tag. Anything else does not compile.
pub open spec fn value_mode_spec(
    mode: Seq<char>,
    target_is_string: bool,
    has_constant: bool,
    has_constant_text: bool,
    source_tag: Option<i64>,
) -> Option<ValueModeChoice> {
    if mode == "constant"@ {
        if target_is_string {
            if has_constant_text { Some(ValueModeChoice::ConstantText) } else { None }
        } else {
            if has_constant { Some(ValueModeChoice::Constant) } else { None }
        }
    } else if mode == "copy_from_source"@ {
        match source_tag {
            Some(t) => Some(ValueModeChoice::CopyFromSource(t)),
            None => None,
        }
    } else {
        None
    }
}

/// Decides what a rule writes (see [`value_mode_spec`]).
pub fn choose_value_mode(
    mode: &str,
    target_is_string: bool,
    has_constant: bool,
    has_constant_text: bool,
    source_tag: Option<i64>,
) -> (r: Option<ValueModeChoice>)
    ensures
        r == value_mode_spec(mode@, target_is_string, has_constant, has_constant_text, source_tag),
{
    if str_eq(mode, "constant") {
        if target_is_string {
            if has_constant_text { Some(ValueModeChoice::ConstantText) } else { None }
        } else {
            if has_constant { Some(ValueModeChoice::Constant) } else { None }
        }
    } else if str_eq(mode, "copy_from_source") {
        match source_tag {
            Some(t) => Some(ValueModeChoice::CopyFromSource(t)),
            None => None,
        }
    } else {
        None
    }
}

/// Records a compiled rule's source tags as polled. Entry `i` of the
/// result says whether source `i` is new, i.e. neither polled before nor
/// earlier in `sources`; only new sources are added to the poll plan, so
/// each tag is read once per cycle.
pub fn register_sources(polled: &mut HashSet<i64>, sources: &Vec<i64>) -> (r: Vec<bool>)
    ensures
        final(polled)@ == old(polled)@ + sources@.to_set(),
        r@.len() == sources@.len(),
        forall|i: int|
            0 <= i < sources@.len() ==> #[trigger] r@[i] == (!old(polled)@.contains(sources@[i])
                && !sources@.take(i).contains(sources@[i])),
{
    broadcast use vstd::std_specs::hash::group_hash_axioms;
    broadcast use vstd::seq_lib::group_seq_properties;

    let ghost start = polled@;
    let mut fresh: Vec<bool> = Vec::new();
    let n = sources.len();
    let mut i: usize = 0;
    while i < n
        invariant
            n == sources@.len(),
            i <= n,
            polled@ == start + sources@.take(i as int).to_set(),
            fresh@.len() == i,
            forall|j: int|
                0 <= j < i ==> #[trigger] fresh@[j] == (!start.contains(sources@[j])
                    && !sources@.take(j).contains(sources@[j])),
        decreases n - i,
    {
        let s = sources[i];
        proof {
            assert(sources@.take(i as int + 1) =~= sources@.take(i as int).push(s));
            assert(polled@.contains(s) == (start.contains(s) || sources@.take(i as int).contains(s)));
        }
        let added = polled.insert(s);
        fresh.push(added);
        proof {
            let next = sources@.take(i as int + 1);
            assert forall|x: i64| #[trigger] polled@.contains(x) == (start + next.to_set()).contains(x) by {
                assert(next.contains(x) == (sources@.take(i as int).contains(x) || x == s)) by {
                    if x == s {
                        assert(next[i as int] == s);
                    }
                    if sources@.take(i as int).contains(x) {
                        let k = choose|k: int| 0 <= k < i && sources@.take(i as int)[k] == x;
                        assert(next[k] == x);
                    }
                }
            }
            assert(polled@ =~= start + next.to_set());
        }
        i = i + 1;
    }
    proof {
        assert(sources@.take(n as int) =~= sources@);
    }
    fresh
}

/// How one rule compiles: its edge mode, what it writes, and its
/// conditions' operators in order.
pub struct RulePlan {
    pub edge_mode: EdgeMode,
    pub value_mode: ValueModeChoice,
    pub operators: Vec<Operator>,
}

/// Whether a rule compiles from what was looked up for it: its edge mode
/// parses, its target resolved (`target_is_string` says its kind), its value
/// mode resolves (see [`value_mode_spec`]), it has at least one condition,
/// every condition's operator parses and its source resolved, and a copy
/// rule's copy source resolved. A rule that only partly resolves never
/// runs.
pub open spec fn rule_compiles(
    edge_mode: Seq<char>,
    target_is_string: Option<bool>,
    mode: Seq<char>,
    has_constant: bool,
    has_constant_text: bool,
    source_tag: Option<i64>,
    operators: Seq<Seq<char>>,
    sources_resolved: Seq<bool>,
    copy_source_resolved: bool,
) -> bool {
    &&& edge_mode_of(edge_mode) is Some
    &&& target_is_string is Some
    &&& value_mode_spec(mode, target_is_string->0, has_constant, has_constant_text, source_tag) is Some
    &&& operators.len() > 0
    &&& forall|i: int| 0 <= i < operators.len() ==> operator_of(#[trigger] operators[i]) is Some
    &&& forall|i: int| 0 <= i < sources_resolved.len() ==> #[trigger] sources_resolved[i]
    &&& (value_mode_spec(mode, target_is_string->0, has_constant, has_constant_text, source_tag) matches Some(
        ValueModeChoice::CopyFromSource(_),
    ) ==> copy_source_resolved)
}

/// The texts of a list of strings.
pub open spec fn texts(v: Seq<String>) -> Seq<Seq<char>> {
    v.map_values(|s: String| s@)
}

/// Compiles one rule from its stored fields and what was looked up for it
/// (see [`rule_compiles`]); `None` drops the rule.
pub fn plan_rule(
    edge_mode: &str,
    target_is_string: Option<bool>,
    mode: &str,
    has_constant: bool,
    has_constant_text: bool,
    source_tag: Option<i64>,
    operators: &Vec<String>,
    sources_resolved: &Vec<bool>,
    copy_source_resolved: bool,
) -> (r: Option<RulePlan>)
    requires
        operators@.len() == sources_resolved@.len(),
    ensures
        r is Some <==> rule_compiles(
            edge_mode@,
            target_is_string,
            mode@,
            has_constant,
            has_constant_text,
            source_tag,
            texts(operators@),
            sources_resolved@,
            copy_source_resolved,
        ),
        r matches Some(p) ==> {
            &&& Some(p.edge_mode) == edge_mode_of(edge_mode@)
            &&& Some(p.value_mode) == value_mode_spec(
                mode@,
                target_is_string->0,
                has_constant,
                has_constant_text,
                source_tag,
            )
            &&& p.operators@.len() == operators@.len()
            &&& forall|i: int|
                0 <= i < operators@.len() ==> Some(#[trigger] p.operators@[i]) == operator_of(
                    operators@[i]@,
                )
        },
{
    let edge = match EdgeMode::parse(edge_mode) {
        Some(e) => e,
        None => return None,
    };
    let is_string = match target_is_string {
        Some(b) => b,
        None => return None,
    };
    let value_mode = match choose_value_mode(mode, is_string, has_constant, has_constant_text, source_tag) {
        Some(v) => v,
        None => return None,
    };
    let n = operators.len();
    if n == 0 {
        return None;
    }
    let mut ops: Vec<Operator> = Vec::new();
    let mut i: usize = 0;
    while i < n
        invariant
            n == operators@.len(),
            n == sources_resolved@.len(),
            i <= n,
            ops@.len() == i,
            forall|j: int| 0 <= j < i ==> Some(#[trigger] ops@[j]) == operator_of(operators@[j]@),
            forall|j: int| 0 <= j < i ==> #[trigger] sources_resolved@[j],
        decreases n - i,
    {
        let op = match Operator::parse(operators[i].as_str()) {
            Some(op) => op,
            None => {
                proof {
                    assert(texts(operators@)[i as int] == operators@[i as int]@);
                }
                return None;
            },
        };
        if !sources_resolved[i] {
            return None;
        }
        ops.push(op);
        i = i + 1;
    }
    proof {
        assert forall|j: int| 0 <= j < texts(operators@).len() implies operator_of(
            #[trigger] texts(operators@)[j],
        ) is Some by {
            assert(texts(operators@)[j] == operators@[j]@);
            assert(Some(ops@[j]) == operator_of(operators@[j]@));
        }
    }
    match value_mode {
        ValueModeChoice::CopyFromSource(_) => {
            if !copy_source_resolved {
                return None;
            }
        },
        _ => {},
    }
    Some(RulePlan { edge_mode: edge, value_mode, operators: ops })
}

/// What was looked up for one enabled rule, in compile order.
pub struct RuleLookup {
    pub edge_mode: String,
    /// The target's kind (`Some(true)` for a string target), `None` when it
    /// did not resolve.
    pub target_is_string: Option<bool>,
    pub mode: String,
    pub has_constant: bool,
    pub has_constant_text: bool,
    pub source_tag: Option<i64>,
    /// The conditions' operators, in order.
    pub operators: Vec<String>,
    /// Whether each condition's source tag resolved, in order.
    pub sources_resolved: Vec<bool>,
    pub copy_source_resolved: bool,
    /// The tags the rule reads once compiled: its conditions' sources, then
    /// its copy source.
    pub polled_tags: Vec<i64>,
}

/// Whether a looked-up rule compiles (see [`rule_compiles`]).
pub open spec fn lookup_compiles(l: RuleLookup) -> bool {
    rule_compiles(
        l.edge_mode@,
        l.target_is_string,
        l.mode@,
        l.has_constant,
        l.has_constant_text,
        l.source_tag,
        texts(l.operators@),
        l.sources_resolved@,
        l.copy_source_resolved,
    )
}

/// The tags polled once the first `n` rules are compiled: those of every
/// rule among them that compiles.
pub open spec fn polled_after(ls: Seq<RuleLookup>, n: nat) -> Set<i64>
    decreases n,
{
    if n == 0 {
        Set::empty()
    } else {
        let before = polled_after(ls, (n - 1) as nat);
        if lookup_compiles(ls[n - 1]) {
            before + ls[n - 1].polled_tags@.to_set()
        } else {
            before
        }
    }
}

/// Compiles a whole rule set in order: entry `i` of the plans is rule
/// `i`'s plan, `None` exactly when it does not compile; entry `i` of the
/// second list says, for each tag a compiled rule reads, whether it is new
/// to the poll plan (read by no earlier compiled rule, nor earlier by the
/// same rule), and is empty for a dropped rule. Returns the polled tags too.
pub fn compile_rule_set(ls: &Vec<RuleLookup>) -> (r: (Vec<Option<RulePlan>>, Vec<Vec<bool>>, HashSet<i64>))
    requires
        forall|i: int| 0 <= i < ls@.len() ==> (#[trigger] ls@[i]).operators@.len() == ls@[i].sources_resolved@.len(),
    ensures
        r.0@.len() == ls@.len(),
        r.1@.len() == ls@.len(),
        r.2@ == polled_after(ls@, ls@.len()),
        forall|i: int| 0 <= i < ls@.len() ==> ((#[trigger] r.0@[i]) is Some <==> lookup_compiles(ls@[i])),
        forall|i: int|
            0 <= i < ls@.len() ==> (#[trigger] r.0@[i] matches Some(p) ==> {
                &&& Some(p.edge_mode) == edge_mode_of(ls@[i].edge_mode@)
                &&& Some(p.value_mode) == value_mode_spec(
                    ls@[i].mode@,
                    ls@[i].target_is_string->0,
                    ls@[i].has_constant,
                    ls@[i].has_constant_text,
                    ls@[i].source_tag,
                )
                &&& p.operators@.len() == ls@[i].operators@.len()
                &&& forall|j: int|
                    0 <= j < ls@[i].operators@.len() ==> Some(#[trigger] p.operators@[j]) == operator_of(
                        ls@[i].operators@[j]@,
                    )
            }),
        forall|i: int|
            0 <= i < ls@.len() ==> {
                let tags = ls@[i].polled_tags@;
                let fresh = (#[trigger] r.1@[i])@;
                &&& !lookup_compiles(ls@[i]) ==> fresh.len() == 0
                &&& lookup_compiles(ls@[i]) ==> fresh.len() == tags.len() && forall|j: int|
                    0 <= j < tags.len() ==> #[trigger] fresh[j] == (!polled_after(ls@, i as nat).contains(tags[j])
                        && !tags.take(j).contains(tags[j]))
            },
{
    let mut plans: Vec<Option<RulePlan>> = Vec::new();
    let mut fresh: Vec<Vec<bool>> = Vec::new();
    let mut polled: HashSet<i64> = HashSet::new();
    let n = ls.len();
    let mut i: usize = 0;
    while i < n
        invariant
            n == ls@.len(),
            i <= n,
            forall|k: int| 0 <= k < ls@.len() ==> (#[trigger] ls@[k]).operators@.len() == ls@[k].sources_resolved@.len(),
            plans@.len() == i,
            fresh@.len() == i,
            polled@ == polled_after(ls@, i as nat),
            forall|k: int| 0 <= k < i ==> ((#[trigger] plans@[k]) is Some <==> lookup_compiles(ls@[k])),
            forall|k: int|
                0 <= k < i ==> (#[trigger] plans@[k] matches Some(p) ==> {
                    &&& Some(p.edge_mode) == edge_mode_of(ls@[k].edge_mode@)
                    &&& Some(p.value_mode) == value_mode_spec(
                        ls@[k].mode@,
                        ls@[k].target_is_string->0,
                        ls@[k].has_constant,
                        ls@[k].has_constant_text,
                        ls@[k].source_tag,
                    )
                    &&& p.operators@.len() == ls@[k].operators@.len()
                    &&& forall|j: int|
                        0 <= j < ls@[k].operators@.len() ==> Some(#[trigger] p.operators@[j]) == operator_of(
                            ls@[k].operators@[j]@,
                        )
                }),
            forall|k: int|
                0 <= k < i ==> {
                    let tags = ls@[k].polled_tags@;
                    let f = (#[trigger] fresh@[k])@;
                    &&& !lookup_compiles(ls@[k]) ==> f.len() == 0
                    &&& lookup_compiles(ls@[k]) ==> f.len() == tags.len() && forall|j: int|
                        0 <= j < tags.len() ==> #[trigger] f[j] == (!polled_after(ls@, k as nat).contains(tags[j])
                            && !tags.take(j).contains(tags[j]))
                },
        decreases n - i,
    {
        let l = &ls[i];
        let plan = plan_rule(
            l.edge_mode.as_str(),
            l.target_is_string,
            l.mode.as_str(),
            l.has_constant,
            l.has_constant_text,
            l.source_tag,
            &l.operators,
            &l.sources_resolved,
            l.copy_source_resolved,
        );
        let ghost before = polled@;
        let f = match plan {
            Some(_) => register_sources(&mut polled, &l.polled_tags),
            None => Vec::new(),
        };
        proof {
            assert(polled@ =~= polled_after(ls@, (i + 1) as nat));
        }
        plans.push(plan);
        fresh.push(f);
        i = i + 1;
    }
    (plans, fresh, polled)
}

/// After compiling a rule set, a tag is polled exactly when some rule that
/// compiled reads it: a dropped rule polls nothing.
pub proof fn law_polled_tags_are_those_of_compiled_rules(ls: Seq<RuleLookup>, n: nat, t: i64)
    requires
        n <= ls.len(),
    ensures
        polled_after(ls, n).contains(t) <==> exists|i: int|
            0 <= i < n && lookup_compiles(ls[i]) && (#[trigger] ls[i]).polled_tags@.contains(t),
    decreases n,
{
    if n > 0 {
        let m = (n - 1) as nat;
        law_polled_tags_are_those_of_compiled_rules(ls, m, t);
        if lookup_compiles(ls[m as int]) {
            assert(ls[m as int].polled_tags@.to_set().contains(t) == ls[m as int].polled_tags@.contains(t));
        }
        if exists|i: int| 0 <= i < n && lookup_compiles(ls[i]) && (#[trigger] ls[i]).polled_tags@.contains(t) {
            let i = choose|i: int| 0 <= i < n && lookup_compiles(ls[i]) && (#[trigger] ls[i]).polled_tags@.contains(t);
            if i < m {
                assert(exists|k: int| 0 <= k < m && lookup_compiles(ls[k]) && (#[trigger] ls[k]).polled_tags@.contains(t));
            }
        }
    }
}

/// What was validated at save time compiles: an edge mode passes
/// validation exactly when the compiler parses it (the names `rising`,
/// `falling`, `change`), and a value mode the compiler accepts is one that
/// validation allows. A constant into a string target writes the text
/// constant, into a numeric target the numeric constant; a copy writes its
/// source tag's value.
pub proof fn law_saved_rules_compile_as_validated(
    edge: Seq<char>,
    mode: Seq<char>,
    target_is_string: bool,
    has_constant: bool,
    has_constant_text: bool,
    source_tag: Option<i64>,
)
    ensures
        allowed_edge_mode(edge) <==> edge_mode_of(edge) is Some,
        allowed_edge_mode(edge) <==> exists|m: EdgeMode| #[trigger] edge_mode_text(m) == edge,
        value_mode_spec(mode, target_is_string, has_constant, has_constant_text, source_tag) is Some
            ==> allowed_value_mode(mode),
        mode == "constant"@ && target_is_string && has_constant_text ==> value_mode_spec(
            mode,
            target_is_string,
            has_constant,
            has_constant_text,
            source_tag,
        ) == Some(ValueModeChoice::ConstantText),
        mode == "constant"@ && !target_is_string && has_constant ==> value_mode_spec(
            mode,
            target_is_string,
            has_constant,
            has_constant_text,
            source_tag,
        ) == Some(ValueModeChoice::Constant),
        mode == "copy_from_source"@ ==> value_mode_spec(mode, target_is_string, has_constant, has_constant_text, source_tag)
            == match source_tag {
            Some(t) => Some(ValueModeChoice::CopyFromSource(t)),
            None => None,
        },
{
    reveal_strlit("constant");
    reveal_strlit("copy_from_source");
    assert("constant"@.len() == 8 && "copy_from_source"@.len() == 16);
    law_edge_mode_parse_round_trip(EdgeMode::Rising, edge);
    if allowed_edge_mode(edge) {
        let m = edge_mode_of(edge)->0;
        assert(edge_mode_text(m) == edge);
    }
    if exists|m: EdgeMode| #[trigger] edge_mode_text(m) == edge {
        let m = choose|m: EdgeMode| #[trigger] edge_mode_text(m) == edge;
        law_edge_mode_parse_round_trip(m, edge);
    }
}

} // verus!
