//! Rule evaluation state: operators and edge modes as stored, the per-rule
//! remembered state that makes rules edge-triggered, string comparisons, and
//! the combination of condition outcomes into a rule's verdict.
//!
//! A rule fires only on the transition its edge mode names. Its first
//! determinate observation only seeds the remembered state and never fires,
//! and an indeterminate observation (a missing or bad source) leaves the
//! state untouched and never fires. Times are milliseconds.

use std::collections::HashMap;
use vstd::prelude::*;

use crate::text::str_eq;

verus! {

broadcast use vstd::std_specs::hash::group_hash_axioms;

/// A condition's comparison operator.
#[derive(Clone, Copy, PartialEq, Eq, Debug, Structural)]
pub enum Operator {
    Eq,
    Neq,
    Gt,
    Gte,
    Lt,
    Lte,
    Between,
    BitIs,
}

/// The operator stored as `s`, if `s` names one.
pub open spec fn operator_of(s: Seq<char>) -> Option<Operator> {
    if s == "eq"@ {
        Some(Operator::Eq)
    } else if s == "neq"@ {
        Some(Operator::Neq)
    } else if s == "gt"@ {
        Some(Operator::Gt)
    } else if s == "gte"@ {
        Some(Operator::Gte)
    } else if s == "lt"@ {
        Some(Operator::Lt)
    } else if s == "lte"@ {
        Some(Operator::Lte)
    } else if s == "between"@ {
        Some(Operator::Between)
    } else if s == "bit_is"@ {
        Some(Operator::BitIs)
    } else {
        None
    }
}

impl Operator {
    /// Parses the persisted form; `None` for an unknown operator.
    pub fn parse(s: &str) -> (r: Option<Self>)
        ensures
            r == operator_of(s@),
            r matches Some(o) ==> s@ == operator_text(o),
    {
        proof {
            law_operator_parse_round_trip(Operator::Eq, s@);
        }
        if str_eq(s, "eq") {
            Some(Operator::Eq)
        } else if str_eq(s, "neq") {
            Some(Operator::Neq)
        } else if str_eq(s, "gt") {
            Some(Operator::Gt)
        } else if str_eq(s, "gte") {
            Some(Operator::Gte)
        } else if str_eq(s, "lt") {
            Some(Operator::Lt)
        } else if str_eq(s, "lte") {
            Some(Operator::Lte)
        } else if str_eq(s, "between") {
            Some(Operator::Between)
        } else if str_eq(s, "bit_is") {
            Some(Operator::BitIs)
        } else {
            None
        }
    }
}

/// A rule's edge-detection mode.
#[derive(Clone, Copy, PartialEq, Eq, Debug, Structural)]
pub enum EdgeMode {
    Rising,
    Falling,
    Change,
}

/// The edge mode stored as `s`, if `s` names one.
pub open spec fn edge_mode_of(s: Seq<char>) -> Option<EdgeMode> {
    if s == "rising"@ {
        Some(EdgeMode::Rising)
    } else if s == "falling"@ {
        Some(EdgeMode::Falling)
    } else if s == "change"@ {
        Some(EdgeMode::Change)
    } else {
        None
    }
}

/// Whether a `prev` to `now` transition fires under `mode`.
pub open spec fn fires_spec(mode: EdgeMode, prev: bool, now: bool) -> bool {
    match mode {
        EdgeMode::Rising => !prev && now,
        EdgeMode::Falling => prev && !now,
        EdgeMode::Change => prev != now,
    }
}

impl EdgeMode {
    /// Parses the persisted form; `None` for an unknown mode.
    pub fn parse(s: &str) -> (r: Option<Self>)
        ensures
            r == edge_mode_of(s@),
            r matches Some(m) ==> s@ == edge_mode_text(m),
    {
        proof {
            law_edge_mode_parse_round_trip(EdgeMode::Rising, s@);
        }
        if str_eq(s, "rising") {
            Some(EdgeMode::Rising)
        } else if str_eq(s, "falling") {
            Some(EdgeMode::Falling)
        } else if str_eq(s, "change") {
            Some(EdgeMode::Change)
        } else {
            None
        }
    }

    /// Does a `prev` to `now` transition fire under this mode?
    pub fn fires(self, prev: bool, now: bool) -> (r: bool)
        ensures
            r == fires_spec(self, prev, now),
    {
        match self {
            EdgeMode::Rising => !prev && now,
            EdgeMode::Falling => prev && !now,
            EdgeMode::Change => prev != now,
        }
    }
}

/// How often a value-type mismatch may be logged, in milliseconds.
pub const TYPE_WARN_INTERVAL_MS: u64 = 5000;

/// A throttle so a persistently mismatched rule warns at most once per
/// [`TYPE_WARN_INTERVAL_MS`].
pub struct WarnThrottle {
    last: Option<u64>,
}

/// Whether a warning is due at `now` given the last one.
pub open spec fn warn_due(last: Option<u64>, now: u64) -> bool {
    match last {
        Some(t) => (if now >= t { now - t } else { 0 }) >= 5000,
        None => true,
    }
}

impl WarnThrottle {
    /// When the last warning was let through.
    pub closed spec fn last_spec(&self) -> Option<u64> {
        self.last
    }

    /// A throttle that has never warned.
    pub fn new() -> (r: Self)
        ensures
            r.last_spec() is None,
    {
        WarnThrottle { last: None }
    }

    /// `true` (and starts the next interval) if a warning is due at `now`.
    pub fn allow(&mut self, now: u64) -> (r: bool)
        ensures
            r == warn_due(old(self).last_spec(), now),
            final(self).last_spec() == if r { Some(now) } else { old(self).last_spec() },
    {
        let due = match self.last {
            Some(t) => {
                let age = if now >= t { now - t } else { 0 };
                age >= TYPE_WARN_INTERVAL_MS
            },
            None => true,
        };
        if due {
            self.last = Some(now);
        }
        due
    }
}

/// Evaluates a condition against a confirmed string value: `eq` is exact
/// equality with a present comparand, `neq` inequality with a present
/// comparand; every other operator is a misconfiguration that counts as
/// unmet. Returns `(met, warn)`, `warn` asking the caller to log the
/// misconfiguration (throttled).
pub fn string_condition_met(
    operator: Operator,
    threshold_text: Option<&str>,
    value: &str,
    warn: &mut WarnThrottle,
    now: u64,
) -> (r: (bool, bool))
    ensures
        r.0 == match operator {
            Operator::Eq => threshold_text matches Some(t) && t@ == value@,
            Operator::Neq => threshold_text matches Some(t) && t@ != value@,
            _ => false,
        },
        (operator == Operator::Eq || operator == Operator::Neq) ==> !r.1 && final(warn).last_spec() == old(
            warn,
        ).last_spec(),
        (operator != Operator::Eq && operator != Operator::Neq) ==> r.1 == warn_due(old(warn).last_spec(), now)
            && final(warn).last_spec() == if r.1 { Some(now) } else { old(warn).last_spec() },
{
    match operator {
        Operator::Eq => {
            let met = match threshold_text {
                Some(t) => str_eq(t, value),
                None => false,
            };
            (met, false)
        },
        Operator::Neq => {
            let met = match threshold_text {
                Some(t) => !str_eq(t, value),
                None => false,
            };
            (met, false)
        },
        _ => {
            let w = warn.allow(now);
            (false, w)
        },
    }
}

/// A rule's verdict from its conditions' outcomes: indeterminate (`None`) if
/// any condition's source was not confirmed, or the copy source is not;
/// otherwise whether every condition holds.
pub open spec fn rule_met_spec(outcomes: Seq<Option<bool>>, copy_source_ready: bool) -> Option<bool> {
    if (exists|i: int| 0 <= i < outcomes.len() && outcomes[i] is None) || !copy_source_ready {
        None
    } else {
        Some(forall|i: int| 0 <= i < outcomes.len() ==> outcomes[i] == Some(true))
    }
}

/// Combines the per-condition outcomes (`None` = that condition's source is
/// missing or bad) and the copy-source readiness into the rule's verdict.
pub fn rule_met(outcomes: &Vec<Option<bool>>, copy_source_ready: bool) -> (r: Option<bool>)
    ensures
        r == rule_met_spec(outcomes@, copy_source_ready),
{
    let mut all = true;
    let mut i: usize = 0;
    while i < outcomes.len()
        invariant
            i <= outcomes.len(),
            forall|j: int| 0 <= j < i ==> outcomes@[j] is Some,
            all == forall|j: int| 0 <= j < i ==> outcomes@[j] == Some(true),
        decreases outcomes.len() - i,
    {
        match outcomes[i] {
            None => {
                return None;
            },
            Some(m) => {
                if !m {
                    all = false;
                }
            },
        }
        proof {
            if all {
                assert forall|j: int| 0 <= j < i + 1 implies outcomes@[j] == Some(true) by {}
            } else {
                if outcomes@[i as int] != Some(true) {
                } else {
                    let j = choose|j: int| 0 <= j < i && outcomes@[j] != Some(true);
                }
            }
        }
        i = i + 1;
    }
    if !copy_source_ready {
        return None;
    }
    Some(all)
}

/// One rule's remembered state between evaluations.
#[derive(Clone, Copy, PartialEq, Eq, Debug, Structural)]
pub struct RuleState {
    /// The last determinate verdict, `None` until seeded.
    pub last_met: Option<bool>,
    /// When this rule last emitted a fire.
    pub last_fire: Option<u64>,
}

/// A rule in cooldown: a cooldown is set, the rule has fired before, and
/// less than the cooldown has passed since.
pub open spec fn cooling_spec(cooldown: Option<u64>, last_fire: Option<u64>, now: u64) -> bool {
    match (cooldown, last_fire) {
        (Some(cd), Some(last)) => (if now >= last { now - last } else { 0 }) < cd,
        _ => false,
    }
}

/// One evaluation step of a rule: the new remembered state (`None` = left
/// untouched, absent) and whether the rule emits a write this cycle.
/// `can_build` says whether the write intent could be built.
pub open spec fn step_spec(
    st: Option<RuleState>,
    mode: EdgeMode,
    cooldown: Option<u64>,
    met: Option<bool>,
    can_build: bool,
    now: u64,
) -> (Option<RuleState>, bool) {
    match met {
        None => (st, false),
        Some(m) => {
            let cur = match st {
                Some(s) => s,
                None => RuleState { last_met: None, last_fire: None },
            };
            match cur.last_met {
                None => (Some(RuleState { last_met: Some(m), last_fire: cur.last_fire }), false),
                Some(prev) => {
                    let fire = fires_spec(mode, prev, m) && !cooling_spec(cooldown, cur.last_fire, now)
                        && can_build;
                    (
                        Some(
                            RuleState {
                                last_met: Some(m),
                                last_fire: if fire { Some(now) } else { cur.last_fire },
                            },
                        ),
                        fire,
                    )
                },
            }
        },
    }
}

/// The remembered state of every rule, keyed by rule id.
pub struct RuleTracker {
    state: HashMap<i64, RuleState>,
}

/// The state held for `id`, if any.
pub open spec fn state_of(m: Map<i64, RuleState>, id: i64) -> Option<RuleState> {
    if m.contains_key(id) {
        Some(m[id])
    } else {
        None
    }
}

impl RuleTracker {
    /// The remembered state per rule id.
    pub closed spec fn states(&self) -> Map<i64, RuleState> {
        self.state@
    }

    /// A tracker with nothing seeded.
    pub fn new() -> (r: Self)
        ensures
            r.states() == Map::<i64, RuleState>::empty(),
    {
        RuleTracker { state: HashMap::new() }
    }

    /// The state held for `rule_id`.
    pub fn get(&self, rule_id: i64) -> (r: Option<RuleState>)
        ensures
            r == state_of(self.states(), rule_id),
    {
        match self.state.get(&rule_id) {
            Some(s) => Some(*s),
            None => None,
        }
    }

    /// Feeds one evaluation of rule `rule_id` (verdict `met`) at `now` and
    /// returns whether it emits a write. Only that rule's state changes.
    pub fn step(
        &mut self,
        rule_id: i64,
        mode: EdgeMode,
        cooldown: Option<u64>,
        met: Option<bool>,
        can_build: bool,
        now: u64,
    ) -> (r: bool)
        ensures
            ({
                let (st, fire) = step_spec(state_of(old(self).states(), rule_id), mode, cooldown, met, can_build, now);
                &&& r == fire
                &&& state_of(final(self).states(), rule_id) == st
            }),
            forall|other: i64|
                other != rule_id ==> state_of(final(self).states(), other) == state_of(old(self).states(), other),
    {
        let m = match met {
            None => {
                return false;
            },
            Some(m) => m,
        };
        let cur = match self.state.get(&rule_id) {
            Some(s) => *s,
            None => RuleState { last_met: None, last_fire: None },
        };
        let (next, fire) = match cur.last_met {
            None => (RuleState { last_met: Some(m), last_fire: cur.last_fire }, false),
            Some(prev) => {
                let cooling = match (cooldown, cur.last_fire) {
                    (Some(cd), Some(last)) => {
                        let age = if now >= last { now - last } else { 0 };
                        age < cd
                    },
                    _ => false,
                };
                let fire = mode.fires(prev, m) && !cooling && can_build;
                (
                    RuleState { last_met: Some(m), last_fire: if fire { Some(now) } else { cur.last_fire } },
                    fire,
                )
            },
        };
        self.state.insert(rule_id, next);
        fire
    }
}

/// Cooldown in milliseconds from the stored `cooldown_ms` (a missing, zero
/// or negative value means no cooldown).
pub fn cooldown_from_ms(cooldown_ms: Option<i64>) -> (r: Option<u64>)
    ensures
        r == match cooldown_ms {
            Some(ms) => if ms > 0 { Some(ms as u64) } else { None },
            None => None,
        },
{
    match cooldown_ms {
        Some(ms) => if ms > 0 {
            Some(ms as u64)
        } else {
            None
        },
        None => None,
    }
}

// ---------------------------------------------------------------------------
// Laws
// ---------------------------------------------------------------------------

/// The first determinate observation of a rule only seeds it: it never
/// fires, whatever the verdict.
pub proof fn law_first_observation_only_seeds(
    mode: EdgeMode,
    cooldown: Option<u64>,
    m: bool,
    can_build: bool,
    now: u64,
)
    ensures
        !step_spec(None, mode, cooldown, Some(m), can_build, now).1,
        step_spec(None, mode, cooldown, Some(m), can_build, now).0 == Some(
            RuleState { last_met: Some(m), last_fire: None },
        ),
{
}

/// An indeterminate observation never fires and leaves the remembered state
/// exactly as it was (so a source going bad manufactures no edge).
pub proof fn law_indeterminate_preserves_state(
    st: Option<RuleState>,
    mode: EdgeMode,
    cooldown: Option<u64>,
    can_build: bool,
    now: u64,
)
    ensures
        step_spec(st, mode, cooldown, None, can_build, now) == (st, false),
{
}

/// A verdict that holds across consecutive observations fires at most once:
/// after any step that saw verdict `m`, another step with the same verdict
/// never fires.
pub proof fn law_held_verdict_never_refires(
    st: Option<RuleState>,
    mode: EdgeMode,
    cooldown: Option<u64>,
    m: bool,
    b1: bool,
    b2: bool,
    t1: u64,
    t2: u64,
)
    ensures
        !step_spec(step_spec(st, mode, cooldown, Some(m), b1, t1).0, mode, cooldown, Some(m), b2, t2).1,
{
}

/// A fire is never emitted within the cooldown of the previous fire, and a
/// fire records its time.
pub proof fn law_cooldown_suppresses(
    st: Option<RuleState>,
    mode: EdgeMode,
    cooldown: Option<u64>,
    met: Option<bool>,
    can_build: bool,
    now: u64,
)
    ensures
        step_spec(st, mode, cooldown, met, can_build, now).1 ==> {
            &&& !cooling_spec(cooldown, match st { Some(s) => s.last_fire, None => None }, now)
            &&& step_spec(st, mode, cooldown, met, can_build, now).0 matches Some(s) && s.last_fire == Some(now)
        },
{
}

/// Under the rising mode, a verdict sequence false, true fires on the second
/// observation (when not cooling and buildable); under falling, true, false
/// does; change fires on either transition.
pub proof fn law_edges_fire_on_their_transition(prev: bool, m: bool, mode: EdgeMode, now: u64)
    ensures
        step_spec(Some(RuleState { last_met: Some(prev), last_fire: None }), mode, None, Some(m), true, now).1
            == fires_spec(mode, prev, m),
{
}

/// The name an operator is stored under.
pub open spec fn operator_text(o: Operator) -> Seq<char> {
    match o {
        Operator::Eq => "eq"@,
        Operator::Neq => "neq"@,
        Operator::Gt => "gt"@,
        Operator::Gte => "gte"@,
        Operator::Lt => "lt"@,
        Operator::Lte => "lte"@,
        Operator::Between => "between"@,
        Operator::BitIs => "bit_is"@,
    }
}

/// The name an edge mode is stored under.
pub open spec fn edge_mode_text(m: EdgeMode) -> Seq<char> {
    match m {
        EdgeMode::Rising => "rising"@,
        EdgeMode::Falling => "falling"@,
        EdgeMode::Change => "change"@,
    }
}

/// The eight operator names, known character by character.
proof fn lemma_operator_names()
    ensures
        "eq"@ != "gt"@ && "eq"@ != "lt"@ && "gt"@ != "lt"@,
        "neq"@ != "gte"@ && "neq"@ != "lte"@ && "gte"@ != "lte"@,
        "eq"@.len() == 2 && "gt"@.len() == 2 && "lt"@.len() == 2,
        "neq"@.len() == 3 && "gte"@.len() == 3 && "lte"@.len() == 3,
        "between"@.len() == 7 && "bit_is"@.len() == 6,
{
    reveal_strlit("eq");
    reveal_strlit("neq");
    reveal_strlit("gt");
    reveal_strlit("gte");
    reveal_strlit("lt");
    reveal_strlit("lte");
    reveal_strlit("between");
    reveal_strlit("bit_is");
    assert("eq"@[0] != "gt"@[0] && "eq"@[0] != "lt"@[0] && "gt"@[0] != "lt"@[0]);
    assert("neq"@[0] != "gte"@[0] && "neq"@[0] != "lte"@[0] && "gte"@[0] != "lte"@[0]);
}

/// Parsing inverts storing: every operator parses back from its stored
/// name (`"lt"` is `Lt`, `"lte"` is `Lte`, ...), and a name that parses is
/// the stored name of the operator it parses to.
pub proof fn law_operator_parse_round_trip(o: Operator, s: Seq<char>)
    ensures
        operator_of(operator_text(o)) == Some(o),
        operator_of(s) matches Some(p) ==> s == operator_text(p),
        operator_of(s) is None <==> forall|q: Operator| #[trigger] operator_text(q) != s,
{
    lemma_operator_names();
    if operator_of(s) is None {
        assert forall|q: Operator| #[trigger] operator_text(q) != s by {
            match q {
                Operator::Eq => {},
                Operator::Neq => {},
                Operator::Gt => {},
                Operator::Gte => {},
                Operator::Lt => {},
                Operator::Lte => {},
                Operator::Between => {},
                Operator::BitIs => {},
            }
        }
    } else {
        let p = operator_of(s)->0;
        assert(operator_text(p) == s);
    }
}

/// Parsing inverts storing for edge modes: `"rising"` is `Rising`,
/// `"falling"` is `Falling`, `"change"` is `Change`, and a name that parses
/// is the stored name of its mode.
pub proof fn law_edge_mode_parse_round_trip(m: EdgeMode, s: Seq<char>)
    ensures
        edge_mode_of(edge_mode_text(m)) == Some(m),
        edge_mode_of(s) matches Some(p) ==> s == edge_mode_text(p),
{
    reveal_strlit("rising");
    reveal_strlit("falling");
    reveal_strlit("change");
    assert("rising"@.len() == 6 && "change"@.len() == 6 && "falling"@.len() == 7);
    assert("rising"@[0] != "change"@[0]);
}

/// What a stored edge mode means: a rule stored `"rising"` fires exactly on
/// a false-to-true verdict change, `"falling"` exactly on true-to-false,
/// `"change"` on either, and none fires while the verdict holds.
pub proof fn law_stored_edge_modes_fire_on_their_transition(s: Seq<char>, prev: bool, now: bool)
    requires
        edge_mode_of(s) is Some,
    ensures
        fires_spec(edge_mode_of(s)->0, prev, now) <==> (prev != now && (s == "change"@ || (s == "rising"@ && now)
            || (s == "falling"@ && prev))),
{
    reveal_strlit("rising");
    reveal_strlit("falling");
    reveal_strlit("change");
    assert("rising"@.len() == 6 && "change"@.len() == 6 && "falling"@.len() == 7);
    assert("rising"@[0] != "change"@[0]);
}

} // verus!
