use relay_wright::current_values::CurrentValues;
use relay_wright::rule_engine::{cooldown_from_ms, rule_met, string_condition_met, EdgeMode, Operator, RuleTracker, WarnThrottle};

/// The verdict of `value > threshold` on a cached tag (`None` while the tag
/// is absent or bad).
fn gt(cache: &CurrentValues<f64>, tag: i64, threshold: f64) -> Option<bool> {
    cache.good_value(tag).map(|v| v > threshold)
}

fn lt(cache: &CurrentValues<f64>, tag: i64, threshold: f64) -> Option<bool> {
    cache.good_value(tag).map(|v| v < threshold)
}

/// One evaluation of a single-condition rule `id` at `now`.
fn eval(t: &mut RuleTracker, id: i64, mode: EdgeMode, cooldown: Option<u64>, met: Option<bool>, now: u64) -> bool {
    let verdict = rule_met(&vec![met], true);
    t.step(id, mode, cooldown, verdict, true, now)
}

/// A string condition's outcome on a cached tag.
fn str_met(cache: &CurrentValues<&'static str>, tag: i64, op: Operator, text: &str) -> Option<bool> {
    let mut w = WarnThrottle::new();
    cache.good_value(tag).map(|v| string_condition_met(op, Some(text), v, &mut w, 0).0)
}

#[test]
fn rising_edge_fires_exactly_once_and_not_while_held() {
    let mut cache: CurrentValues<f64> = CurrentValues::new();
    let mut t = RuleTracker::new();
    cache.set_good(1, 0.0, 0);
    assert!(!eval(&mut t, 1, EdgeMode::Rising, None, gt(&cache, 1, 10.0), 0), "first poll only seeds");
    cache.set_good(1, 20.0, 0);
    assert!(eval(&mut t, 1, EdgeMode::Rising, None, gt(&cache, 1, 10.0), 0));
    assert_eq!(cache.good_value(1), Some(20.0), "the source snapshot");
    assert!(!eval(&mut t, 1, EdgeMode::Rising, None, gt(&cache, 1, 10.0), 0), "a held-true condition must not re-fire");
}

#[test]
fn condition_clears_then_retriggers_gives_a_second_write() {
    let mut cache: CurrentValues<f64> = CurrentValues::new();
    let mut t = RuleTracker::new();
    cache.set_good(1, 0.0, 0);
    eval(&mut t, 1, EdgeMode::Rising, None, gt(&cache, 1, 10.0), 0);
    cache.set_good(1, 20.0, 0);
    assert!(eval(&mut t, 1, EdgeMode::Rising, None, gt(&cache, 1, 10.0), 0), "first rising edge");
    cache.set_good(1, 0.0, 0);
    assert!(!eval(&mut t, 1, EdgeMode::Rising, None, gt(&cache, 1, 10.0), 0), "back below: no fire on rising mode");
    cache.set_good(1, 20.0, 0);
    assert!(eval(&mut t, 1, EdgeMode::Rising, None, gt(&cache, 1, 10.0), 0), "re-trigger fires again");
}

#[test]
fn falling_and_change_modes() {
    let mut cache: CurrentValues<f64> = CurrentValues::new();
    let mut t = RuleTracker::new();
    cache.set_good(1, 20.0, 0);
    assert!(!eval(&mut t, 1, EdgeMode::Falling, None, gt(&cache, 1, 10.0), 0), "seed true");
    assert!(!eval(&mut t, 2, EdgeMode::Change, None, gt(&cache, 1, 10.0), 0), "seed true");
    cache.set_good(1, 0.0, 0);
    assert!(eval(&mut t, 1, EdgeMode::Falling, None, gt(&cache, 1, 10.0), 0), "falling fires on true->false");
    assert!(eval(&mut t, 2, EdgeMode::Change, None, gt(&cache, 1, 10.0), 0), "change fires on any transition");
    cache.set_good(1, 20.0, 0);
    assert!(!eval(&mut t, 1, EdgeMode::Falling, None, gt(&cache, 1, 10.0), 0), "falling must not fire on false->true");
    assert!(eval(&mut t, 2, EdgeMode::Change, None, gt(&cache, 1, 10.0), 0), "change fires on the reverse transition too");
}

#[test]
fn and_conditions_fire_only_when_all_hold() {
    let mut cache: CurrentValues<f64> = CurrentValues::new();
    let mut t = RuleTracker::new();
    cache.set_good(1, 20.0, 0);
    cache.set_good(2, 9.0, 0);
    let both = |c: &CurrentValues<f64>| rule_met(&vec![gt(c, 1, 10.0), lt(c, 2, 5.0)], true);
    assert!(!t.step(1, EdgeMode::Rising, None, both(&cache), true, 0), "seed false (2nd cond fails)");
    cache.set_good(2, 1.0, 0);
    assert!(t.step(1, EdgeMode::Rising, None, both(&cache), true, 0), "fires only when both hold");
}

#[test]
fn indeterminate_source_never_fires_and_preserves_state() {
    let mut cache: CurrentValues<f64> = CurrentValues::new();
    let mut t = RuleTracker::new();
    cache.set_good(1, 20.0, 0);
    eval(&mut t, 1, EdgeMode::Falling, None, gt(&cache, 1, 10.0), 0);
    cache.mark_bad(1, 0);
    assert!(!eval(&mut t, 1, EdgeMode::Falling, None, gt(&cache, 1, 10.0), 0), "bad source is indeterminate, no fire");
    cache.set_good(1, 20.0, 0);
    assert!(
        !eval(&mut t, 1, EdgeMode::Falling, None, gt(&cache, 1, 10.0), 0),
        "remembered state was preserved across the bad cycle"
    );
}

#[test]
fn copy_from_source_uses_the_live_source_value() {
    let mut cache: CurrentValues<f64> = CurrentValues::new();
    let mut t = RuleTracker::new();
    cache.set_good(1, 0.0, 0);
    cache.set_good(2, 123.0, 0);
    let verdict = |c: &CurrentValues<f64>| rule_met(&vec![gt(c, 1, 10.0)], c.good_value(2).is_some());
    t.step(1, EdgeMode::Rising, None, verdict(&cache), true, 0);
    cache.set_good(1, 20.0, 0);
    assert!(t.step(1, EdgeMode::Rising, None, verdict(&cache), true, 0));
    assert_eq!(cache.good_value(2), Some(123.0), "writes the copied source value");
}

#[test]
fn copy_from_source_missing_copy_tag_is_indeterminate() {
    let mut cache: CurrentValues<f64> = CurrentValues::new();
    let mut t = RuleTracker::new();
    let verdict = |c: &CurrentValues<f64>| rule_met(&vec![gt(c, 1, 10.0)], c.good_value(2).is_some());
    cache.set_good(1, 0.0, 0);
    t.step(1, EdgeMode::Rising, None, verdict(&cache), true, 0);
    cache.set_good(1, 20.0, 0);
    assert!(!t.step(1, EdgeMode::Rising, None, verdict(&cache), true, 0), "no copy value -> no fire");
}

#[test]
fn cooldown_suppresses_a_refire_within_the_window() {
    let mut cache: CurrentValues<f64> = CurrentValues::new();
    let mut t = RuleTracker::new();
    let cd = cooldown_from_ms(Some(10_000));
    cache.set_good(1, 0.0, 0);
    eval(&mut t, 1, EdgeMode::Rising, cd, gt(&cache, 1, 10.0), 0);
    cache.set_good(1, 20.0, 0);
    assert!(eval(&mut t, 1, EdgeMode::Rising, cd, gt(&cache, 1, 10.0), 0), "first fire");
    cache.set_good(1, 0.0, 1_000);
    eval(&mut t, 1, EdgeMode::Rising, cd, gt(&cache, 1, 10.0), 1_000);
    cache.set_good(1, 20.0, 3_000);
    assert!(!eval(&mut t, 1, EdgeMode::Rising, cd, gt(&cache, 1, 10.0), 3_000), "re-fire within cooldown is suppressed");
    cache.set_good(1, 0.0, 12_000);
    eval(&mut t, 1, EdgeMode::Rising, cd, gt(&cache, 1, 10.0), 12_000);
    cache.set_good(1, 20.0, 15_000);
    assert!(eval(&mut t, 1, EdgeMode::Rising, cd, gt(&cache, 1, 10.0), 15_000), "fire allowed once cooldown elapsed");
}

#[test]
fn string_eq_fires_once_on_exact_match_and_not_while_held() {
    let mut cache: CurrentValues<&'static str> = CurrentValues::new();
    let mut t = RuleTracker::new();
    cache.set_good(1, "NG", 0);
    assert!(!eval(&mut t, 1, EdgeMode::Rising, None, str_met(&cache, 1, Operator::Eq, "OK"), 0), "first poll seeds");
    cache.set_good(1, "OK", 0);
    assert!(eval(&mut t, 1, EdgeMode::Rising, None, str_met(&cache, 1, Operator::Eq, "OK"), 0));
    assert_eq!(cache.good_value(1), Some("OK"), "the source snapshot is the text");
    assert!(
        !eval(&mut t, 1, EdgeMode::Rising, None, str_met(&cache, 1, Operator::Eq, "OK"), 0),
        "a held-true string match must not re-fire"
    );
}

#[test]
fn string_neq_requires_a_present_comparand() {
    let mut w = WarnThrottle::new();
    assert!(string_condition_met(Operator::Neq, Some("OK"), "NG", &mut w, 0).0);
    assert!(!string_condition_met(Operator::Neq, Some("OK"), "OK", &mut w, 0).0);
}

#[test]
fn numeric_operator_on_a_string_value_is_unmet_not_a_panic() {
    let mut w = WarnThrottle::new();
    assert!(!string_condition_met(Operator::Gt, None, "hello", &mut w, 0).0);
}

#[test]
fn string_copy_from_source_passes_the_text_through() {
    let mut cache: CurrentValues<&'static str> = CurrentValues::new();
    let mut t = RuleTracker::new();
    cache.set_good(1, "NG", 0);
    cache.set_good(2, "PAYLOAD", 0);
    let verdict = |c: &CurrentValues<&'static str>| {
        rule_met(&vec![str_met(c, 1, Operator::Eq, "GO")], c.good_value(2).is_some())
    };
    t.step(1, EdgeMode::Rising, None, verdict(&cache), true, 0);
    cache.set_good(1, "GO", 0);
    assert!(t.step(1, EdgeMode::Rising, None, verdict(&cache), true, 0));
    assert_eq!(cache.good_value(2), Some("PAYLOAD"));
}

#[test]
fn string_constant_text_is_written_verbatim() {
    let mut cache: CurrentValues<&'static str> = CurrentValues::new();
    let mut t = RuleTracker::new();
    cache.set_good(1, "NG", 0);
    eval(&mut t, 1, EdgeMode::Rising, None, str_met(&cache, 1, Operator::Eq, "GO"), 0);
    cache.set_good(1, "GO", 0);
    assert!(eval(&mut t, 1, EdgeMode::Rising, None, str_met(&cache, 1, Operator::Eq, "GO"), 0));
}
