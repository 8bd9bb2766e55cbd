use relay_wright::writer::{detail_from_quoted_texts, value_matches_target};
use relay_wright::arming::ArmingState;
use relay_wright::current_values::{CurrentValues, Quality};
use relay_wright::engine::{apply_command, status_of, EngineCommand};
use relay_wright::poller::{apply_poll, PollOutcome};
use relay_wright::rate_limiter::{RateLimitConfig, RateLimiter};
use relay_wright::rule_engine::{
    cooldown_from_ms, rule_met, string_condition_met, EdgeMode, Operator, RuleTracker, WarnThrottle,
};
use relay_wright::write_audit::{manual_write_label, AuditAction, AuditResult};
use relay_wright::writer::{guard_write, settle_result, string_write_detail, truncate_text, GuardOutcome, WriterAction};

fn limiter(global_max: usize, per_connection_max: usize) -> RateLimiter {
    RateLimiter::new(RateLimitConfig { window: 60_000, global_max, per_connection_max })
}

fn armed() -> ArmingState {
    let mut a = ArmingState::new(false, None);
    a.arm(0);
    a
}

#[test]
fn good_value_is_visible_then_invalidated_by_mark_bad() {
    let mut cache: CurrentValues<f64> = CurrentValues::new();
    assert_eq!(cache.good_value(1), None, "absent tag is indeterminate");
    cache.set_good(1, 42.0, 10);
    assert_eq!(cache.good_value(1), Some(42.0));
    cache.mark_bad(1, 20);
    assert_eq!(cache.good_value(1), None, "bad tag is indeterminate");
    let e = cache.get(1).expect("entry kept as history");
    assert_eq!(e.value, 42.0);
    assert_eq!(e.quality, Quality::Bad);
    assert_eq!(e.at, 20);
}

#[test]
fn mark_bad_on_absent_tag_is_a_noop() {
    let mut cache: CurrentValues<f64> = CurrentValues::new();
    cache.mark_bad(99, 5);
    assert!(cache.get(99).is_none());
}

#[test]
fn a_failed_poll_leaves_no_source_good_and_spares_others() {
    let mut cache: CurrentValues<i32> = CurrentValues::new();
    cache.set_good(1, 10, 0);
    cache.set_good(2, 20, 0);
    cache.set_good(3, 30, 0);
    apply_poll(&mut cache, &vec![1, 2, 7], PollOutcome::Failed, 5);
    assert_eq!(cache.good_value(1), None);
    assert_eq!(cache.good_value(2), None);
    assert!(cache.get(7).is_none());
    assert_eq!(cache.good_value(3), Some(30));

    apply_poll(&mut cache, &vec![3], PollOutcome::NoSession, 6);
    assert_eq!(cache.good_value(3), None);
}

#[test]
fn a_read_pairs_results_with_tags_in_order() {
    let mut cache: CurrentValues<i32> = CurrentValues::new();
    cache.set_good(2, 5, 0);
    apply_poll(&mut cache, &vec![1, 2, 3], PollOutcome::Read(vec![Some(11), None]), 9);
    assert_eq!(cache.good_value(1), Some(11));
    assert_eq!(cache.good_value(2), None, "a bad reading marks the tag bad");
    assert!(cache.get(3).is_none(), "a tag past the last result is untouched");
}

#[test]
fn the_guard_suppresses_while_disarmed() {
    let mut a = ArmingState::new(false, None);
    let mut rl = limiter(10, 10);
    assert_eq!(guard_write(&mut a, &mut rl, Some(1), true, true, 100), GuardOutcome::SuppressedDisarmed);
    assert!(!rl.would_exceed(1, 100));
}

#[test]
fn the_guard_fails_unresolved_targets_and_missing_handles_first() {
    let mut a = armed();
    let mut rl = limiter(10, 10);
    assert_eq!(guard_write(&mut a, &mut rl, None, true, true, 100), GuardOutcome::TargetUnresolved);
    assert_eq!(guard_write(&mut a, &mut rl, Some(1), false, true, 100), GuardOutcome::NoBrokerHandle);
    assert!(a.is_armed());
}

#[test]
fn a_storm_trips_the_breaker_and_disarms() {
    let mut a = armed();
    let mut rl = limiter(100, 2);
    assert_eq!(guard_write(&mut a, &mut rl, Some(1), true, true, 100), GuardOutcome::Write);
    rl.record(1, 100);
    assert_eq!(guard_write(&mut a, &mut rl, Some(1), true, true, 100), GuardOutcome::Write);
    rl.record(1, 100);
    assert_eq!(guard_write(&mut a, &mut rl, Some(1), true, true, 100), GuardOutcome::RateLimitTripped);
    assert!(!a.is_armed(), "a trip auto-disarms");
    assert_eq!(guard_write(&mut a, &mut rl, Some(1), true, true, 100), GuardOutcome::SuppressedDisarmed);
    let row = GuardOutcome::RateLimitTripped.audit_row().unwrap();
    assert_eq!(row.0, AuditAction::RateLimitTripped);
    assert_eq!(row.1, AuditResult::SuppressedRateLimited);
    assert_eq!(row.2, Some("rate limit exceeded; breaker tripped and engine auto-disarmed"));
}

#[test]
fn storm_trips_breaker_and_only_rearm_plus_window_slide_recovers() {
    // Window 60 s, global cap 1000, per-connection cap 2; times in ms.
    let t0: u64 = 1_000_000;
    let mut a = ArmingState::new(false, None);
    a.arm(t0);
    let mut rl = limiter(1000, 2);

    // Two writes fit the per-connection budget of 2.
    for t in [t0, t0 + 1_000] {
        assert_eq!(guard_write(&mut a, &mut rl, Some(1), true, true, t), GuardOutcome::Write);
        rl.record(1, t);
    }
    assert!(a.is_armed(), "clean writes must not disarm");

    // The third within the window trips the breaker and auto-disarms.
    assert_eq!(guard_write(&mut a, &mut rl, Some(1), true, true, t0 + 2_000), GuardOutcome::RateLimitTripped);
    assert!(!a.is_armed(), "tripping must auto-disarm");

    // Still disarmed: suppressed as disarmed before the rate gate.
    assert_eq!(guard_write(&mut a, &mut rl, Some(1), true, true, t0 + 3_000), GuardOutcome::SuppressedDisarmed);

    // Re-arming alone is not enough while the window is still full.
    a.arm(t0 + 30_000);
    assert_eq!(guard_write(&mut a, &mut rl, Some(1), true, true, t0 + 30_000), GuardOutcome::RateLimitTripped);
    assert!(!a.is_armed(), "re-tripping must auto-disarm again");

    // Re-arm and let the window slide past both recorded writes.
    a.arm(t0 + 62_000);
    assert_eq!(guard_write(&mut a, &mut rl, Some(1), true, true, t0 + 62_000), GuardOutcome::Write);
    rl.record(1, t0 + 62_000);
    assert!(a.is_armed(), "a clean write after recovery stays armed");
}

#[test]
fn a_write_is_logged_before_it_is_charged_and_sent() {
    assert_eq!(
        GuardOutcome::Write.writer_actions(),
        vec![WriterAction::LogPendingFire, WriterAction::RecordSlot, WriterAction::SendWrite, WriterAction::SettleFire]
    );
    for o in [
        GuardOutcome::TargetUnresolved,
        GuardOutcome::NoBrokerHandle,
        GuardOutcome::SuppressedDisarmed,
        GuardOutcome::RateLimitTripped,
        GuardOutcome::SuppressedDryRun,
        GuardOutcome::ValueMismatch,
    ] {
        assert_eq!(o.writer_actions(), vec![WriterAction::AuditSuppressed]);
    }
}

#[test]
fn dry_run_and_type_mismatch_never_write() {
    let mut a = armed();
    let mut rl = limiter(100, 100);
    a.set_dry_run(true);
    for _ in 0..200 {
        assert_eq!(guard_write(&mut a, &mut rl, Some(1), true, true, 100), GuardOutcome::SuppressedDryRun);
    }
    assert!(!rl.would_exceed(1, 100), "a dry run never consumes budget");
    a.set_dry_run(false);
    assert_eq!(guard_write(&mut a, &mut rl, Some(1), true, false, 100), GuardOutcome::ValueMismatch);
    assert!(GuardOutcome::Write.audit_row().is_none());
    assert_eq!(
        GuardOutcome::ValueMismatch.audit_row().unwrap().2,
        Some("write value type does not match the target")
    );
}

#[test]
fn settle_result_and_labels() {
    assert_eq!(settle_result(true), AuditResult::Succeeded);
    assert_eq!(settle_result(false), AuditResult::Failed);
    assert_eq!(AuditResult::Succeeded.as_str(), "ok");
    assert_eq!(AuditResult::SuppressedDryRun.as_str(), "suppressed_dry_run");
    assert_eq!(AuditAction::DryRunToggle.as_str(), "dry_run_toggle");
    assert_eq!(AuditAction::ManualWrite.as_str(), "manual_write");
    assert_eq!(manual_write_label(), "手動書き込み");
}

#[test]
fn audit_text_is_truncated_by_characters() {
    let long: String = "あ".repeat(150);
    let t = truncate_text(&long);
    assert_eq!(t.chars().count(), 100);
    assert_eq!(truncate_text("short"), "short");
}

#[test]
fn string_write_detail_quotes_the_text_as_json() {
    assert_eq!(string_write_detail(None, None), None);
    assert_eq!(
        string_write_detail(Some("a\"b"), None).as_deref(),
        Some("{\"sourceText\":\"a\\\"b\"}")
    );
    assert_eq!(
        string_write_detail(Some("GO"), Some("STOP")).as_deref(),
        Some("{\"sourceText\":\"GO\",\"writtenText\":\"STOP\"}")
    );
    assert_eq!(string_write_detail(None, Some("x")).as_deref(), Some("{\"writtenText\":\"x\"}"));
}

#[test]
fn string_write_detail_escapes_control_characters() {
    assert_eq!(
        string_write_detail(Some("a\\b\n\t\r\u{8}\u{c}\u{1}\u{1f}\u{7f}é"), None).as_deref(),
        Some("{\"sourceText\":\"a\\\\b\\n\\t\\r\\b\\f\\u0001\\u001f\u{7f}é\"}")
    );
}

#[test]
fn operators_and_edge_modes_parse_their_persisted_names() {
    assert_eq!(Operator::parse("bit_is"), Some(Operator::BitIs));
    assert_eq!(Operator::parse("between"), Some(Operator::Between));
    assert_eq!(Operator::parse("GT"), None);
    assert_eq!(EdgeMode::parse("rising"), Some(EdgeMode::Rising));
    assert_eq!(EdgeMode::parse("change"), Some(EdgeMode::Change));
    assert_eq!(EdgeMode::parse("level"), None);
    assert!(EdgeMode::Rising.fires(false, true));
    assert!(!EdgeMode::Rising.fires(true, true));
    assert!(EdgeMode::Falling.fires(true, false));
    assert!(EdgeMode::Change.fires(true, false) && EdgeMode::Change.fires(false, true));
    assert!(!EdgeMode::Change.fires(false, false));
}

#[test]
fn a_rising_rule_fires_once_per_rising_edge() {
    let mut t = RuleTracker::new();
    assert!(!t.step(1, EdgeMode::Rising, None, Some(false), true, 0), "first observation seeds");
    assert!(t.step(1, EdgeMode::Rising, None, Some(true), true, 1));
    assert!(!t.step(1, EdgeMode::Rising, None, Some(true), true, 2), "held true does not re-fire");
    assert!(!t.step(1, EdgeMode::Rising, None, Some(false), true, 3));
    assert!(t.step(1, EdgeMode::Rising, None, Some(true), true, 4), "re-trigger fires again");
}

#[test]
fn an_indeterminate_verdict_keeps_the_remembered_state() {
    let mut t = RuleTracker::new();
    assert!(!t.step(1, EdgeMode::Falling, None, Some(true), true, 0));
    assert!(!t.step(1, EdgeMode::Falling, None, None, true, 1));
    assert!(!t.step(1, EdgeMode::Falling, None, Some(true), true, 2));
    assert!(t.step(1, EdgeMode::Falling, None, Some(false), true, 3));
}

#[test]
fn cooldown_suppresses_a_refire_within_the_window_then_allows_it() {
    let mut t = RuleTracker::new();
    let cd = cooldown_from_ms(Some(10_000));
    assert_eq!(cd, Some(10_000));
    t.step(1, EdgeMode::Rising, cd, Some(false), true, 0);
    assert!(t.step(1, EdgeMode::Rising, cd, Some(true), true, 0));
    t.step(1, EdgeMode::Rising, cd, Some(false), true, 1_000);
    assert!(!t.step(1, EdgeMode::Rising, cd, Some(true), true, 3_000));
    t.step(1, EdgeMode::Rising, cd, Some(false), true, 12_000);
    assert!(t.step(1, EdgeMode::Rising, cd, Some(true), true, 15_000));
    assert_eq!(cooldown_from_ms(Some(0)), None);
    assert_eq!(cooldown_from_ms(Some(-5)), None);
    assert_eq!(cooldown_from_ms(None), None);
}

#[test]
fn a_rule_that_cannot_build_its_value_does_not_fire() {
    let mut t = RuleTracker::new();
    t.step(1, EdgeMode::Rising, None, Some(false), true, 0);
    assert!(!t.step(1, EdgeMode::Rising, None, Some(true), false, 1));
    assert_eq!(t.get(1).unwrap().last_met, Some(true));
}

#[test]
fn and_conditions_need_every_outcome() {
    assert_eq!(rule_met(&vec![Some(true), Some(false)], true), Some(false));
    assert_eq!(rule_met(&vec![Some(true), Some(true)], true), Some(true));
    assert_eq!(rule_met(&vec![Some(true), None], true), None);
    assert_eq!(rule_met(&vec![Some(true)], false), None, "missing copy source is indeterminate");
}

#[test]
fn string_conditions_compare_exactly() {
    let mut w = WarnThrottle::new();
    assert_eq!(string_condition_met(Operator::Eq, Some("OK"), "OK", &mut w, 0), (true, false));
    assert_eq!(string_condition_met(Operator::Neq, Some("OK"), "NG", &mut w, 0), (true, false));
    assert_eq!(string_condition_met(Operator::Neq, Some("OK"), "OK", &mut w, 0), (false, false));
    assert_eq!(string_condition_met(Operator::Neq, None, "OK", &mut w, 0), (false, false));
    assert_eq!(string_condition_met(Operator::Gt, None, "hello", &mut w, 0), (false, true));
    assert_eq!(string_condition_met(Operator::Gt, None, "hello", &mut w, 100), (false, false));
    assert_eq!(string_condition_met(Operator::Gt, None, "hello", &mut w, 5_000), (false, true));
}

#[test]
fn engine_commands_toggle_persist_and_audit() {
    let mut a = ArmingState::new(true, Some(1_000));
    let s = status_of(&a);
    assert!(!s.armed && !s.dry_run && s.was_armed_before_restart);
    let e = apply_command(&mut a, EngineCommand::Arm { now: 50 });
    assert_eq!(e.persist_armed, Some(true));
    assert_eq!(e.action, AuditAction::Arm);
    assert_eq!(e.detail, "engine armed");
    assert!(status_of(&a).armed);
    let e = apply_command(&mut a, EngineCommand::DryRun { on: true });
    assert_eq!(e.persist_armed, None);
    assert_eq!(e.detail, "dry-run enabled");
    assert!(status_of(&a).dry_run && status_of(&a).armed);
    let e = apply_command(&mut a, EngineCommand::Disarm);
    assert_eq!(e.persist_armed, Some(false));
    assert_eq!(e.detail, "engine disarmed");
    assert!(!a.is_armed());
    let e = apply_command(&mut a, EngineCommand::DryRun { on: false });
    assert_eq!(e.detail, "dry-run disabled");
    assert_eq!(e.action, AuditAction::DryRunToggle);
}

#[test]
fn values_match_targets_of_their_own_kind() {
    assert!(value_matches_target(true, true));
    assert!(value_matches_target(false, false));
    assert!(!value_matches_target(true, false));
    assert!(!value_matches_target(false, true));
}

#[test]
fn the_detail_is_assembled_from_quoted_literals() {
    assert_eq!(detail_from_quoted_texts(None, None), None);
    assert_eq!(detail_from_quoted_texts(Some("\"a\""), None).as_deref(), Some("{\"sourceText\":\"a\"}"));
    assert_eq!(
        detail_from_quoted_texts(Some("1"), Some("2")).as_deref(),
        Some("{\"sourceText\":1,\"writtenText\":2}")
    );
}
