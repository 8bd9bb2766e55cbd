//! The `write_audit_log` vocabulary: the `action` and `result` column values.

use vstd::prelude::*;

verus! {

/// `write_audit_log.action` values.
#[derive(Clone, Copy, PartialEq, Eq, Debug, Structural)]
pub enum AuditAction {
    RuleFire,
    Arm,
    Disarm,
    DryRunToggle,
    RateLimitTripped,
    /// A one-shot manual write from the tag monitor.
    ManualWrite,
}

/// The persisted text of an action.
pub open spec fn action_text(a: AuditAction) -> Seq<char> {
    match a {
        AuditAction::RuleFire => "rule_fire"@,
        AuditAction::Arm => "arm"@,
        AuditAction::Disarm => "disarm"@,
        AuditAction::DryRunToggle => "dry_run_toggle"@,
        AuditAction::RateLimitTripped => "rate_limit_tripped"@,
        AuditAction::ManualWrite => "manual_write"@,
    }
}

impl AuditAction {
    /// The persisted text of this action.
    pub fn as_str(self) -> (r: &'static str)
        ensures
            r@ == action_text(self),
    {
        match self {
            AuditAction::RuleFire => "rule_fire",
            AuditAction::Arm => "arm",
            AuditAction::Disarm => "disarm",
            AuditAction::DryRunToggle => "dry_run_toggle",
            AuditAction::RateLimitTripped => "rate_limit_tripped",
            AuditAction::ManualWrite => "manual_write",
        }
    }
}

/// `write_audit_log.result` values.
#[derive(Clone, Copy, PartialEq, Eq, Debug, Structural)]
pub enum AuditResult {
    /// A physical write succeeded, or a non-write action completed.
    Succeeded,
    /// A physical write was attempted but failed (or could not be issued).
    Failed,
    /// Suppressed because the engine was disarmed.
    SuppressedDisarmed,
    /// Suppressed because the rate limiter tripped.
    SuppressedRateLimited,
    /// Suppressed because the engine was in dry-run.
    SuppressedDryRun,
}

/// The persisted text of a result.
pub open spec fn result_text(r: AuditResult) -> Seq<char> {
    match r {
        AuditResult::Succeeded => "ok"@,
        AuditResult::Failed => "failed"@,
        AuditResult::SuppressedDisarmed => "suppressed_disarmed"@,
        AuditResult::SuppressedRateLimited => "suppressed_rate_limited"@,
        AuditResult::SuppressedDryRun => "suppressed_dry_run"@,
    }
}

impl AuditResult {
    /// The persisted text of this result.
    pub fn as_str(self) -> (r: &'static str)
        ensures
            r@ == result_text(self),
    {
        match self {
            AuditResult::Succeeded => "ok",
            AuditResult::Failed => "failed",
            AuditResult::SuppressedDisarmed => "suppressed_disarmed",
            AuditResult::SuppressedRateLimited => "suppressed_rate_limited",
            AuditResult::SuppressedDryRun => "suppressed_dry_run",
        }
    }
}

/// The label stored as `rule_name_snapshot` on every manual-write row.
pub fn manual_write_label() -> (r: &'static str)
    ensures
        r@ == "手動書き込み"@,
{
    "手動書き込み"
}

/// Distinct actions are stored under distinct texts, so a stored row names
/// the one action it records.
pub proof fn law_action_texts_are_distinct(a: AuditAction, b: AuditAction)
    ensures
        action_text(a) == action_text(b) ==> a == b,
{
    reveal_strlit("rule_fire");
    reveal_strlit("arm");
    reveal_strlit("disarm");
    reveal_strlit("dry_run_toggle");
    reveal_strlit("rate_limit_tripped");
    reveal_strlit("manual_write");
    assert("rule_fire"@.len() == 9 && "arm"@.len() == 3 && "disarm"@.len() == 6 && "dry_run_toggle"@.len() == 14 && "rate_limit_tripped"@.len() == 18 && "manual_write"@.len() == 12);
}

/// Distinct results are stored under distinct texts, so a stored row names
/// the one result it records: a dry-run suppression never reads as a
/// disarmed one.
pub proof fn law_result_texts_are_distinct(a: AuditResult, b: AuditResult)
    ensures
        result_text(a) == result_text(b) ==> a == b,
{
    reveal_strlit("ok");
    reveal_strlit("failed");
    reveal_strlit("suppressed_disarmed");
    reveal_strlit("suppressed_rate_limited");
    reveal_strlit("suppressed_dry_run");
    assert("ok"@.len() == 2 && "failed"@.len() == 6 && "suppressed_disarmed"@.len() == 19 && "suppressed_rate_limited"@.len() == 23 && "suppressed_dry_run"@.len() == 18);
}

} // verus!
