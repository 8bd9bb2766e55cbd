//! The engine's control surface: the status snapshot, and what each
//! arm / disarm / dry-run command does to the arming state, persists and
//! audits.

use vstd::prelude::*;

use crate::arming::ArmingState;
use crate::write_audit::AuditAction;

verus! {

/// A snapshot of the engine's arm / dry-run state for display.
#[derive(Clone, Copy, PartialEq, Eq, Debug, Structural)]
pub struct EngineStatus {
    pub armed: bool,
    pub dry_run: bool,
    /// The armed state persisted before the last start: informational
    /// only, the engine never resumes writing by itself.
    pub was_armed_before_restart: bool,
}

/// The status of an arming state.
pub fn status_of(arming: &ArmingState) -> (r: EngineStatus)
    ensures
        r.armed == arming.armed_spec(),
        r.dry_run == arming.dry_run_spec(),
        r.was_armed_before_restart == arming.was_armed_spec(),
{
    EngineStatus {
        armed: arming.is_armed(),
        dry_run: arming.is_dry_run(),
        was_armed_before_restart: arming.was_armed_before_restart(),
    }
}

/// An operator command to the engine.
#[derive(Clone, Copy, PartialEq, Eq, Debug, Structural)]
pub enum EngineCommand {
    /// Allow physical writes, at the given time (ms).
    Arm { now: u64 },
    /// Suppress all physical writes.
    Disarm,
    /// Turn dry-run on or off.
    DryRun { on: bool },
}

/// What the caller must do after a command: persist the armed flag (arm
/// and disarm only), then write one audit row.
pub struct CommandEffect {
    /// The armed state to persist, if any.
    pub persist_armed: Option<bool>,
    /// The audit row's action.
    pub action: AuditAction,
    /// The audit row's detail text.
    pub detail: &'static str,
}

/// Applies a command to the arming state and says what to persist and
/// audit.
pub fn apply_command(arming: &mut ArmingState, command: EngineCommand) -> (r: CommandEffect)
    requires
        old(arming).wf(),
    ensures
        final(arming).wf(),
        match command {
            EngineCommand::Arm { now } => {
                &&& final(arming).armed_spec()
                &&& final(arming).armed_at_spec() == Some(now)
                &&& final(arming).dry_run_spec() == old(arming).dry_run_spec()
                &&& r.persist_armed == Some(true)
                &&& r.action == AuditAction::Arm
                &&& r.detail@ == "engine armed"@
            },
            EngineCommand::Disarm => {
                &&& !final(arming).armed_spec()
                &&& final(arming).dry_run_spec() == old(arming).dry_run_spec()
                &&& r.persist_armed == Some(false)
                &&& r.action == AuditAction::Disarm
                &&& r.detail@ == "engine disarmed"@
            },
            EngineCommand::DryRun { on } => {
                &&& final(arming).dry_run_spec() == on
                &&& final(arming).armed_spec() == old(arming).armed_spec()
                &&& final(arming).armed_at_spec() == old(arming).armed_at_spec()
                &&& r.persist_armed is None
                &&& r.action == AuditAction::DryRunToggle
                &&& r.detail@ == (if on { "dry-run enabled"@ } else { "dry-run disabled"@ })
            },
        },
        final(arming).was_armed_spec() == old(arming).was_armed_spec(),
        final(arming).auto_disarm_spec() == old(arming).auto_disarm_spec(),
{
    match command {
        EngineCommand::Arm { now } => {
            arming.arm(now);
            CommandEffect { persist_armed: Some(true), action: AuditAction::Arm, detail: "engine armed" }
        },
        EngineCommand::Disarm => {
            arming.disarm();
            CommandEffect {
                persist_armed: Some(false),
                action: AuditAction::Disarm,
                detail: "engine disarmed",
            }
        },
        EngineCommand::DryRun { on } => {
            arming.set_dry_run(on);
            CommandEffect {
                persist_armed: None,
                action: AuditAction::DryRunToggle,
                detail: if on { "dry-run enabled" } else { "dry-run disabled" },
            }
        },
    }
}

} // verus!
