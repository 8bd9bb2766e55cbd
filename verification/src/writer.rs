//! The writer's safety guard. For each write intent, in this order:
//! 1. an unresolvable target, or a target on a connection with no broker
//!    handle, is audited `failed` and skipped;
//! 2. a disarmed engine suppresses the write (`suppressed_disarmed`);
//! 3. a write that would exceed a rate cap trips the breaker: the engine is
//!    auto-disarmed and a `rate_limit_tripped` row is written;
//! 4. dry-run audits the would-be write and never touches the broker;
//! 5. a value whose kind cannot match the target is audited `failed`;
//! 6. otherwise the write goes ahead: the `rule_fire` row is logged first,
//!    the rate-limiter slot is recorded, then the broker is called.
//!
//! The guard is a pure decision over the arming state and the limiter; the
//! caller performs the audit inserts and the broker call it asks for.

use vstd::prelude::*;
use vstd::string::*;

use crate::arming::ArmingState;
use crate::rate_limiter::{peek_per_spec, prune_spec, would_exceed_spec, RateLimitConfig, RateLimiter};
use crate::text::{take_chars, take_chars_of};
use crate::write_audit::{AuditAction, AuditResult};

verus! {

/// What the guard decided for one write intent.
#[derive(Clone, Copy, PartialEq, Eq, Debug, Structural)]
pub enum GuardOutcome {
    /// The write target could not be resolved.
    TargetUnresolved,
    /// The target's connection has no broker handle.
    NoBrokerHandle,
    /// The engine is disarmed.
    SuppressedDisarmed,
    /// The rate limiter tripped; the engine has been auto-disarmed.
    RateLimitTripped,
    /// Dry-run: audited, not written.
    SuppressedDryRun,
    /// The value's kind cannot match the target.
    ValueMismatch,
    /// Log the `rule_fire` row, charge the rate-limiter slot, then write.
    Write,
}

/// The outcome the guard reaches from the given state and facts.
pub open spec fn guard_spec(
    armed: bool,
    dry_run: bool,
    exceeds: bool,
    target_connection: Option<i64>,
    has_handle: bool,
    value_matches: bool,
) -> GuardOutcome {
    if target_connection is None {
        GuardOutcome::TargetUnresolved
    } else if !has_handle {
        GuardOutcome::NoBrokerHandle
    } else if !armed {
        GuardOutcome::SuppressedDisarmed
    } else if exceeds {
        GuardOutcome::RateLimitTripped
    } else if dry_run {
        GuardOutcome::SuppressedDryRun
    } else if !value_matches {
        GuardOutcome::ValueMismatch
    } else {
        GuardOutcome::Write
    }
}

/// Runs one write intent through the safety guard at `now`.
/// `target_connection` is the resolved target's connection (`None` when the
/// target did not resolve), `has_handle` whether that connection has a
/// broker handle, and `value_matches` whether the value's kind fits the
/// target's wire shape.
///
/// Only a trip changes the arming state (it disarms). The limiter is
/// consulted (and pruned) only once the target resolved with a handle and
/// the engine is armed; on `Write` the caller logs the `rule_fire` row,
/// then charges the slot with [`RateLimiter::record`], then writes.
pub fn guard_write(
    arming: &mut ArmingState,
    limiter: &mut RateLimiter,
    target_connection: Option<i64>,
    has_handle: bool,
    value_matches: bool,
    now: u64,
) -> (r: GuardOutcome)
    requires
        old(arming).wf(),
    ensures
        final(arming).wf(),
        r == guard_spec(
            old(arming).armed_spec(),
            old(arming).dry_run_spec(),
            target_connection is Some && would_exceed_spec(
                old(limiter).config_spec(),
                old(limiter).global_spec(),
                old(limiter).per_spec(),
                target_connection.unwrap(),
                now,
            ),
            target_connection,
            has_handle,
            value_matches,
        ),
        // Only a trip changes the arming state, and it disarms.
        r == GuardOutcome::RateLimitTripped ==> !final(arming).armed_spec() && final(arming).armed_at_spec() is None,
        r != GuardOutcome::RateLimitTripped ==> *final(arming) == *old(arming),
        final(arming).dry_run_spec() == old(arming).dry_run_spec(),
        final(arming).auto_disarm_spec() == old(arming).auto_disarm_spec(),
        final(arming).was_armed_spec() == old(arming).was_armed_spec(),
        // Nothing is written unless armed and not in dry-run.
        r == GuardOutcome::Write ==> old(arming).armed_spec() && !old(arming).dry_run_spec(),
        // The limiter: untouched before the armed check, only pruned by the
        // peek after it, never charged here (the caller charges a write once
        // its audit row is logged).
        final(limiter).config_spec() == old(limiter).config_spec(),
        (target_connection is None || !has_handle || !old(arming).armed_spec()) ==> *final(limiter) == *old(limiter),
        (target_connection is Some && has_handle && old(arming).armed_spec()) ==> {
            &&& final(limiter).global_spec() == prune_spec(
                old(limiter).global_spec(),
                now,
                old(limiter).config_spec().window,
            )
            &&& final(limiter).global_spec().len() <= old(limiter).global_spec().len()
            &&& final(limiter).per_spec() == peek_per_spec(
                old(limiter).config_spec(),
                old(limiter).global_spec(),
                old(limiter).per_spec(),
                target_connection.unwrap(),
                now,
            )
        },
{
    let connection = match target_connection {
        Some(c) => c,
        None => {
            return GuardOutcome::TargetUnresolved;
        },
    };
    if !has_handle {
        return GuardOutcome::NoBrokerHandle;
    }
    if !arming.is_armed() {
        return GuardOutcome::SuppressedDisarmed;
    }
    let ghost g0 = limiter.global_spec();
    let ghost w = limiter.config_spec().window;
    if limiter.would_exceed(connection, now) {
        arming.disarm();
        proof {
            crate::rate_limiter::lemma_prune_len_le(g0, now, w);
        }
        return GuardOutcome::RateLimitTripped;
    }
    if arming.is_dry_run() {
        proof {
            crate::rate_limiter::lemma_prune_len_le(g0, now, w);
        }
        return GuardOutcome::SuppressedDryRun;
    }
    if !value_matches {
        proof {
            crate::rate_limiter::lemma_prune_len_le(g0, now, w);
        }
        return GuardOutcome::ValueMismatch;
    }
    proof {
        crate::rate_limiter::lemma_prune_len_le(g0, now, w);
    }
    GuardOutcome::Write
}

/// The audit row a non-writing outcome produces: its action, its terminal
/// result, and its detail text (`None` = no detail).
pub open spec fn outcome_row_spec(o: GuardOutcome) -> Option<(AuditAction, AuditResult, Option<Seq<char>>)> {
    match o {
        GuardOutcome::TargetUnresolved => Some(
            (AuditAction::RuleFire, AuditResult::Failed, Some("write target could not be resolved"@)),
        ),
        GuardOutcome::NoBrokerHandle => Some(
            (AuditAction::RuleFire, AuditResult::Failed, Some("no broker handle for the target's connection"@)),
        ),
        GuardOutcome::SuppressedDisarmed => Some((AuditAction::RuleFire, AuditResult::SuppressedDisarmed, None)),
        GuardOutcome::RateLimitTripped => Some(
            (
                AuditAction::RateLimitTripped,
                AuditResult::SuppressedRateLimited,
                Some("rate limit exceeded; breaker tripped and engine auto-disarmed"@),
            ),
        ),
        GuardOutcome::SuppressedDryRun => Some((AuditAction::RuleFire, AuditResult::SuppressedDryRun, None)),
        GuardOutcome::ValueMismatch => Some(
            (AuditAction::RuleFire, AuditResult::Failed, Some("write value type does not match the target"@)),
        ),
        GuardOutcome::Write => None,
    }
}

impl GuardOutcome {
    /// The single terminal audit row for a non-writing outcome (`None` for
    /// `Write`, whose row is logged before the write and settled after it).
    /// A string-write detail, when the intent has one, replaces a `None`
    /// detail here but never a fixed one.
    pub fn audit_row(self) -> (r: Option<(AuditAction, AuditResult, Option<&'static str>)>)
        ensures
            match (r, outcome_row_spec(self)) {
                (Some((a, res, d)), Some((sa, sres, sd))) => a == sa && res == sres && match (d, sd) {
                    (Some(x), Some(y)) => x@ == y,
                    (None, None) => true,
                    _ => false,
                },
                (None, None) => true,
                _ => false,
            },
    {
        match self {
            GuardOutcome::TargetUnresolved => Some(
                (AuditAction::RuleFire, AuditResult::Failed, Some("write target could not be resolved")),
            ),
            GuardOutcome::NoBrokerHandle => Some(
                (AuditAction::RuleFire, AuditResult::Failed, Some("no broker handle for the target's connection")),
            ),
            GuardOutcome::SuppressedDisarmed => Some((AuditAction::RuleFire, AuditResult::SuppressedDisarmed, None)),
            GuardOutcome::RateLimitTripped => Some(
                (
                    AuditAction::RateLimitTripped,
                    AuditResult::SuppressedRateLimited,
                    Some("rate limit exceeded; breaker tripped and engine auto-disarmed"),
                ),
            ),
            GuardOutcome::SuppressedDryRun => Some((AuditAction::RuleFire, AuditResult::SuppressedDryRun, None)),
            GuardOutcome::ValueMismatch => Some(
                (AuditAction::RuleFire, AuditResult::Failed, Some("write value type does not match the target")),
            ),
            GuardOutcome::Write => None,
        }
    }
}

/// The result a logged-before-write row is settled to: `ok` only when the
/// broker answered with a first result that is a success.
pub fn settle_result(first_result_ok: bool) -> (r: AuditResult)
    ensures
        r == if first_result_ok { AuditResult::Succeeded } else { AuditResult::Failed },
{
    if first_result_ok {
        AuditResult::Succeeded
    } else {
        AuditResult::Failed
    }
}

/// The audit row tells what happened: for any intent the guard does not
/// write, the row's result is `suppressed_disarmed` exactly when the engine
/// was disarmed, `suppressed_rate_limited` (under the `rate_limit_tripped`
/// action) exactly when it was armed and the limiter full,
/// `suppressed_dry_run` exactly when it was armed, within the limits and in
/// dry-run, and `failed` exactly when the target or its handle was missing
/// or the value could not fit; a write gets no terminal row here.
pub proof fn law_audit_row_tells_what_happened(
    armed: bool,
    dry_run: bool,
    exceeds: bool,
    target_connection: Option<i64>,
    has_handle: bool,
    value_matches: bool,
)
    ensures
        ({
            let o = guard_spec(armed, dry_run, exceeds, target_connection, has_handle, value_matches);
            let reached = target_connection is Some && has_handle;
            match outcome_row_spec(o) {
                None => reached && armed && !exceeds && !dry_run && value_matches,
                Some((action, result, _)) => {
                    &&& (result == AuditResult::SuppressedDisarmed) <==> (reached && !armed)
                    &&& (result == AuditResult::SuppressedRateLimited) <==> (reached && armed && exceeds)
                    &&& (result == AuditResult::SuppressedDryRun) <==> (reached && armed && !exceeds && dry_run)
                    &&& (result == AuditResult::Failed) <==> (!reached || (armed && !exceeds && !dry_run
                        && !value_matches))
                    &&& result != AuditResult::Succeeded
                    &&& (action == AuditAction::RateLimitTripped) <==> (result == AuditResult::SuppressedRateLimited)
                },
            }
        }),
{
}

/// No two different suppressions are audited alike: outcomes whose rows
/// carry the same result other than `failed` are the same outcome.
pub proof fn law_suppressions_are_told_apart(o1: GuardOutcome, o2: GuardOutcome)
    requires
        outcome_row_spec(o1) matches Some((_, r1, _)) && outcome_row_spec(o2) matches Some((_, r2, _)) && r1 == r2
            && r1 != AuditResult::Failed,
    ensures
        o1 == o2,
{
}

/// One step the caller performs for a guarded write intent.
#[derive(Clone, Copy, PartialEq, Eq, Debug, Structural)]
pub enum WriterAction {
    /// Insert the single terminal audit row of [`GuardOutcome::audit_row`].
    AuditSuppressed,
    /// Insert the `rule_fire` audit row, pending, before anything is sent.
    LogPendingFire,
    /// Charge the rate-limiter slot of the target's connection.
    RecordSlot,
    /// Send the write to the broker.
    SendWrite,
    /// Settle the pending row with [`settle_result`] of the broker's answer.
    SettleFire,
}

/// The steps for an outcome, in order: a write is logged before it is
/// charged and sent, and settled after; anything else is one audit row,
/// with no slot charged and nothing sent.
pub open spec fn writer_actions_spec(o: GuardOutcome) -> Seq<WriterAction> {
    if o == GuardOutcome::Write {
        seq![WriterAction::LogPendingFire, WriterAction::RecordSlot, WriterAction::SendWrite, WriterAction::SettleFire]
    } else {
        seq![WriterAction::AuditSuppressed]
    }
}

impl GuardOutcome {
    /// The steps the caller performs for this outcome (see
    /// [`writer_actions_spec`]).
    pub fn writer_actions(self) -> (r: Vec<WriterAction>)
        ensures
            r@ == writer_actions_spec(self),
    {
        match self {
            GuardOutcome::Write => vec![
                WriterAction::LogPendingFire,
                WriterAction::RecordSlot,
                WriterAction::SendWrite,
                WriterAction::SettleFire,
            ],
            _ => vec![WriterAction::AuditSuppressed],
        }
    }
}

/// Log before write: whenever the broker is sent a write, the `rule_fire`
/// row was inserted before it and the rate slot was charged before it; no
/// outcome but `Write` sends anything or charges a slot; every write is
/// settled after it is sent.
pub proof fn law_log_before_write(o: GuardOutcome)
    ensures
        ({
            let s = writer_actions_spec(o);
            &&& s.contains(WriterAction::SendWrite) <==> o == GuardOutcome::Write
            &&& s.contains(WriterAction::RecordSlot) <==> o == GuardOutcome::Write
            &&& forall|i: int, j: int|
                0 <= i < s.len() && 0 <= j < s.len() && s[i] == WriterAction::LogPendingFire && s[j]
                    == WriterAction::SendWrite ==> i < j
            &&& forall|i: int, j: int|
                0 <= i < s.len() && 0 <= j < s.len() && s[i] == WriterAction::RecordSlot && s[j]
                    == WriterAction::SendWrite ==> i < j
            &&& forall|i: int, j: int|
                0 <= i < s.len() && 0 <= j < s.len() && s[i] == WriterAction::SendWrite && s[j]
                    == WriterAction::SettleFire ==> i < j
        }),
{
    let s = writer_actions_spec(o);
    if o == GuardOutcome::Write {
        assert(s[2] == WriterAction::SendWrite);
        assert(s[1] == WriterAction::RecordSlot);
    } else {
        assert(s[0] == WriterAction::AuditSuppressed);
    }
}

/// How many characters of string text an audit detail keeps.
pub const MAX_AUDIT_TEXT_CHARS: usize = 100;

/// Truncates to [`MAX_AUDIT_TEXT_CHARS`] characters, never mid-character.
pub fn truncate_text(s: &str) -> (r: String)
    ensures
        r@ == take_chars(s@, 100),
{
    take_chars_of(s, MAX_AUDIT_TEXT_CHARS)
}

/// The lower-case hexadecimal digit for `n` in `0..16`.
pub open spec fn hex_digit(n: int) -> char {
    if n < 10 {
        ('0' as int + n) as char
    } else {
        ('a' as int + (n - 10)) as char
    }
}

/// How one character appears inside a JSON string literal: `"` and `\`
/// escaped with a backslash, the five named control characters as `\b`,
/// `\t`, `\n`, `\f`, `\r`, any other character below U+0020 as `\u00`
/// and two lower-case hex digits, everything else as itself.
pub open spec fn json_escape(c: char) -> Seq<char> {
    if c == '"' {
        seq!['\\', '"']
    } else if c == '\\' {
        seq!['\\', '\\']
    } else if c == '\x08' {
        seq!['\\', 'b']
    } else if c == '\t' {
        seq!['\\', 't']
    } else if c == '\n' {
        seq!['\\', 'n']
    } else if c == '\x0c' {
        seq!['\\', 'f']
    } else if c == '\r' {
        seq!['\\', 'r']
    } else if (c as int) < 0x20 {
        seq!['\\', 'u', '0', '0', hex_digit((c as int) / 16), hex_digit((c as int) % 16)]
    } else {
        seq![c]
    }
}

/// Every character of `s` escaped, in order.
pub open spec fn json_escaped(s: Seq<char>) -> Seq<char>
    decreases s.len(),
{
    if s.len() == 0 {
        Seq::empty()
    } else {
        json_escaped(s.drop_last()) + json_escape(s.last())
    }
}

/// The JSON string literal holding `s`, as `serde_json` writes it: the
/// escaped characters between double quotes.
pub open spec fn json_string(s: Seq<char>) -> Seq<char> {
    seq!['"'] + json_escaped(s) + seq!['"']
}

/// `serde_json::to_string` on a `&str`: the quoted, escaped JSON literal
/// (its compact formatter writes the quotes and each character as
/// [`json_escape`] says). Serializing a string slice into memory cannot
/// fail, so the error arm is never taken.
#[verifier::external_body]
fn json_quote(s: &str) -> (r: String)
    ensures
        r@ == json_string(s@),
{
    match serde_json::to_string(s) {
        Ok(t) => t,
        Err(_) => String::new(),
    }
}

/// The audit detail JSON for a write that touches string text:
/// `{"sourceText":..,"writtenText":..}` with each member present only when
/// that side is a string, each truncated to 100 characters; `None` for a
/// purely numeric write.
pub open spec fn string_write_detail_spec(source_text: Option<Seq<char>>, written_text: Option<Seq<char>>) -> Option<Seq<char>> {
    match (source_text, written_text) {
        (None, None) => None,
        (Some(s), None) => Some("{\"sourceText\":"@ + json_string(take_chars(s, 100)) + "}"@),
        (None, Some(w)) => Some("{\"writtenText\":"@ + json_string(take_chars(w, 100)) + "}"@),
        (Some(s), Some(w)) => Some(
            "{\"sourceText\":"@ + json_string(take_chars(s, 100)) + ",\"writtenText\":"@ + json_string(
                take_chars(w, 100),
            ) + "}"@,
        ),
    }
}

/// The audit detail assembled from the already-quoted JSON literals of
/// its text sides.
pub open spec fn detail_from_quoted(source: Option<Seq<char>>, written: Option<Seq<char>>) -> Option<
    Seq<char>,
> {
    match (source, written) {
        (None, None) => None,
        (Some(s), None) => Some("{\"sourceText\":"@ + s + "}"@),
        (None, Some(w)) => Some("{\"writtenText\":"@ + w + "}"@),
        (Some(s), Some(w)) => Some("{\"sourceText\":"@ + s + ",\"writtenText\":"@ + w + "}"@),
    }
}

/// Builds the audit detail from the JSON literals of its text sides.
pub fn detail_from_quoted_texts(source_quoted: Option<&str>, written_quoted: Option<&str>) -> (r:
    Option<String>)
    ensures
        match r {
            Some(d) => detail_from_quoted(
                match source_quoted { Some(s) => Some(s@), None => None },
                match written_quoted { Some(w) => Some(w@), None => None },
            ) == Some(d@),
            None => detail_from_quoted(
                match source_quoted { Some(s) => Some(s@), None => None },
                match written_quoted { Some(w) => Some(w@), None => None },
            ) is None,
        },
{
    match (source_quoted, written_quoted) {
        (None, None) => None,
        (Some(s), None) => {
            let mut out = String::from_str("{\"sourceText\":");
            out.append(s);
            out.append("}");
            Some(out)
        },
        (None, Some(w)) => {
            let mut out = String::from_str("{\"writtenText\":");
            out.append(w);
            out.append("}");
            Some(out)
        },
        (Some(s), Some(w)) => {
            let mut out = String::from_str("{\"sourceText\":");
            out.append(s);
            out.append(",\"writtenText\":");
            out.append(w);
            out.append("}");
            Some(out)
        },
    }
}

/// The audit detail for a write whose source snapshot and/or written value
/// is text (see [`string_write_detail_spec`]).
pub fn string_write_detail(source_text: Option<&str>, written_text: Option<&str>) -> (r: Option<String>)
    ensures
        r matches Some(d) ==> string_write_detail_spec(
            match source_text { Some(s) => Some(s@), None => None },
            match written_text { Some(w) => Some(w@), None => None },
        ) == Some(d@),
        r is None <==> string_write_detail_spec(
            match source_text { Some(s) => Some(s@), None => None },
            match written_text { Some(w) => Some(w@), None => None },
        ) is None,
{
    let sq = match source_text {
        Some(s) => Some(json_quote(truncate_text(s).as_str())),
        None => None,
    };
    let wq = match written_text {
        Some(w) => Some(json_quote(truncate_text(w).as_str())),
        None => None,
    };
    let source_ref: Option<&str> = match &sq {
        Some(q) => Some(q.as_str()),
        None => None,
    };
    let written_ref: Option<&str> = match &wq {
        Some(q) => Some(q.as_str()),
        None => None,
    };
    detail_from_quoted_texts(source_ref, written_ref)
}

/// Whether a value can be written to a target: a string target takes only
/// text, a numeric target anything but text.
pub fn value_matches_target(target_is_string: bool, value_is_string: bool) -> (r: bool)
    ensures
        r == (target_is_string == value_is_string),
{
    target_is_string == value_is_string
}

/// The breaker stays tripped until the window slides: after a trip at
/// `t1` leaves the limiter as the peek did (nothing recorded), a write is
/// suppressed while the engine stays disarmed, and after re-arming, a write
/// at any `t2 >= t1` at which the window is still full trips again; only
/// once it no longer is full can it go ahead.
pub proof fn law_rearm_alone_does_not_recover(
    config: RateLimitConfig,
    global: Seq<u64>,
    per: Map<i64, Seq<u64>>,
    conn: i64,
    t1: u64,
    t2: u64,
    dry_run: bool,
    value_matches: bool,
)
    requires
        would_exceed_spec(config, global, per, conn, t1),
        t1 <= t2,
    ensures
        ({
            let g1 = prune_spec(global, t1, config.window);
            let p1 = peek_per_spec(config, global, per, conn, t1);
            &&& guard_spec(false, dry_run, would_exceed_spec(config, g1, p1, conn, t2), Some(conn), true, value_matches)
                == GuardOutcome::SuppressedDisarmed
            &&& would_exceed_spec(config, global, per, conn, t2) ==> guard_spec(
                true,
                dry_run,
                would_exceed_spec(config, g1, p1, conn, t2),
                Some(conn),
                true,
                value_matches,
            ) == GuardOutcome::RateLimitTripped
            &&& would_exceed_spec(config, g1, p1, conn, t2) == would_exceed_spec(config, global, per, conn, t2)
        }),
{
    crate::rate_limiter::law_peek_consumes_no_slot(config, global, per, conn, t1, conn, t2);
}

} // verus!
