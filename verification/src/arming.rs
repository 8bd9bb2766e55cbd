//! The engine's arming state: the two live flags that guard every physical
//! write (`armed`, `dry_run`), the informational was-armed-before-restart bit,
//! and the timed arm auto-expiry (the arm time and the configured window).
//!
//! The live `armed` flag always constructs to `false`, whatever was persisted:
//! a restart never resumes live actuation. Times are milliseconds on a
//! monotonic clock supplied by the caller.

use vstd::prelude::*;

verus! {

/// Whether an engine with this state has passed its auto-disarm deadline as
/// of `now`: armed, a window configured, and `armed_at + window <= now`.
pub open spec fn expired_spec(armed: bool, armed_at: Option<u64>, auto_disarm: Option<u64>, now: u64) -> bool {
    armed && match (auto_disarm, armed_at) {
        (Some(w), Some(at)) => at + w <= now,
        _ => false,
    }
}

/// Milliseconds left until auto-disarm as of `now` (zero at and after the
/// deadline, capped at `u64::MAX`), or `None` while disarmed or with no
/// window configured.
pub open spec fn remaining_spec(armed: bool, armed_at: Option<u64>, auto_disarm: Option<u64>, now: u64) -> Option<u64> {
    if !armed {
        None
    } else {
        match (auto_disarm, armed_at) {
            (Some(w), Some(at)) => Some(
                if at + w <= now {
                    0u64
                } else if at + w - now > u64::MAX {
                    u64::MAX
                } else {
                    (at + w - now) as u64
                },
            ),
            _ => None,
        }
    }
}

/// The live arm/dry-run flags plus arm history and auto-expiry state.
pub struct ArmingState {
    armed: bool,
    dry_run: bool,
    was_armed_before_restart: bool,
    armed_at: Option<u64>,
    auto_disarm: Option<u64>,
}

impl ArmingState {
    /// The live "may this engine issue physical writes?" flag.
    pub closed spec fn armed_spec(&self) -> bool {
        self.armed
    }

    /// Whether would-be writes are audited but never sent.
    pub closed spec fn dry_run_spec(&self) -> bool {
        self.dry_run
    }

    /// The persisted armed value observed at startup.
    pub closed spec fn was_armed_spec(&self) -> bool {
        self.was_armed_before_restart
    }

    /// When the engine was last armed, `None` while disarmed.
    pub closed spec fn armed_at_spec(&self) -> Option<u64> {
        self.armed_at
    }

    /// The configured auto-disarm window in milliseconds.
    pub closed spec fn auto_disarm_spec(&self) -> Option<u64> {
        self.auto_disarm
    }

    /// The state invariant: an arm time is held exactly while armed.
    pub closed spec fn wf(&self) -> bool {
        self.armed <==> self.armed_at is Some
    }

    /// Constructs with the live `armed` flag forced to `false` and dry-run
    /// off; `was_armed_persisted` is kept only as history.
    pub fn new(was_armed_persisted: bool, auto_disarm: Option<u64>) -> (r: Self)
        ensures
            r.wf(),
            !r.armed_spec(),
            !r.dry_run_spec(),
            r.was_armed_spec() == was_armed_persisted,
            r.armed_at_spec() is None,
            r.auto_disarm_spec() == auto_disarm,
    {
        ArmingState {
            armed: false,
            dry_run: false,
            was_armed_before_restart: was_armed_persisted,
            armed_at: None,
            auto_disarm,
        }
    }

    /// Arms at `now`, recording the time the auto-expiry window counts from.
    pub fn arm(&mut self, now: u64)
        ensures
            final(self).wf(),
            final(self).armed_spec(),
            final(self).armed_at_spec() == Some(now),
            final(self).dry_run_spec() == old(self).dry_run_spec(),
            final(self).was_armed_spec() == old(self).was_armed_spec(),
            final(self).auto_disarm_spec() == old(self).auto_disarm_spec(),
    {
        self.armed = true;
        self.armed_at = Some(now);
    }

    /// Disarms, clearing the arm time so a later re-arm starts a fresh window.
    pub fn disarm(&mut self)
        ensures
            final(self).wf(),
            !final(self).armed_spec(),
            final(self).armed_at_spec() is None,
            final(self).dry_run_spec() == old(self).dry_run_spec(),
            final(self).was_armed_spec() == old(self).was_armed_spec(),
            final(self).auto_disarm_spec() == old(self).auto_disarm_spec(),
    {
        self.armed = false;
        self.armed_at = None;
    }

    /// Whether physical writes are allowed.
    pub fn is_armed(&self) -> (r: bool)
        ensures
            r == self.armed_spec(),
    {
        self.armed
    }

    /// Turns dry-run on or off.
    pub fn set_dry_run(&mut self, on: bool)
        ensures
            final(self).dry_run_spec() == on,
            final(self).armed_spec() == old(self).armed_spec(),
            final(self).armed_at_spec() == old(self).armed_at_spec(),
            final(self).was_armed_spec() == old(self).was_armed_spec(),
            final(self).auto_disarm_spec() == old(self).auto_disarm_spec(),
            final(self).wf() == old(self).wf(),
    {
        self.dry_run = on;
    }

    /// Whether dry-run is on.
    pub fn is_dry_run(&self) -> (r: bool)
        ensures
            r == self.dry_run_spec(),
    {
        self.dry_run
    }

    /// Whether the persisted state at startup was "armed" (display only).
    pub fn was_armed_before_restart(&self) -> (r: bool)
        ensures
            r == self.was_armed_spec(),
    {
        self.was_armed_before_restart
    }

    /// The configured auto-disarm window, or `None` when disabled.
    pub fn auto_disarm(&self) -> (r: Option<u64>)
        ensures
            r == self.auto_disarm_spec(),
    {
        self.auto_disarm
    }

    /// Has the arm window elapsed as of `now`? A disarmed engine, or one with
    /// no window, is never expired.
    pub fn is_expired(&self, now: u64) -> (r: bool)
        ensures
            r == expired_spec(self.armed_spec(), self.armed_at_spec(), self.auto_disarm_spec(), now),
    {
        let window = match self.auto_disarm {
            Some(w) => w,
            None => {
                return false;
            },
        };
        if !self.armed {
            return false;
        }
        match self.armed_at {
            Some(at) => now >= at && now - at >= window,
            None => false,
        }
    }

    /// Time remaining until auto-disarm as of `now`: zero at or after the
    /// deadline, `None` while disarmed or with no window.
    pub fn remaining(&self, now: u64) -> (r: Option<u64>)
        ensures
            r == remaining_spec(self.armed_spec(), self.armed_at_spec(), self.auto_disarm_spec(), now),
    {
        if !self.armed {
            return None;
        }
        let window = match self.auto_disarm {
            Some(w) => w,
            None => {
                return None;
            },
        };
        let at = match self.armed_at {
            Some(at) => at,
            None => {
                return None;
            },
        };
        if now >= at && now - at >= window {
            Some(0)
        } else if now >= at {
            Some(window - (now - at))
        } else {
            let ahead = at - now;
            if ahead > u64::MAX - window {
                Some(u64::MAX)
            } else {
                Some(ahead + window)
            }
        }
    }
}

/// A disarmed engine is never expired and shows no countdown, whatever its
/// history or window.
pub proof fn law_disarmed_never_expires(armed_at: Option<u64>, auto_disarm: Option<u64>, now: u64)
    ensures
        !expired_spec(false, armed_at, auto_disarm, now),
        remaining_spec(false, armed_at, auto_disarm, now) is None,
{
}

/// The deadline `end` less `now`, never below zero and capped at the
/// largest `u64`.
pub open spec fn countdown(end: int, now: u64) -> u64 {
    if end <= now {
        0
    } else if end - now > u64::MAX {
        u64::MAX
    } else {
        (end - now) as u64
    }
}

/// Armed with a window, the countdown reads zero exactly when the arm has
/// expired, and counts down one for one with the clock before that.
pub proof fn law_remaining_zero_iff_expired(at: u64, w: u64, now: u64)
    ensures
        (remaining_spec(true, Some(at), Some(w), now) == Some(0u64)) <==> expired_spec(
            true,
            Some(at),
            Some(w),
            now,
        ),
        remaining_spec(true, Some(at), Some(w), now) == Some(countdown(at + w, now)),
{
}

/// Whatever calls came before, if the last arm was at `t0` (or the engine
/// is disarmed), `remaining` counts down from `t0` plus the window: zero at
/// and after the deadline, exactly when [`expired_spec`] holds; `None`
/// while disarmed or with no window.
pub proof fn law_remaining_counts_down_from_the_last_arm(s: ArmingState, t0: u64, now: u64)
    requires
        s.wf(),
        s.armed_spec() ==> s.armed_at_spec() == Some(t0),
    ensures
        remaining_spec(s.armed_spec(), s.armed_at_spec(), s.auto_disarm_spec(), now) == if s.armed_spec() {
            match s.auto_disarm_spec() {
                Some(w) => Some(countdown(t0 + w, now)),
                None => None,
            }
        } else {
            None
        },
        (remaining_spec(s.armed_spec(), s.armed_at_spec(), s.auto_disarm_spec(), now) == Some(0u64))
            <==> expired_spec(s.armed_spec(), s.armed_at_spec(), s.auto_disarm_spec(), now),
{
}

/// A fresh arm at `now` with a positive window is not expired at `now` and
/// shows the whole window remaining.
pub proof fn law_fresh_arm_has_full_window(now: u64, w: u64)
    requires
        w > 0,
        now + w <= u64::MAX,
    ensures
        !expired_spec(true, Some(now), Some(w), now),
        remaining_spec(true, Some(now), Some(w), now) == Some(w),
{
}

} // verus!
