use relay_wright::arming::ArmingState;

#[test]
fn constructs_disarmed_even_when_persisted_armed() {
    let state = ArmingState::new(true, None);
    assert!(
        !state.is_armed(),
        "live armed flag must be false on construction regardless of persisted value"
    );
    assert!(
        state.was_armed_before_restart(),
        "persisted armed=true must survive as informational history"
    );
}

#[test]
fn arm_disarm_and_dry_run_toggle() {
    let mut state = ArmingState::new(false, None);
    assert!(!state.is_armed());
    state.arm(1_000);
    assert!(state.is_armed());
    state.disarm();
    assert!(!state.is_armed());

    assert!(!state.is_dry_run());
    state.set_dry_run(true);
    assert!(state.is_dry_run());
    state.set_dry_run(false);
    assert!(!state.is_dry_run());
}

#[test]
fn auto_disarm_expiry_ladder_and_remaining() {
    let window: u64 = 100 * 1000;
    let mut state = ArmingState::new(false, Some(window));
    let t0: u64 = 5_000_000;
    state.arm(t0);

    assert!(!state.is_expired(t0), "not expired at the moment of arming");
    assert!(
        !state.is_expired(t0 + window - 1),
        "not expired just before the deadline"
    );
    assert!(
        state.is_expired(t0 + window),
        "expired exactly at the deadline (>=, not >)"
    );
    assert!(
        state.is_expired(t0 + window + 1000),
        "stays expired after the deadline"
    );

    assert_eq!(state.remaining(t0), Some(window), "full window remaining at arm time");
    assert_eq!(
        state.remaining(t0 + 40 * 1000),
        Some(60 * 1000),
        "remaining ticks down linearly"
    );
    assert_eq!(
        state.remaining(t0 + window),
        Some(0),
        "remaining saturates to zero at the deadline"
    );
    assert_eq!(
        state.remaining(t0 + window + 1000),
        Some(0),
        "remaining saturates to zero after the deadline, never negative"
    );
}

#[test]
fn auto_disarm_none_never_expires() {
    let mut state = ArmingState::new(false, None);
    let t0: u64 = 5_000_000;
    state.arm(t0);

    assert!(
        !state.is_expired(t0 + 365 * 24 * 3600 * 1000),
        "auto_disarm = None must never expire, no matter how long armed"
    );
    assert_eq!(state.remaining(t0), None, "remaining is None when the feature is disabled");
    assert_eq!(state.auto_disarm(), None);
}

#[test]
fn not_armed_is_never_expired_even_with_a_window_configured() {
    let state = ArmingState::new(false, Some(1));
    let t0: u64 = 5_000_000;
    assert!(!state.is_expired(t0 + 1000));
    assert_eq!(state.remaining(t0), None);
}

#[test]
fn disarm_clears_armed_at_so_expiry_state_resets() {
    let window: u64 = 10 * 1000;
    let mut state = ArmingState::new(false, Some(window));
    let t0: u64 = 5_000_000;
    state.arm(t0);
    assert!(state.is_expired(t0 + 20 * 1000));

    state.disarm();
    assert!(!state.is_armed());
    assert!(
        !state.is_expired(t0 + 20 * 1000),
        "disarmed must never read as expired"
    );
    assert_eq!(state.remaining(t0 + 20 * 1000), None);

    let t1 = t0 + 1000 * 1000;
    state.arm(t1);
    assert!(!state.is_expired(t1), "a fresh arm must not be immediately expired");
    assert_eq!(state.remaining(t1), Some(window));
}

#[test]
fn remaining_is_zero_exactly_when_expired() {
    let mut state = ArmingState::new(false, Some(500));
    state.arm(1_000);
    for now in [1_000u64, 1_200, 1_499, 1_500, 1_501, 9_999] {
        assert_eq!(state.remaining(now) == Some(0), state.is_expired(now));
    }
}

#[test]
fn a_reading_before_the_arm_time_is_not_expired() {
    let mut state = ArmingState::new(false, Some(500));
    state.arm(1_000);
    // A clock reading earlier than the arm time is not past the deadline;
    // what remains is measured from that reading to the deadline.
    assert!(!state.is_expired(900));
    assert_eq!(state.remaining(900), Some(600));
}
