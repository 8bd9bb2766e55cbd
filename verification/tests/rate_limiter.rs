use std::collections::VecDeque;

use relay_wright::rate_limiter::{RateLimitConfig, RateLimiter};

fn cfg(global_max: usize, per_connection_max: usize) -> RateLimitConfig {
    RateLimitConfig { window: 60 * 1000, global_max, per_connection_max }
}

#[test]
fn per_connection_cap_trips_after_max_writes() {
    let mut rl = RateLimiter::new(cfg(100, 3));
    let t: u64 = 1_000_000;
    assert!(!rl.would_exceed(1, t));
    rl.record(1, t);
    rl.record(1, t);
    rl.record(1, t);
    assert!(rl.would_exceed(1, t));
    assert!(!rl.would_exceed(2, t));
}

#[test]
fn global_cap_trips_across_connections() {
    let mut rl = RateLimiter::new(cfg(3, 100));
    let t: u64 = 1_000_000;
    rl.record(1, t);
    rl.record(2, t);
    rl.record(3, t);
    assert!(rl.would_exceed(4, t));
}

#[test]
fn window_slides_so_old_writes_stop_counting() {
    let mut rl = RateLimiter::new(cfg(100, 2));
    let t0: u64 = 1_000_000;
    rl.record(1, t0);
    rl.record(1, t0);
    assert!(rl.would_exceed(1, t0), "at cap within the window");

    let t1 = t0 + 61 * 1000;
    assert!(!rl.would_exceed(1, t1), "old writes should have slid out of the window");
}

#[test]
fn default_config_is_sixty_seconds_thirty_global_ten_per_connection() {
    let c = RateLimitConfig::default();
    assert_eq!(c.window, 60_000);
    assert_eq!(c.global_max, 30);
    assert_eq!(c.per_connection_max, 10);
    let rl = RateLimiter::new(c);
    assert_eq!(rl.config().global_max, 30);
}

#[test]
fn a_write_exactly_one_window_old_no_longer_counts() {
    let mut rl = RateLimiter::new(cfg(100, 1));
    rl.record(7, 1_000);
    assert!(rl.would_exceed(7, 1_000 + 59_999));
    assert!(!rl.would_exceed(7, 1_000 + 60_000));
}

#[test]
fn prune_drops_only_the_stale_front() {
    let mut q: VecDeque<u64> = VecDeque::new();
    q.push_back(100);
    q.push_back(200);
    q.push_back(300);
    RateLimiter::prune(&mut q, 260, 100);
    assert_eq!(q.into_iter().collect::<Vec<u64>>(), vec![200, 300]);
}

#[test]
fn a_history_counts_only_its_writes_inside_the_window() {
    // Writes at 0 (conn 1), 10 s (conn 2), 59.999 s (conn 1); caps 3 global, 2 per connection.
    let history: [(i64, u64); 3] = [(1, 0), (2, 10_000), (1, 59_999)];
    let fresh = || {
        let mut rl = RateLimiter::new(cfg(3, 2));
        for (c, t) in history {
            rl.record(c, t);
        }
        rl
    };
    // At 59.999 s all three count globally: the global cap is reached.
    assert!(fresh().would_exceed(2, 59_999));
    // At 60 s the first is exactly one window old: two count globally and
    // connection 1 holds one, so neither cap is reached.
    assert!(!fresh().would_exceed(1, 60_000));
    // Peeks in between change no later answer.
    let mut rl = fresh();
    assert!(rl.would_exceed(1, 59_999));
    assert!(!rl.would_exceed(1, 60_000));
    assert!(!rl.would_exceed(2, 60_000));
}
