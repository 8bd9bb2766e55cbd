//! The write rate limiter / circuit breaker: a sliding-window cap on physical
//! writes, enforced globally and per PLC connection. Times are milliseconds on
//! a monotonic clock supplied by the caller; the limiter reads no clock.
//!
//! `would_exceed` only inspects (pruning stale timestamps as it goes);
//! `record` is what consumes a slot. A caller that peeks and then takes a
//! non-writing path (dry-run) therefore never consumes budget.

use std::collections::HashMap;
use std::collections::VecDeque;
use vstd::prelude::*;

verus! {

broadcast use vstd::std_specs::hash::group_hash_axioms;

/// Caps and window for [`RateLimiter`].
#[derive(Clone, Copy, Debug)]
pub struct RateLimitConfig {
    /// The sliding window each cap is measured over, in milliseconds.
    pub window: u64,
    /// Max physical writes within `window` across all connections.
    pub global_max: usize,
    /// Max physical writes within `window` to any one connection.
    pub per_connection_max: usize,
}

impl Default for RateLimitConfig {
    /// 30 writes a minute overall, 10 a minute per connection.
    fn default() -> (r: Self)
        ensures
            r.window == 60_000,
            r.global_max == 30,
            r.per_connection_max == 10,
    {
        RateLimitConfig { window: 60_000, global_max: 30, per_connection_max: 10 }
    }
}

/// A timestamp at least `window` old as of `now` (a timestamp after `now`
/// counts as age zero).
pub open spec fn is_stale(t: u64, now: u64, window: u64) -> bool {
    (if now >= t { now - t } else { 0 }) >= window
}

/// `q` with its leading run of stale timestamps dropped.
pub open spec fn prune_spec(q: Seq<u64>, now: u64, window: u64) -> Seq<u64>
    decreases q.len(),
{
    if q.len() > 0 && is_stale(q[0], now, window) {
        prune_spec(q.drop_first(), now, window)
    } else {
        q
    }
}

/// The timestamps recorded for `conn` (empty when none were).
pub open spec fn queue_of(per: Map<i64, Seq<u64>>, conn: i64) -> Seq<u64> {
    if per.contains_key(conn) {
        per[conn]
    } else {
        Seq::empty()
    }
}

/// Sliding-window write counter.
pub struct RateLimiter {
    config: RateLimitConfig,
    global: VecDeque<u64>,
    per_connection: HashMap<i64, VecDeque<u64>>,
}

/// What `would_exceed` answers on a limiter in the given state.
pub open spec fn would_exceed_spec(
    config: RateLimitConfig,
    global: Seq<u64>,
    per: Map<i64, Seq<u64>>,
    conn: i64,
    now: u64,
) -> bool {
    prune_spec(global, now, config.window).len() >= config.global_max || prune_spec(
        queue_of(per, conn),
        now,
        config.window,
    ).len() >= config.per_connection_max
}

/// The per-connection queues `would_exceed` leaves: untouched when the
/// global cap already answered, else with the connection's queue pruned
/// (created empty when absent).
pub open spec fn peek_per_spec(
    config: RateLimitConfig,
    global: Seq<u64>,
    per: Map<i64, Seq<u64>>,
    conn: i64,
    now: u64,
) -> Map<i64, Seq<u64>> {
    if prune_spec(global, now, config.window).len() >= config.global_max {
        per
    } else {
        per.insert(conn, prune_spec(queue_of(per, conn), now, config.window))
    }
}

impl RateLimiter {
    /// The configuration.
    pub closed spec fn config_spec(&self) -> RateLimitConfig {
        self.config
    }

    /// Every write timestamp currently held for the global cap, oldest first.
    pub closed spec fn global_spec(&self) -> Seq<u64> {
        self.global@
    }

    /// The write timestamps currently held per connection.
    pub closed spec fn per_spec(&self) -> Map<i64, Seq<u64>> {
        self.per_connection@.map_values(|q: VecDeque<u64>| q@)
    }

    /// A limiter with no writes recorded.
    pub fn new(config: RateLimitConfig) -> (r: Self)
        ensures
            r.config_spec() == config,
            r.global_spec() == Seq::<u64>::empty(),
            r.per_spec() == Map::<i64, Seq<u64>>::empty(),
    {
        let r = RateLimiter { config, global: VecDeque::new(), per_connection: HashMap::new() };
        proof {
            assert(r.per_spec() =~= Map::<i64, Seq<u64>>::empty());
        }
        r
    }

    /// The configuration.
    pub fn config(&self) -> (r: RateLimitConfig)
        ensures
            r == self.config_spec(),
    {
        self.config
    }

    fn stale(t: u64, now: u64, window: u64) -> (r: bool)
        ensures
            r == is_stale(t, now, window),
    {
        let age = if now >= t { now - t } else { 0 };
        age >= window
    }

    /// Drops timestamps at or beyond `window` old from the front of `q`.
    pub fn prune(q: &mut VecDeque<u64>, now: u64, window: u64)
        ensures
            final(q)@ == prune_spec(old(q)@, now, window),
    {
        let ghost start = q@;
        while q.len() > 0 && Self::stale(q[0], now, window)
            invariant
                prune_spec(q@, now, window) == prune_spec(start, now, window),
            decreases q@.len(),
        {
            let ghost before = q@;
            q.pop_front();
            proof {
                assert(q@ =~= before.drop_first());
            }
        }
    }

    /// Would one more write to `connection_id` at `now` exceed either cap?
    /// Prunes stale entries as a side effect but records nothing: the global
    /// queue is pruned, and the connection's queue is pruned (created empty
    /// when absent) unless the global cap already answered.
    pub fn would_exceed(&mut self, connection_id: i64, now: u64) -> (r: bool)
        ensures
            r == would_exceed_spec(old(self).config_spec(), old(self).global_spec(), old(self).per_spec(), connection_id, now),
            final(self).config_spec() == old(self).config_spec(),
            final(self).global_spec() == prune_spec(old(self).global_spec(), now, old(self).config_spec().window),
            final(self).per_spec() == peek_per_spec(
                old(self).config_spec(),
                old(self).global_spec(),
                old(self).per_spec(),
                connection_id,
                now,
            ),
    {
        let window = self.config.window;
        Self::prune(&mut self.global, now, window);
        if self.global.len() >= self.config.global_max {
            return true;
        }
        let ghost before = self.per_connection@;
        let removed = self.per_connection.remove(&connection_id);
        let mut per = match removed {
            Some(q) => q,
            None => VecDeque::new(),
        };
        proof {
            assert(per@ == queue_of(before.map_values(|q: VecDeque<u64>| q@), connection_id));
        }
        Self::prune(&mut per, now, window);
        let r = per.len() >= self.config.per_connection_max;
        self.per_connection.insert(connection_id, per);
        proof {
            assert(self.per_spec() =~= before.map_values(|q: VecDeque<u64>| q@).insert(
                connection_id,
                per@,
            ));
        }
        r
    }

    /// Records one physical write to `connection_id` at `now`, counting
    /// against both the global and the per-connection window.
    pub fn record(&mut self, connection_id: i64, now: u64)
        ensures
            final(self).config_spec() == old(self).config_spec(),
            final(self).global_spec() == old(self).global_spec().push(now),
            final(self).per_spec() == old(self).per_spec().insert(
                connection_id,
                queue_of(old(self).per_spec(), connection_id).push(now),
            ),
    {
        self.global.push_back(now);
        let ghost before = self.per_connection@;
        let removed = self.per_connection.remove(&connection_id);
        let mut per = match removed {
            Some(q) => q,
            None => VecDeque::new(),
        };
        proof {
            assert(per@ == queue_of(before.map_values(|q: VecDeque<u64>| q@), connection_id));
        }
        per.push_back(now);
        self.per_connection.insert(connection_id, per);
        proof {
            assert(self.per_spec() =~= before.map_values(|q: VecDeque<u64>| q@).insert(
                connection_id,
                per@,
            ));
        }
    }
}

/// Pruning never lengthens a queue.
pub proof fn lemma_prune_len_le(q: Seq<u64>, now: u64, window: u64)
    ensures
        prune_spec(q, now, window).len() <= q.len(),
    decreases q.len(),
{
    if q.len() > 0 && is_stale(q[0], now, window) {
        lemma_prune_len_le(q.drop_first(), now, window);
    }
}

// ---------------------------------------------------------------------------
// Laws
// ---------------------------------------------------------------------------

/// Timestamps in non-decreasing order (what a monotonic clock records).
pub open spec fn is_sorted(q: Seq<u64>) -> bool {
    forall|i: int, j: int| 0 <= i <= j < q.len() ==> q[i] <= q[j]
}

/// The timestamps still inside the window as of `now`.
pub open spec fn recent(q: Seq<u64>, now: u64, window: u64) -> Seq<u64> {
    q.filter(|t: u64| !is_stale(t, now, window))
}

proof fn lemma_filter_drop_first(q: Seq<u64>, now: u64, window: u64)
    requires
        q.len() > 0,
    ensures
        recent(q, now, window) == if is_stale(q[0], now, window) {
            recent(q.drop_first(), now, window)
        } else {
            seq![q[0]] + recent(q.drop_first(), now, window)
        },
{
    let f = |t: u64| !is_stale(t, now, window);
    assert(q =~= seq![q[0]] + q.drop_first());
    q.drop_first().lemma_filter_prepend(q[0], f);
    assert(Seq::<u64>::empty() + q.drop_first().filter(f) =~= q.drop_first().filter(f));
}

proof fn lemma_all_recent_filter(q: Seq<u64>, now: u64, window: u64)
    requires
        forall|i: int| 0 <= i < q.len() ==> !is_stale(#[trigger] q[i], now, window),
    ensures
        recent(q, now, window) == q,
    decreases q.len(),
{
    if q.len() > 0 {
        lemma_filter_drop_first(q, now, window);
        assert forall|i: int| 0 <= i < q.drop_first().len() implies !is_stale(#[trigger] q.drop_first()[i], now, window) by {
            assert(q.drop_first()[i] == q[i + 1]);
        }
        lemma_all_recent_filter(q.drop_first(), now, window);
        assert(seq![q[0]] + q.drop_first() =~= q);
    } else {
        assert(q.filter(|t: u64| !is_stale(t, now, window)) =~= q);
    }
}

/// For timestamps recorded in clock order, pruning the stale prefix leaves
/// exactly the timestamps inside the window: the limiter counts precisely the
/// writes of the last `window` milliseconds.
pub proof fn law_prune_keeps_exactly_the_recent_writes(q: Seq<u64>, now: u64, window: u64)
    requires
        is_sorted(q),
    ensures
        prune_spec(q, now, window) == recent(q, now, window),
    decreases q.len(),
{
    if q.len() > 0 {
        lemma_filter_drop_first(q, now, window);
        let t = q.drop_first();
        assert(is_sorted(t)) by {
            assert forall|i: int, j: int| 0 <= i <= j < t.len() implies t[i] <= t[j] by {
                assert(t[i] == q[i + 1] && t[j] == q[j + 1]);
            }
        }
        if is_stale(q[0], now, window) {
            law_prune_keeps_exactly_the_recent_writes(t, now, window);
        } else {
            // The front is recent, so every later (younger or equal) one is too.
            assert forall|i: int| 0 <= i < q.len() implies !is_stale(#[trigger] q[i], now, window) by {
                assert(q[0] <= q[i]);
            }
            lemma_all_recent_filter(q, now, window);
        }
    } else {
        assert(q.filter(|t: u64| !is_stale(t, now, window)) =~= q);
    }
}

/// Once every recorded write is at least `window` old, the window has slid
/// past all of them: with non-zero caps another write no longer exceeds.
pub proof fn law_window_slides(
    config: RateLimitConfig,
    global: Seq<u64>,
    per: Map<i64, Seq<u64>>,
    conn: i64,
    now: u64,
)
    requires
        config.global_max > 0,
        config.per_connection_max > 0,
        forall|i: int| 0 <= i < global.len() ==> is_stale(#[trigger] global[i], now, config.window),
        forall|i: int|
            0 <= i < queue_of(per, conn).len() ==> is_stale(#[trigger] queue_of(per, conn)[i], now, config.window),
    ensures
        !would_exceed_spec(config, global, per, conn, now),
{
    lemma_prune_all_stale(global, now, config.window);
    lemma_prune_all_stale(queue_of(per, conn), now, config.window);
}

proof fn lemma_prune_all_stale(q: Seq<u64>, now: u64, window: u64)
    requires
        forall|i: int| 0 <= i < q.len() ==> is_stale(#[trigger] q[i], now, window),
    ensures
        prune_spec(q, now, window).len() == 0,
    decreases q.len(),
{
    if q.len() > 0 {
        assert(is_stale(q[0], now, window));
        assert forall|i: int| 0 <= i < q.drop_first().len() implies is_stale(#[trigger] q.drop_first()[i], now, window) by {
            assert(q.drop_first()[i] == q[i + 1]);
        }
        lemma_prune_all_stale(q.drop_first(), now, window);
    }
}

proof fn lemma_prune_recent_suffix(q: Seq<u64>, now: u64, window: u64, t: u64)
    requires
        !is_stale(t, now, window),
    ensures
        prune_spec(q.push(t), now, window) == prune_spec(q, now, window).push(t),
    decreases q.len(),
{
    if q.len() > 0 {
        assert(q.push(t)[0] == q[0]);
        assert(q.push(t).drop_first() =~= q.drop_first().push(t));
        lemma_prune_recent_suffix(q.drop_first(), now, window, t);
    } else {
        assert(q.push(t) =~= seq![t]);
    }
}

/// A write recorded at `now` counts against both caps at `now` (for a
/// non-zero window): the pruned global queue and the pruned queue of its
/// connection each grow by exactly that write, and every other connection's
/// queue is untouched.
pub proof fn law_record_counts_against_both_caps(
    global: Seq<u64>,
    per: Map<i64, Seq<u64>>,
    conn: i64,
    other: i64,
    now: u64,
    window: u64,
)
    requires
        window > 0,
        other != conn,
    ensures
        prune_spec(global.push(now), now, window).len() == prune_spec(global, now, window).len() + 1,
        prune_spec(queue_of(per.insert(conn, queue_of(per, conn).push(now)), conn), now, window).len()
            == prune_spec(queue_of(per, conn), now, window).len() + 1,
        queue_of(per.insert(conn, queue_of(per, conn).push(now)), other) == queue_of(per, other),
{
    lemma_prune_recent_suffix(global, now, window, now);
    lemma_prune_recent_suffix(queue_of(per, conn), now, window, now);
}

/// Pruning at `now1` and then at a later `now2` is pruning at `now2`: what
/// is stale at `now1` is stale at every later time.
proof fn lemma_prune_later(q: Seq<u64>, now1: u64, now2: u64, window: u64)
    requires
        now1 <= now2,
    ensures
        prune_spec(prune_spec(q, now1, window), now2, window) == prune_spec(q, now2, window),
    decreases q.len(),
{
    if q.len() > 0 && is_stale(q[0], now1, window) {
        assert(is_stale(q[0], now2, window));
        lemma_prune_later(q.drop_first(), now1, now2, window);
    }
}

/// A peek consumes no slot: the state `would_exceed` leaves at `t1` answers
/// every later query (any connection, any `t2 >= t1`) exactly as the state
/// before the peek would, so adding or removing peeks changes no later
/// answer.
pub proof fn law_peek_consumes_no_slot(
    config: RateLimitConfig,
    global: Seq<u64>,
    per: Map<i64, Seq<u64>>,
    conn: i64,
    t1: u64,
    id: i64,
    t2: u64,
)
    requires
        t1 <= t2,
    ensures
        would_exceed_spec(
            config,
            prune_spec(global, t1, config.window),
            peek_per_spec(config, global, per, conn, t1),
            id,
            t2,
        ) == would_exceed_spec(config, global, per, id, t2),
{
    lemma_prune_later(global, t1, t2, config.window);
    lemma_prune_later(queue_of(per, conn), t1, t2, config.window);
    let p1 = peek_per_spec(config, global, per, conn, t1);
    if id == conn && !(prune_spec(global, t1, config.window).len() >= config.global_max) {
        assert(queue_of(p1, id) == prune_spec(queue_of(per, conn), t1, config.window));
    } else {
        assert(queue_of(p1, id) == queue_of(per, id));
    }
}

/// Only re-arming and the window sliding recover a tripped breaker: after a
/// trip at `t1` (the guard disarms, and nothing is recorded), the guard
/// suppresses every write while disarmed, and once re-armed a write at any
/// `t2 >= t1` at which the window is still full trips again.
pub proof fn law_trip_holds_until_the_window_slides(
    config: RateLimitConfig,
    global: Seq<u64>,
    per: Map<i64, Seq<u64>>,
    conn: i64,
    t1: u64,
    t2: u64,
)
    requires
        would_exceed_spec(config, global, per, conn, t1),
        t1 <= t2,
        would_exceed_spec(config, global, per, conn, t2),
    ensures
        would_exceed_spec(
            config,
            prune_spec(global, t1, config.window),
            peek_per_spec(config, global, per, conn, t1),
            conn,
            t2,
        ),
{
    law_peek_consumes_no_slot(config, global, per, conn, t1, conn, t2);
}

/// Recording a write never lowers any count: each pruned queue it joins is
/// at least as long at every time, one longer while the write is inside the
/// window.
proof fn lemma_push_never_lowers(q: Seq<u64>, t: u64, now: u64, window: u64)
    ensures
        prune_spec(q.push(t), now, window).len() >= prune_spec(q, now, window).len(),
        !is_stale(t, now, window) ==> prune_spec(q.push(t), now, window).len() == prune_spec(q, now, window).len() + 1,
    decreases q.len(),
{
    if q.len() > 0 {
        assert(q.push(t)[0] == q[0]);
        assert(q.push(t).drop_first() =~= q.drop_first().push(t));
        lemma_push_never_lowers(q.drop_first(), t, now, window);
    } else {
        assert(q.push(t) =~= seq![t]);
        assert(seq![t].drop_first() =~= Seq::<u64>::empty());
    }
}

/// A recorded write counts against the global cap and its connection's cap
/// at every query time while it is inside the window (not only at the
/// recording instant), leaves other connections' counts alone, and can
/// only turn a `would_exceed` answer from `false` to `true`, never back.
pub proof fn law_record_only_raises_counts(
    config: RateLimitConfig,
    global: Seq<u64>,
    per: Map<i64, Seq<u64>>,
    conn: i64,
    t: u64,
    id: i64,
    now: u64,
)
    ensures
        !is_stale(t, now, config.window) ==> prune_spec(global.push(t), now, config.window).len()
            == prune_spec(global, now, config.window).len() + 1,
        !is_stale(t, now, config.window) ==> prune_spec(
            queue_of(per.insert(conn, queue_of(per, conn).push(t)), conn),
            now,
            config.window,
        ).len() == prune_spec(queue_of(per, conn), now, config.window).len() + 1,
        id != conn ==> queue_of(per.insert(conn, queue_of(per, conn).push(t)), id) == queue_of(per, id),
        would_exceed_spec(config, global, per, id, now) ==> would_exceed_spec(
            config,
            global.push(t),
            per.insert(conn, queue_of(per, conn).push(t)),
            id,
            now,
        ),
{
    lemma_push_never_lowers(global, t, now, config.window);
    lemma_push_never_lowers(queue_of(per, conn), t, now, config.window);
}

/// The global queue after recording each `(connection, time)` of `hist`,
/// in order, on a new limiter.
pub open spec fn global_after(hist: Seq<(i64, u64)>) -> Seq<u64> {
    hist.map_values(|e: (i64, u64)| e.1)
}

/// The per-connection queues after recording each `(connection, time)` of
/// `hist`, in order, on a new limiter.
pub open spec fn per_after(hist: Seq<(i64, u64)>) -> Map<i64, Seq<u64>>
    decreases hist.len(),
{
    if hist.len() == 0 {
        Map::empty()
    } else {
        let p = per_after(hist.drop_last());
        let c = hist.last().0;
        p.insert(c, queue_of(p, c).push(hist.last().1))
    }
}

/// Recording times in clock order.
pub open spec fn in_clock_order(hist: Seq<(i64, u64)>) -> bool {
    forall|i: int, j: int| 0 <= i <= j < hist.len() ==> hist[i].1 <= hist[j].1
}

/// The recorded writes still inside the window as of `now`.
pub open spec fn recent_writes(hist: Seq<(i64, u64)>, now: u64, window: u64) -> Seq<(i64, u64)> {
    hist.filter(|e: (i64, u64)| !is_stale(e.1, now, window))
}

/// The recorded writes to `id` still inside the window as of `now`.
pub open spec fn recent_writes_to(hist: Seq<(i64, u64)>, id: i64, now: u64, window: u64) -> Seq<(i64, u64)> {
    hist.filter(|e: (i64, u64)| e.0 == id && !is_stale(e.1, now, window))
}

proof fn lemma_in_clock_order_drop_last(hist: Seq<(i64, u64)>)
    requires
        hist.len() > 0,
        in_clock_order(hist),
    ensures
        in_clock_order(hist.drop_last()),
        forall|k: int| 0 <= k < hist.len() ==> #[trigger] hist[k].1 <= hist.last().1,
{
    assert forall|i: int, j: int| 0 <= i <= j < hist.drop_last().len() implies hist.drop_last()[i].1
        <= hist.drop_last()[j].1 by {
        assert(hist.drop_last()[i] == hist[i] && hist.drop_last()[j] == hist[j]);
    }
}

proof fn lemma_global_count(hist: Seq<(i64, u64)>, now: u64, window: u64)
    requires
        in_clock_order(hist),
    ensures
        prune_spec(global_after(hist), now, window).len() == recent_writes(hist, now, window).len(),
    decreases hist.len(),
{
    broadcast use Seq::lemma_filter_push;

    if hist.len() > 0 {
        let dl = hist.drop_last();
        let t = hist.last().1;
        lemma_in_clock_order_drop_last(hist);
        lemma_global_count(dl, now, window);
        assert(hist =~= dl.push(hist.last()));
        assert(global_after(hist) =~= global_after(dl).push(t));
        lemma_push_never_lowers(global_after(dl), t, now, window);
        if is_stale(t, now, window) {
            assert forall|k: int| 0 <= k < global_after(hist).len() implies is_stale(
                #[trigger] global_after(hist)[k],
                now,
                window,
            ) by {
                assert(hist[k].1 <= t);
            }
            lemma_prune_all_stale(global_after(hist), now, window);
            assert forall|k: int| 0 <= k < global_after(dl).len() implies is_stale(
                #[trigger] global_after(dl)[k],
                now,
                window,
            ) by {
                assert(dl[k].1 <= t);
            }
            lemma_prune_all_stale(global_after(dl), now, window);
        }
    } else {
        reveal(Seq::filter);
    }
}

proof fn lemma_conn_count(hist: Seq<(i64, u64)>, id: i64, now: u64, window: u64)
    requires
        in_clock_order(hist),
    ensures
        prune_spec(queue_of(per_after(hist), id), now, window).len() == recent_writes_to(hist, id, now, window).len(),
        hist.len() > 0 ==> forall|k: int|
            0 <= k < queue_of(per_after(hist), id).len() ==> #[trigger] queue_of(per_after(hist), id)[k]
                <= hist.last().1,
    decreases hist.len(),
{
    broadcast use Seq::lemma_filter_push;

    if hist.len() > 0 {
        let dl = hist.drop_last();
        let (c, t) = hist.last();
        let q0 = queue_of(per_after(dl), id);
        lemma_in_clock_order_drop_last(hist);
        lemma_conn_count(dl, id, now, window);
        assert(hist =~= dl.push(hist.last()));
        if dl.len() > 0 {
            assert(dl.last().1 <= t) by {
                assert(dl.last() == hist[dl.len() - 1]);
            }
        }
        if c == id {
            assert(queue_of(per_after(hist), id) == q0.push(t));
            lemma_push_never_lowers(q0, t, now, window);
            if is_stale(t, now, window) {
                assert forall|k: int| 0 <= k < q0.push(t).len() implies is_stale(
                    #[trigger] q0.push(t)[k],
                    now,
                    window,
                ) by {
                    if k < q0.len() {
                        assert(q0.push(t)[k] == q0[k]);
                    }
                }
                lemma_prune_all_stale(q0.push(t), now, window);
                assert forall|k: int| 0 <= k < q0.len() implies is_stale(#[trigger] q0[k], now, window) by {}
                lemma_prune_all_stale(q0, now, window);
            }
        } else {
            assert(queue_of(per_after(hist), id) == q0);
        }
    } else {
        reveal(Seq::filter);
    }
}

/// Counting over a whole history: on a new limiter that then recorded the
/// writes of `hist` in clock order, `would_exceed(id, now)` says whether the
/// writes still inside the window reach the global cap, or those to `id`
/// reach the per-connection cap. A write exactly `window` old no longer
/// counts, and writes to other connections count only globally. (Peeks in
/// between change nothing: see [`law_peek_consumes_no_slot`].)
pub proof fn law_counts_the_recent_history(config: RateLimitConfig, hist: Seq<(i64, u64)>, id: i64, now: u64)
    requires
        in_clock_order(hist),
    ensures
        would_exceed_spec(config, global_after(hist), per_after(hist), id, now) == (recent_writes(
            hist,
            now,
            config.window,
        ).len() >= config.global_max || recent_writes_to(hist, id, now, config.window).len()
            >= config.per_connection_max),
{
    lemma_global_count(hist, now, config.window);
    lemma_conn_count(hist, id, now, config.window);
}

/// One call on a limiter: `(true, c, t)` is `record(c, t)`, `(false, c, t)`
/// is `would_exceed(c, t)`.
pub type LimiterCall = (bool, i64, u64);

/// The global queue after the calls `calls`, in order, on a new limiter.
pub open spec fn global_after_calls(config: RateLimitConfig, calls: Seq<LimiterCall>) -> Seq<u64>
    decreases calls.len(),
{
    if calls.len() == 0 {
        Seq::empty()
    } else {
        let g = global_after_calls(config, calls.drop_last());
        let (is_record, _c, t) = calls.last();
        if is_record {
            g.push(t)
        } else {
            prune_spec(g, t, config.window)
        }
    }
}

/// The per-connection queues after the calls `calls`, in order, on a new
/// limiter.
pub open spec fn per_after_calls(config: RateLimitConfig, calls: Seq<LimiterCall>) -> Map<i64, Seq<u64>>
    decreases calls.len(),
{
    if calls.len() == 0 {
        Map::empty()
    } else {
        let g = global_after_calls(config, calls.drop_last());
        let p = per_after_calls(config, calls.drop_last());
        let (is_record, c, t) = calls.last();
        if is_record {
            p.insert(c, queue_of(p, c).push(t))
        } else {
            peek_per_spec(config, g, p, c, t)
        }
    }
}

/// The writes recorded by `calls`, in order.
pub open spec fn records_of(calls: Seq<LimiterCall>) -> Seq<(i64, u64)>
    decreases calls.len(),
{
    if calls.len() == 0 {
        Seq::empty()
    } else {
        let r = records_of(calls.drop_last());
        let (is_record, c, t) = calls.last();
        if is_record {
            r.push((c, t))
        } else {
            r
        }
    }
}

/// Calls made at non-decreasing times.
pub open spec fn calls_in_clock_order(calls: Seq<LimiterCall>) -> bool {
    forall|i: int, j: int| 0 <= i <= j < calls.len() ==> calls[i].2 <= calls[j].2
}

/// The time of the last call (zero before any).
pub open spec fn last_time(calls: Seq<LimiterCall>) -> u64 {
    if calls.len() == 0 {
        0
    } else {
        calls.last().2
    }
}

/// Every timestamp of `q` is at most `b`.
pub open spec fn bounded_by(q: Seq<u64>, b: u64) -> bool {
    forall|k: int| 0 <= k < q.len() ==> #[trigger] q[k] <= b
}

proof fn lemma_prune_bounded(q: Seq<u64>, now: u64, window: u64, b: u64)
    requires
        bounded_by(q, b),
    ensures
        bounded_by(prune_spec(q, now, window), b),
    decreases q.len(),
{
    if q.len() > 0 && is_stale(q[0], now, window) {
        assert forall|k: int| 0 <= k < q.drop_first().len() implies #[trigger] q.drop_first()[k] <= b by {
            assert(q.drop_first()[k] == q[k + 1]);
        }
        lemma_prune_bounded(q.drop_first(), now, window, b);
    }
}

/// Appending the same timestamp `t`, no earlier than anything already
/// queued, to two queues that prune alike at `now >= t` keeps them alike.
proof fn lemma_push_keeps_agreement(q1: Seq<u64>, q2: Seq<u64>, t: u64, now: u64, window: u64)
    requires
        bounded_by(q1, t),
        bounded_by(q2, t),
        t <= now,
        prune_spec(q1, now, window) == prune_spec(q2, now, window),
    ensures
        prune_spec(q1.push(t), now, window) == prune_spec(q2.push(t), now, window),
{
    if !is_stale(t, now, window) {
        lemma_prune_recent_suffix(q1, now, window, t);
        lemma_prune_recent_suffix(q2, now, window, t);
    } else {
        assert forall|k: int| 0 <= k < q1.push(t).len() implies is_stale(#[trigger] q1.push(t)[k], now, window) by {
            if k < q1.len() {
                assert(q1.push(t)[k] == q1[k]);
            }
        }
        assert forall|k: int| 0 <= k < q2.push(t).len() implies is_stale(#[trigger] q2.push(t)[k], now, window) by {
            if k < q2.len() {
                assert(q2.push(t)[k] == q2[k]);
            }
        }
        lemma_prune_all_stale(q1.push(t), now, window);
        lemma_prune_all_stale(q2.push(t), now, window);
        assert(prune_spec(q1.push(t), now, window) =~= prune_spec(q2.push(t), now, window));
    }
}

proof fn lemma_push_bounded(q: Seq<u64>, t: u64, b: u64)
    requires
        bounded_by(q, b),
        t <= b,
    ensures
        bounded_by(q.push(t), b),
{
    assert forall|k: int| 0 <= k < q.push(t).len() implies #[trigger] q.push(t)[k] <= b by {
        if k < q.len() {
            assert(q.push(t)[k] == q[k]);
        }
    }
}

proof fn lemma_bounded_later(q: Seq<u64>, b1: u64, b2: u64)
    requires
        bounded_by(q, b1),
        b1 <= b2,
    ensures
        bounded_by(q, b2),
{
}

/// Whatever peeks are interleaved with the records, the limiter answers
/// every later query as a limiter that only saw the records.
proof fn lemma_calls_agree(config: RateLimitConfig, calls: Seq<LimiterCall>)
    requires
        calls_in_clock_order(calls),
    ensures
        ({
            let g = global_after_calls(config, calls);
            let p = per_after_calls(config, calls);
            let r = records_of(calls);
            let t = last_time(calls);
            &&& in_clock_order(r)
            &&& forall|k: int| 0 <= k < r.len() ==> #[trigger] r[k].1 <= t
            &&& bounded_by(g, t)
            &&& bounded_by(global_after(r), t)
            &&& forall|x: i64| bounded_by(#[trigger] queue_of(p, x), t)
            &&& forall|x: i64| bounded_by(#[trigger] queue_of(per_after(r), x), t)
            &&& forall|now: u64| now >= t ==> #[trigger] prune_spec(g, now, config.window) == prune_spec(
                global_after(r),
                now,
                config.window,
            )
            &&& forall|now: u64, x: i64|
                now >= t ==> #[trigger] prune_spec(queue_of(p, x), now, config.window) == prune_spec(
                    queue_of(per_after(r), x),
                    now,
                    config.window,
                )
        }),
    decreases calls.len(),
{
    let w = config.window;
    if calls.len() == 0 {
        assert(global_after(records_of(calls)) =~= Seq::<u64>::empty());
    } else {
        let dl = calls.drop_last();
        assert(calls_in_clock_order(dl)) by {
            assert forall|i: int, j: int| 0 <= i <= j < dl.len() implies dl[i].2 <= dl[j].2 by {
                assert(dl[i] == calls[i] && dl[j] == calls[j]);
            }
        }
        lemma_calls_agree(config, dl);
        let (is_record, c, t) = calls.last();
        let t0 = last_time(dl);
        if dl.len() > 0 {
            assert(dl.last() == calls[dl.len() - 1]);
        }
        assert(t0 <= t);
        let g0 = global_after_calls(config, dl);
        let p0 = per_after_calls(config, dl);
        let r0 = records_of(dl);
        let g = global_after_calls(config, calls);
        let p = per_after_calls(config, calls);
        let r = records_of(calls);
        lemma_bounded_later(g0, t0, t);
        lemma_bounded_later(global_after(r0), t0, t);
        assert forall|x: i64| bounded_by(#[trigger] queue_of(p0, x), t) by {
            assert(bounded_by(queue_of(p0, x), t0));
        }
        assert forall|x: i64| bounded_by(#[trigger] queue_of(per_after(r0), x), t) by {
            assert(bounded_by(queue_of(per_after(r0), x), t0));
        }
        if is_record {
            assert(r == r0.push((c, t)));
            assert(global_after(r) =~= global_after(r0).push(t));
            assert(per_after(r) == per_after(r0).insert(c, queue_of(per_after(r0), c).push(t))) by {
                assert(r.drop_last() =~= r0);
            }
            assert(in_clock_order(r)) by {
                assert forall|i: int, j: int| 0 <= i <= j < r.len() implies r[i].1 <= r[j].1 by {
                    if j < r0.len() {
                        assert(r[i] == r0[i] && r[j] == r0[j]);
                    } else if i < r0.len() {
                        assert(r[i] == r0[i]);
                    }
                }
            }
            assert forall|k: int| 0 <= k < r.len() implies #[trigger] r[k].1 <= t by {
                if k < r0.len() {
                    assert(r[k] == r0[k]);
                }
            }
            lemma_push_bounded(g0, t, t);
            lemma_push_bounded(global_after(r0), t, t);
            assert forall|x: i64| bounded_by(#[trigger] queue_of(p, x), t) by {
                assert(bounded_by(queue_of(p0, x), t));
                if x == c {
                    lemma_push_bounded(queue_of(p0, x), t, t);
                }
            }
            assert forall|x: i64| bounded_by(#[trigger] queue_of(per_after(r), x), t) by {
                assert(bounded_by(queue_of(per_after(r0), x), t));
                if x == c {
                    lemma_push_bounded(queue_of(per_after(r0), x), t, t);
                }
            }
            assert forall|now: u64| now >= t implies #[trigger] prune_spec(g, now, w) == prune_spec(
                global_after(r),
                now,
                w,
            ) by {
                lemma_push_keeps_agreement(g0, global_after(r0), t, now, w);
            }
            assert forall|now: u64, x: i64| now >= t implies #[trigger] prune_spec(queue_of(p, x), now, w)
                == prune_spec(queue_of(per_after(r), x), now, w) by {
                assert(bounded_by(queue_of(p0, x), t));
                assert(bounded_by(queue_of(per_after(r0), x), t));
                assert(prune_spec(queue_of(p0, x), now, w) == prune_spec(queue_of(per_after(r0), x), now, w));
                if x == c {
                    lemma_push_keeps_agreement(queue_of(p0, x), queue_of(per_after(r0), x), t, now, w);
                }
            }
        } else {
            assert(r == r0);
            assert(g == prune_spec(g0, t, w));
            lemma_prune_bounded(g0, t, w, t);
            assert forall|x: i64| bounded_by(#[trigger] queue_of(p, x), t) by {
                assert(bounded_by(queue_of(p0, x), t));
                lemma_prune_bounded(queue_of(p0, c), t, w, t);
            }
            assert forall|x: i64| bounded_by(#[trigger] queue_of(per_after(r), x), t) by {
                assert(bounded_by(queue_of(per_after(r0), x), t));
            }
            assert forall|now: u64| now >= t implies #[trigger] prune_spec(g, now, w) == prune_spec(
                global_after(r),
                now,
                w,
            ) by {
                lemma_prune_later(g0, t, now, w);
                assert(prune_spec(g0, now, w) == prune_spec(global_after(r0), now, w));
            }
            assert forall|now: u64, x: i64| now >= t implies #[trigger] prune_spec(queue_of(p, x), now, w)
                == prune_spec(queue_of(per_after(r), x), now, w) by {
                lemma_prune_later(queue_of(p0, x), t, now, w);
                assert(prune_spec(queue_of(p0, x), now, w) == prune_spec(queue_of(per_after(r0), x), now, w));
            }
        }
    }
}

/// Counting over any interleaving: on a new limiter that then received the
/// calls `calls` (records and peeks) in clock order, a query at a time no
/// earlier than the last call says whether the recorded writes still inside
/// the window reach the global cap, or those to `id` reach the
/// per-connection cap. The peeks change no answer.
pub proof fn law_counts_any_interleaving(config: RateLimitConfig, calls: Seq<LimiterCall>, id: i64, now: u64)
    requires
        calls_in_clock_order(calls),
        now >= last_time(calls),
    ensures
        would_exceed_spec(config, global_after_calls(config, calls), per_after_calls(config, calls), id, now) == (
        recent_writes(records_of(calls), now, config.window).len() >= config.global_max || recent_writes_to(
            records_of(calls),
            id,
            now,
            config.window,
        ).len() >= config.per_connection_max),
{
    lemma_calls_agree(config, calls);
    let r = records_of(calls);
    assert(prune_spec(global_after_calls(config, calls), now, config.window) == prune_spec(
        global_after(r),
        now,
        config.window,
    ));
    assert(prune_spec(queue_of(per_after_calls(config, calls), id), now, config.window) == prune_spec(
        queue_of(per_after(r), id),
        now,
        config.window,
    ));
    law_counts_the_recent_history(config, r, id, now);
}

} // verus!
