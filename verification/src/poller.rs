//! One poll of one connection, applied to the current-value cache: each
//! source tag's reading becomes `Good`, and a bad reading, a failed read or
//! a connection without a session marks it `Bad`, so no stale value stays
//! `Good`.

use vstd::prelude::*;

use crate::current_values::{good_of, CachedValue, CurrentValues, Quality};

verus! {

/// How one connection's read came out.
pub enum PollOutcome<V> {
    /// The connection has no broker session this cycle.
    NoSession,
    /// The whole read failed.
    Failed,
    /// One result per source tag in request order: the value, or `None`
    /// for a bad reading.
    Read(Vec<Option<V>>),
}

/// The cache after a failed read of `tag` at `now`: an existing entry is
/// kept as history, marked `Bad`; a tag never read stays absent.
pub open spec fn mark_bad_spec<V>(m: Map<i64, CachedValue<V>>, tag: i64, now: u64) -> Map<
    i64,
    CachedValue<V>,
> {
    if m.contains_key(tag) {
        m.insert(tag, CachedValue { value: m[tag].value, quality: Quality::Bad, at: now })
    } else {
        m
    }
}

/// The cache after applying one reading of `tag`.
pub open spec fn reading_spec<V>(m: Map<i64, CachedValue<V>>, tag: i64, r: Option<V>, now: u64) -> Map<
    i64,
    CachedValue<V>,
> {
    match r {
        Some(v) => m.insert(tag, CachedValue { value: v, quality: Quality::Good, at: now }),
        None => mark_bad_spec(m, tag, now),
    }
}

/// The cache after marking the first `n` tags bad, in order.
pub open spec fn all_bad_spec<V>(m: Map<i64, CachedValue<V>>, tags: Seq<i64>, n: int, now: u64) -> Map<
    i64,
    CachedValue<V>,
>
    decreases n,
{
    if n <= 0 {
        m
    } else {
        mark_bad_spec(all_bad_spec(m, tags, n - 1, now), tags[n - 1], now)
    }
}

/// The cache after applying the first `n` readings, tag `i` taking
/// result `i`.
pub open spec fn readings_spec<V>(
    m: Map<i64, CachedValue<V>>,
    tags: Seq<i64>,
    results: Seq<Option<V>>,
    n: int,
    now: u64,
) -> Map<i64, CachedValue<V>>
    decreases n,
{
    if n <= 0 {
        m
    } else {
        reading_spec(readings_spec(m, tags, results, n - 1, now), tags[n - 1], results[n - 1], now)
    }
}

/// The cache after one poll of a connection whose source tags are `tags`.
/// Results are paired with tags in order; tags past the last result are
/// left as they were.
pub open spec fn poll_spec<V>(
    m: Map<i64, CachedValue<V>>,
    tags: Seq<i64>,
    outcome: PollOutcome<V>,
    now: u64,
) -> Map<i64, CachedValue<V>> {
    match outcome {
        PollOutcome::Read(results) => readings_spec(
            m,
            tags,
            results@,
            if results@.len() < tags.len() { results@.len() as int } else { tags.len() as int },
            now,
        ),
        _ => all_bad_spec(m, tags, tags.len() as int, now),
    }
}

/// Applies one poll of one connection to the cache.
pub fn apply_poll<V: Copy>(
    cache: &mut CurrentValues<V>,
    tags: &Vec<i64>,
    outcome: PollOutcome<V>,
    now: u64,
)
    ensures
        final(cache).entries() == poll_spec(old(cache).entries(), tags@, outcome, now),
{
    let n = tags.len();
    match outcome {
        PollOutcome::Read(results) => {
            let m = if results.len() < n { results.len() } else { n };
            let mut i: usize = 0;
            while i < m
                invariant
                    i <= m,
                    m <= n,
                    n == tags@.len(),
                    m <= results@.len(),
                    m == (if results@.len() < tags@.len() { results@.len() as int } else { tags@.len() as int }),
                    cache.entries() == readings_spec(old(cache).entries(), tags@, results@, i as int, now),
                decreases m - i,
            {
                match results[i] {
                    Some(v) => cache.set_good(tags[i], v, now),
                    None => cache.mark_bad(tags[i], now),
                }
                i = i + 1;
            }
        },
        _ => {
            let mut i: usize = 0;
            while i < n
                invariant
                    i <= n,
                    n == tags@.len(),
                    cache.entries() == all_bad_spec(old(cache).entries(), tags@, i as int, now),
                decreases n - i,
            {
                cache.mark_bad(tags[i], now);
                i = i + 1;
            }
        },
    }
}

/// Marking tags bad leaves each of the first `n` without a good value.
proof fn lemma_all_bad_hides<V>(m: Map<i64, CachedValue<V>>, tags: Seq<i64>, n: int, now: u64)
    requires
        0 <= n <= tags.len(),
    ensures
        forall|j: int| 0 <= j < n ==> good_of(#[trigger] all_bad_spec(m, tags, n, now), tags[j]) is None,
    decreases n,
{
    if n > 0 {
        lemma_all_bad_hides(m, tags, n - 1, now);
    }
}

/// A connection with no session, or a read that failed, leaves none of its
/// source tags with a good value: the rule engine sees them all as
/// indeterminate. Other tags are unaffected.
pub proof fn law_failed_poll_hides_every_source<V>(
    m: Map<i64, CachedValue<V>>,
    tags: Seq<i64>,
    outcome: PollOutcome<V>,
    now: u64,
    other: i64,
)
    requires
        !(outcome is Read),
        !tags.contains(other),
    ensures
        forall|j: int| 0 <= j < tags.len() ==> good_of(poll_spec(m, tags, outcome, now), #[trigger] tags[j]) is None,
        good_of(poll_spec(m, tags, outcome, now), other) == good_of(m, other),
{
    lemma_all_bad_hides(m, tags, tags.len() as int, now);
    lemma_all_bad_keeps_other(m, tags, tags.len() as int, now, other);
}

/// Marking tags bad does not touch a tag outside them.
proof fn lemma_all_bad_keeps_other<V>(m: Map<i64, CachedValue<V>>, tags: Seq<i64>, n: int, now: u64, other: i64)
    requires
        0 <= n <= tags.len(),
        !tags.contains(other),
    ensures
        good_of(all_bad_spec(m, tags, n, now), other) == good_of(m, other),
    decreases n,
{
    if n > 0 {
        lemma_all_bad_keeps_other(m, tags, n - 1, now, other);
        assert(tags[n - 1] != other);
    }
}

} // verus!
