//! The current-value cache: source-tag id to that tag's latest reading and
//! its quality. A failed read downgrades an existing entry to `Bad` (keeping
//! the last value only as history) instead of leaving a stale `Good` behind,
//! so the rule engine never acts on a value that was not confirmed.
//! Generic over the reading type; times are milliseconds.

use std::collections::HashMap;
use vstd::prelude::*;

verus! {

broadcast use vstd::std_specs::hash::group_hash_axioms;

/// Whether a reading was confirmed this cycle.
#[derive(Clone, Copy, PartialEq, Eq, Debug, Structural)]
pub enum Quality {
    Good,
    Bad,
}

/// One tag's latest cached reading.
#[derive(Clone, Copy, Debug)]
pub struct CachedValue<V> {
    /// The most recent value; for a `Bad` entry, the last good one.
    pub value: V,
    pub quality: Quality,
    /// When the entry was last written.
    pub at: u64,
}

/// The map from tag id to cached reading.
pub struct CurrentValues<V> {
    inner: HashMap<i64, CachedValue<V>>,
}

/// The entry held for `tag_id`, if any.
pub open spec fn entry_of<V>(m: Map<i64, CachedValue<V>>, tag_id: i64) -> Option<CachedValue<V>> {
    if m.contains_key(tag_id) {
        Some(m[tag_id])
    } else {
        None
    }
}

/// The tag's value only while it is `Good`.
pub open spec fn good_of<V>(m: Map<i64, CachedValue<V>>, tag_id: i64) -> Option<V> {
    match entry_of(m, tag_id) {
        Some(e) => if e.quality == Quality::Good {
            Some(e.value)
        } else {
            None
        },
        None => None,
    }
}

impl<V: Copy> CurrentValues<V> {
    /// Every cached entry by tag id.
    pub closed spec fn entries(&self) -> Map<i64, CachedValue<V>> {
        self.inner@
    }

    /// An empty cache.
    pub fn new() -> (r: Self)
        ensures
            r.entries() == Map::<i64, CachedValue<V>>::empty(),
    {
        CurrentValues { inner: HashMap::new() }
    }

    /// Records a freshly read good value for `tag_id`.
    pub fn set_good(&mut self, tag_id: i64, value: V, at: u64)
        ensures
            final(self).entries() == old(self).entries().insert(
                tag_id,
                CachedValue { value, quality: Quality::Good, at },
            ),
    {
        self.inner.insert(tag_id, CachedValue { value, quality: Quality::Good, at });
    }

    /// Downgrades `tag_id` to `Bad` (a failed read this cycle), keeping its
    /// last value; a tag with no entry is left absent.
    pub fn mark_bad(&mut self, tag_id: i64, at: u64)
        ensures
            old(self).entries().contains_key(tag_id) ==> final(self).entries() == old(self).entries().insert(
                tag_id,
                CachedValue { value: old(self).entries()[tag_id].value, quality: Quality::Bad, at },
            ),
            !old(self).entries().contains_key(tag_id) ==> final(self).entries() == old(self).entries(),
    {
        let existing = match self.inner.get(&tag_id) {
            Some(e) => Some(*e),
            None => None,
        };
        match existing {
            Some(e) => {
                self.inner.insert(tag_id, CachedValue { value: e.value, quality: Quality::Bad, at });
            },
            None => {},
        }
    }

    /// The raw cached entry for `tag_id`, quality included.
    pub fn get(&self, tag_id: i64) -> (r: Option<CachedValue<V>>)
        ensures
            r == entry_of(self.entries(), tag_id),
    {
        match self.inner.get(&tag_id) {
            Some(e) => Some(*e),
            None => None,
        }
    }

    /// The tag's value only if it is currently `Good`; `None` for a missing
    /// or `Bad` tag (both indeterminate).
    pub fn good_value(&self, tag_id: i64) -> (r: Option<V>)
        ensures
            r == good_of(self.entries(), tag_id),
    {
        match self.get(tag_id) {
            Some(e) => match e.quality {
                Quality::Good => Some(e.value),
                Quality::Bad => None,
            },
            None => None,
        }
    }
}

/// A value just recorded good is visible; after a failed read it is not,
/// though its entry is kept; other tags are unaffected by either.
pub proof fn law_mark_bad_hides_value<V>(m: Map<i64, CachedValue<V>>, tag: i64, other: i64, v: V, t1: u64, t2: u64)
    requires
        tag != other,
    ensures
        good_of(m.insert(tag, CachedValue { value: v, quality: Quality::Good, at: t1 }), tag) == Some(v),
        good_of(
            m.insert(tag, CachedValue { value: v, quality: Quality::Good, at: t1 }).insert(
                tag,
                CachedValue { value: v, quality: Quality::Bad, at: t2 },
            ),
            tag,
        ) is None,
        good_of(m.insert(tag, CachedValue { value: v, quality: Quality::Good, at: t1 }), other) == good_of(m, other),
{
}

} // verus!
