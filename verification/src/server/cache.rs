use vstd::prelude::*;

verus! {

/// `now - then`, or zero when `then` is later (a saturating duration).
pub open spec fn elapsed(now: u64, then: u64) -> nat {
    if now >= then {
        (now - then) as nat
    } else {
        0
    }
}

/// A value fetched at `fetched_at`.
pub struct CachedSnapshot<T> {
    pub value: T,
    pub fetched_at: u64,
}

/// What a lookup at a given moment answers.
pub enum CacheAnswer<T> {
    /// The cached snapshot's value.
    Snapshot(T),
    /// The type's default value: the last refresh failed and nothing was
    /// ever fetched.
    Empty,
    /// Nothing usable: the caller must refresh.
    Refresh,
}

/// The decisions of a cache that keeps the last fetched snapshot for `ttl`
/// time units, and after a failed refresh waits `retry_after_failure` units
/// before trying again, serving the stale snapshot (or the default value)
/// meanwhile.  Times are readings of a monotonic clock, in any one unit.
pub struct SnapshotCache<T> {
    label: String,
    ttl: u64,
    retry_after_failure: u64,
    snapshot: Option<CachedSnapshot<T>>,
    last_failed_refresh: Option<u64>,
}

impl<T> SnapshotCache<T> {
    #[verifier::type_invariant]
    closed spec fn positive_windows(self) -> bool {
        self.ttl > 0 && self.retry_after_failure > 0
    }

    /// How long a fetched snapshot stays fresh.
    pub closed spec fn spec_ttl(self) -> u64 {
        self.ttl
    }

    /// How long to wait after a failed refresh before the next one.
    pub closed spec fn spec_retry(self) -> u64 {
        self.retry_after_failure
    }

    /// The snapshot held, if any.
    pub closed spec fn spec_snapshot(self) -> Option<(T, u64)> {
        match self.snapshot {
            Some(s) => Some((s.value, s.fetched_at)),
            None => None,
        }
    }

    /// When the last refresh failed, unless a refresh has succeeded since.
    pub closed spec fn spec_last_failure(self) -> Option<u64> {
        self.last_failed_refresh
    }

    /// The name used in log lines.
    pub closed spec fn spec_label(self) -> Seq<char> {
        self.label@
    }

    /// The value of the snapshot held (meaningful when there is one).
    pub closed spec fn stored_value(self) -> T {
        self.snapshot->0.value
    }

    /// The state after a refresh that fetched `stored` at `t`.
    pub closed spec fn refreshed(self, stored: T, t: u64) -> Self {
        SnapshotCache {
            snapshot: Some(CachedSnapshot { value: stored, fetched_at: t }),
            last_failed_refresh: None,
            ..self
        }
    }

    /// The state after a refresh that failed at `t`: the snapshot stays.
    pub closed spec fn failed(self, t: u64) -> Self {
        SnapshotCache { last_failed_refresh: Some(t), ..self }
    }

    /// Whether the last failed refresh lies within the retry window at `now`.
    pub open spec fn backing_off(self, now: u64) -> bool {
        self.spec_last_failure() matches Some(t) && elapsed(now, t) < self.spec_retry()
    }

    /// What a lookup at `now` answers: a snapshot younger than `ttl`, or any
    /// snapshot while backing off after a failed refresh; the default value
    /// while backing off with no snapshot; otherwise a refresh.
    pub open spec fn answer(self, now: u64) -> CacheAnswer<T> {
        match self.spec_snapshot() {
            Some((value, fetched_at)) => if elapsed(now, fetched_at) < self.spec_ttl()
                || self.backing_off(now) {
                CacheAnswer::Snapshot(value)
            } else {
                CacheAnswer::Refresh
            },
            None => if self.backing_off(now) {
                CacheAnswer::Empty
            } else {
                CacheAnswer::Refresh
            },
        }
    }

    /// An empty cache.  Both windows must be positive.
    pub fn new(label: &str, ttl: u64, retry_after_failure: u64) -> (r: Self)
        requires
            ttl > 0,
            retry_after_failure > 0,
        ensures
            r.spec_label() == label@,
            r.spec_ttl() == ttl,
            r.spec_retry() == retry_after_failure,
            r.spec_snapshot() is None,
            r.spec_last_failure() is None,
    {
        SnapshotCache {
            label: label.to_owned(),
            ttl,
            retry_after_failure,
            snapshot: None,
            last_failed_refresh: None,
        }
    }

    /// The name used in log lines.
    pub fn label(&self) -> (r: &str)
        ensures
            r@ == self.spec_label(),
    {
        self.label.as_str()
    }

    /// Whether a snapshot is held.
    pub fn has_snapshot(&self) -> (r: bool)
        ensures
            r == self.spec_snapshot() is Some,
    {
        self.snapshot.is_some()
    }
}

impl<T: Clone + Default> SnapshotCache<T> {
    /// The value to serve at `now` without fetching, or `None` when the caller
    /// must refresh (see `answer`).
    pub fn cached_or_backoff(&self, now: u64) -> (r: Option<T>)
        ensures
            match self.answer(now) {
                CacheAnswer::Snapshot(v) => r matches Some(x) && cloned(v, x),
                CacheAnswer::Empty => r matches Some(x) && call_ensures(T::default, (), x),
                CacheAnswer::Refresh => r is None,
            },
            self.spec_ttl() > 0,
            self.spec_retry() > 0,
    {
        proof {
            use_type_invariant(self);
        }
        match &self.snapshot {
            Some(snapshot) => {
                let age = now.saturating_sub(snapshot.fetched_at);
                if age < self.ttl {
                    return Some(snapshot.value.clone());
                }
                if let Some(failed_at) = self.last_failed_refresh {
                    if now.saturating_sub(failed_at) < self.retry_after_failure {
                        return Some(snapshot.value.clone());
                    }
                }
            },
            None => {
                if let Some(failed_at) = self.last_failed_refresh {
                    if now.saturating_sub(failed_at) < self.retry_after_failure {
                        return Some(T::default());
                    }
                }
            },
        }
        None
    }

    /// Records the outcome of a refresh that finished at `now` and returns
    /// the value to serve: the fetched value, or on failure what
    /// `handle_refresh_failure` returns.
    pub fn refresh_snapshot<E>(&mut self, fetched: Result<T, E>, now: u64) -> (r: T)
        ensures
            match fetched {
                Ok(v) => {
                    &&& r == v
                    &&& cloned(v, final(self).stored_value())
                    &&& *final(self) == old(self).refreshed(final(self).stored_value(), now)
                    &&& final(self).spec_snapshot() == Some((final(self).stored_value(), now))
                },
                Err(_) => {
                    &&& *final(self) == old(self).failed(now)
                    &&& final(self).spec_snapshot() == old(self).spec_snapshot()
                    &&& match old(self).spec_snapshot() {
                        Some((stored, _)) => cloned(stored, r),
                        None => call_ensures(T::default, (), r),
                    }
                },
            },
            final(self).spec_last_failure() == match fetched {
                Ok(_) => None,
                Err(_) => Some(now),
            },
            final(self).spec_ttl() == old(self).spec_ttl(),
            final(self).spec_retry() == old(self).spec_retry(),
            final(self).spec_label() == old(self).spec_label(),
    {
        proof {
            use_type_invariant(&*self);
        }
        match fetched {
            Ok(value) => {
                let stored = value.clone();
                self.snapshot = Some(CachedSnapshot { value: stored, fetched_at: now });
                self.last_failed_refresh = None;
                value
            },
            Err(_) => self.handle_refresh_failure(now),
        }
    }

    /// Records a refresh that failed at `now` and returns the stale snapshot's
    /// value, or the default value when there is none.
    pub fn handle_refresh_failure(&mut self, now: u64) -> (r: T)
        ensures
            *final(self) == old(self).failed(now),
            final(self).spec_snapshot() == old(self).spec_snapshot(),
            final(self).spec_last_failure() == Some(now),
            final(self).spec_ttl() == old(self).spec_ttl(),
            final(self).spec_retry() == old(self).spec_retry(),
            final(self).spec_label() == old(self).spec_label(),
            match old(self).spec_snapshot() {
                Some((stored, _)) => cloned(stored, r),
                None => call_ensures(T::default, (), r),
            },
    {
        proof {
            use_type_invariant(&*self);
        }
        self.last_failed_refresh = Some(now);
        match &self.snapshot {
            Some(snapshot) => snapshot.value.clone(),
            None => T::default(),
        }
    }
}


/// A fresh cache has nothing to serve: the first lookup asks for a refresh.
pub proof fn lemma_new_cache_refreshes<T>(c: SnapshotCache<T>, now: u64)
    requires
        c.spec_snapshot() is None,
        c.spec_last_failure() is None,
    ensures
        c.answer(now) == CacheAnswer::<T>::Refresh,
{
}

/// After a refresh fetched `v` at `t`, every lookup within `ttl` of `t` is
/// served `v` without fetching again; in particular a caller that waited for
/// that refresh finds it on its second look.
pub proof fn lemma_refresh_serves_within_ttl<T>(c: SnapshotCache<T>, v: T, t: u64, now: u64)
    requires
        elapsed(now, t) < c.spec_ttl(),
    ensures
        c.refreshed(v, t).answer(now) == CacheAnswer::Snapshot(v),
{
}

/// A successful refresh clears any earlier failure: its value is served for
/// exactly `ttl`, whatever the retry window, and then a new refresh is due.
pub proof fn lemma_refresh_expires<T>(c: SnapshotCache<T>, v: T, t: u64, now: u64)
    ensures
        c.refreshed(v, t).spec_last_failure() is None,
        c.refreshed(v, t).answer(now) == if elapsed(now, t) < c.spec_ttl() {
            CacheAnswer::Snapshot(v)
        } else {
            CacheAnswer::<T>::Refresh
        },
{
}

/// After a failed refresh at `t`, a cache that holds a snapshot keeps serving
/// that stale snapshot until the retry window has passed.
pub proof fn lemma_failure_serves_stale<T>(c: SnapshotCache<T>, t: u64, now: u64)
    requires
        c.spec_snapshot() is Some,
        elapsed(now, t) < c.spec_retry(),
    ensures
        c.failed(t).answer(now) == CacheAnswer::Snapshot(c.stored_value()),
        c.failed(t).spec_snapshot() == c.spec_snapshot(),
{
}

/// After a failed refresh at `t`, a cache with no snapshot serves the
/// default value until the retry window has passed.
pub proof fn lemma_failure_without_snapshot_is_empty<T>(c: SnapshotCache<T>, t: u64, now: u64)
    requires
        c.spec_snapshot() is None,
        elapsed(now, t) < c.spec_retry(),
    ensures
        c.failed(t).answer(now) == CacheAnswer::<T>::Empty,
{
}

/// Once the retry window after a failed refresh has passed, and no fresh
/// snapshot is held, the next lookup asks for a refresh again.
pub proof fn lemma_failure_retries_after_window<T>(c: SnapshotCache<T>, t: u64, now: u64)
    requires
        elapsed(now, t) >= c.spec_retry(),
        c.spec_snapshot() matches Some((_, f)) ==> elapsed(now, f) >= c.spec_ttl(),
    ensures
        c.failed(t).answer(now) == CacheAnswer::<T>::Refresh,
{
}

} // verus!
