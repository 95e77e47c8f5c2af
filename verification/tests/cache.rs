use findit::server::cache::SnapshotCache;

/// One lookup as the server makes it: serve what the cache answers, else
/// fetch once and record the outcome.
fn load_or_refresh(
    cache: &mut SnapshotCache<Vec<i32>>,
    now: u64,
    calls: &mut usize,
    fetch: Result<Vec<i32>, &str>,
) -> Vec<i32> {
    if let Some(value) = cache.cached_or_backoff(now) {
        return value;
    }
    *calls += 1;
    cache.refresh_snapshot(fetch, now)
}

const SECOND: u64 = 1000;

fn test_cache() -> SnapshotCache<Vec<i32>> {
    SnapshotCache::new("test cache", 5 * SECOND, 2 * SECOND)
}

#[test]
fn returns_cached_data_within_ttl() {
    let mut cache = test_cache();
    let mut calls = 0;

    let first = load_or_refresh(&mut cache, 0, &mut calls, Ok(vec![1]));
    assert_eq!(first, vec![1]);
    assert_eq!(calls, 1);

    let second = load_or_refresh(&mut cache, 0, &mut calls, Ok(vec![2]));
    assert_eq!(second, vec![1]);
    assert_eq!(calls, 1);
}

#[test]
fn expired_requests_share_a_single_refresh() {
    let mut cache = test_cache();
    let mut calls = 0;

    let initial = load_or_refresh(&mut cache, 0, &mut calls, Ok(vec![1]));
    assert_eq!(initial, vec![1]);

    let now = 6 * SECOND;
    // Every waiting request first finds nothing fresh.
    assert_eq!(cache.cached_or_backoff(now), None);
    // The first to take the refresh lock fetches; the others check again
    // under the lock and are served that refresh.
    let mut results = Vec::new();
    for _ in 0..10 {
        results.push(load_or_refresh(&mut cache, now, &mut calls, Ok(vec![2])));
    }

    assert_eq!(results.len(), 10);
    assert!(results.iter().all(|value| value == &vec![2]));
    assert_eq!(calls, 2);
}

#[test]
fn failure_with_snapshot_returns_stale_until_retry_window() {
    let mut cache = test_cache();
    let mut calls = 0;

    let seed = load_or_refresh(&mut cache, 0, &mut calls, Ok(vec![1]));
    assert_eq!(seed, vec![1]);

    let now = 6 * SECOND;
    let stale = load_or_refresh(&mut cache, now, &mut calls, Err("boom"));
    assert_eq!(stale, vec![1]);
    assert_eq!(calls, 2);

    let still_stale = load_or_refresh(&mut cache, now, &mut calls, Ok(vec![3]));
    assert_eq!(still_stale, vec![1]);
    assert_eq!(calls, 2);

    let later = now + 3 * SECOND;
    let refreshed = load_or_refresh(&mut cache, later, &mut calls, Ok(vec![4]));
    assert_eq!(refreshed, vec![4]);
    assert_eq!(calls, 3);
}

#[test]
fn failure_without_snapshot_returns_empty_and_backoffs() {
    let mut cache = test_cache();
    let mut calls = 0;

    let empty = load_or_refresh(&mut cache, 0, &mut calls, Err("boom"));
    assert!(empty.is_empty());
    assert_eq!(calls, 1);

    let still_empty = load_or_refresh(&mut cache, 0, &mut calls, Ok(vec![3]));
    assert!(still_empty.is_empty());
    assert_eq!(calls, 1);

    let later = 3 * SECOND;
    let seeded = load_or_refresh(&mut cache, later, &mut calls, Ok(vec![5]));
    assert_eq!(seeded, vec![5]);
    assert_eq!(calls, 2);
}

#[test]
fn new_cache_has_nothing_and_keeps_its_label() {
    let cache = test_cache();
    assert_eq!(cache.label(), "test cache");
    assert!(!cache.has_snapshot());
    assert_eq!(cache.cached_or_backoff(0), None);
    assert_eq!(cache.cached_or_backoff(u64::MAX), None);
}

#[test]
fn retry_window_follows_only_failures() {
    // After a successful refresh only the time to live counts, however long
    // the retry window is.
    let mut cache: SnapshotCache<Vec<i32>> = SnapshotCache::new("long retry", 2, 5);
    assert_eq!(cache.refresh_snapshot::<&str>(Ok(vec![7]), 10), vec![7]);
    assert_eq!(cache.cached_or_backoff(11), Some(vec![7]));
    assert_eq!(cache.cached_or_backoff(12), None);

    // A failure opens the retry window; the next success closes it again.
    assert_eq!(cache.refresh_snapshot(Err("boom"), 12), vec![7]);
    assert_eq!(cache.cached_or_backoff(16), Some(vec![7]));
    assert_eq!(cache.cached_or_backoff(17), None);
    assert_eq!(cache.refresh_snapshot::<&str>(Ok(vec![8]), 17), vec![8]);
    assert_eq!(cache.cached_or_backoff(18), Some(vec![8]));
    assert_eq!(cache.cached_or_backoff(19), None);
}

#[test]
fn expired_snapshot_is_refetched_after_a_success() {
    let mut cache: SnapshotCache<Vec<i32>> =
        SnapshotCache::new("c", SECOND, 5 * SECOND);
    let mut calls = 0;
    assert_eq!(load_or_refresh(&mut cache, 0, &mut calls, Ok(vec![1])), vec![1]);
    assert_eq!(load_or_refresh(&mut cache, 2 * SECOND, &mut calls, Ok(vec![2])), vec![2]);
    assert_eq!(calls, 2);
}

#[test]
fn clock_going_backwards_counts_as_no_time() {
    let mut cache = test_cache();
    cache.refresh_snapshot::<&str>(Ok(vec![1]), 100);
    assert_eq!(cache.cached_or_backoff(50), Some(vec![1]));
}

#[test]
fn failure_handler_keeps_snapshot() {
    let mut cache = test_cache();
    cache.refresh_snapshot::<&str>(Ok(vec![9]), 0);
    assert_eq!(cache.handle_refresh_failure(10 * SECOND), vec![9]);
    assert!(cache.has_snapshot());
    assert_eq!(cache.cached_or_backoff(11 * SECOND), Some(vec![9]));
    assert_eq!(cache.cached_or_backoff(12 * SECOND), None);
}
