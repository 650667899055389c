use integrity_watcher::circl::{
    CacheEntry, CirclCache, QueryEvent, QueryStep, query_step, settle_query, open_cache,
    QUERY_RETRIES, RETRY_BASE_DELAY_MS, TTL_FOUND_SECONDS,
};
use integrity_watcher::error::IntegrityWatcherError;

fn hash_of(seed: u8) -> integrity_watcher::types::Hash {
    let mut h = [0u8; 32];
    for i in 0..32 {
        h[i] = seed.wrapping_mul(7).wrapping_add(i as u8);
    }
    integrity_watcher::types::Hash::from(h)
}

fn fresh_cache(name: &str) -> CirclCache {
    let path = format!("/tmp/integrity_watcher_test_cache_{}.redb", name);
    CirclCache::new(&path).expect("create cache")
}

#[test]
fn cache_hit_avoids_network() {
    let now = 1700000000i64;
    let mut cache = fresh_cache("hit");
    let h = hash_of(1);
    cache
        .insert(&h, &CacheEntry::new(Some(42), now))
        .expect("prime the cache");
    // The consult step alone answers; no client, no request, is involved.
    let entry = cache.contains(&h).expect("lookup").expect("a hit");
    assert_eq!(entry.get_score(), Some(42));
}

#[test]
fn cache_miss_is_a_miss() {
    let cache = fresh_cache("miss");
    let h = hash_of(77);
    let mut probe = [0u8; 32];
    probe[0] = 1;
    let _ = h;
    let missing = integrity_watcher::types::Hash::from(probe);
    let mut cache2 = cache;
    cache2
        .insert(&hash_of(78), &CacheEntry::new(None, 5))
        .expect("unrelated row");
    assert!(cache2.contains(&missing).expect("lookup").is_none());
}

#[test]
fn retry_twice_then_succeed_and_cache() {
    let now = 1700000000i64;
    let mut cache = fresh_cache("retry");
    let h = hash_of(2);

    let step1 = query_step(&h, 1, &QueryEvent::TransportError);
    match step1 {
        QueryStep::RetryAfter { delay_ms } => assert_eq!(delay_ms, RETRY_BASE_DELAY_MS),
        other => panic!("first transient failure must retry, got {:?}", other),
    }
    let step2 = query_step(&h, 2, &QueryEvent::TransportError);
    match step2 {
        QueryStep::RetryAfter { delay_ms } => assert_eq!(delay_ms, 2 * RETRY_BASE_DELAY_MS),
        other => panic!("second transient failure must retry, got {:?}", other),
    }
    let step3 = query_step(&h, 3, &QueryEvent::Found { trust_score: 7 });
    let score = match step3 {
        QueryStep::Done { score } => score,
        other => panic!("a success answer is terminal, got {:?}", other),
    };
    assert_eq!(score, Some(7));
    let returned = settle_query(&mut cache, &h, score, now).expect("persist answer");
    assert_eq!(returned, Some(7));
    let entry = cache.contains(&h).expect("lookup").expect("the answer was cached");
    assert_eq!(entry.get_score(), Some(7));
    assert_eq!(entry.entry_time, now);
}

#[test]
fn retries_exhausted_surface_the_status() {
    let h = hash_of(3);
    assert!(matches!(
        query_step(&h, 1, &QueryEvent::OtherStatus { status: 500 }),
        QueryStep::RetryNow
    ));
    match query_step(&h, QUERY_RETRIES, &QueryEvent::OtherStatus { status: 500 }) {
        QueryStep::Fail { error: IntegrityWatcherError::InvalidReponse { status, hash } } => {
            assert_eq!(status, 500);
            assert!(hash == h);
        },
        other => panic!("exhausted retries must surface the status, got {:?}", other),
    }
    assert!(matches!(
        query_step(&h, QUERY_RETRIES, &QueryEvent::TransportError),
        QueryStep::Fail { error: IntegrityWatcherError::Reqwest }
    ));
    assert!(matches!(
        query_step(&h, 1, &QueryEvent::BadBody),
        QueryStep::Fail { error: IntegrityWatcherError::Reqwest }
    ));
}

#[test]
fn not_found_is_terminal_and_cached() {
    let now = 1700000000i64;
    let mut cache = fresh_cache("notfound");
    let h = hash_of(4);
    let step = query_step(&h, 1, &QueryEvent::NotFound);
    let score = match step {
        QueryStep::Done { score } => score,
        other => panic!("not-found is terminal, got {:?}", other),
    };
    assert_eq!(score, None);
    assert_eq!(settle_query(&mut cache, &h, score, now).expect("persist"), None);
    let entry = cache.contains(&h).expect("lookup").expect("cached");
    assert_eq!(entry.get_score(), None);
}

#[test]
fn purge_keeps_past_entries_and_drops_future_ones() {
    let now = 1700000000i64;
    let path = "/tmp/integrity_watcher_test_cache_purge.redb";
    {
        let mut cache = CirclCache::new(path).expect("create cache");
        let ancient = CacheEntry::new(Some(9), 5);
        cache.insert(&hash_of(5), &ancient).expect("insert");
        let beyond_horizon = CacheEntry::new(Some(9), now + TTL_FOUND_SECONDS + 1);
        cache.insert(&hash_of(6), &beyond_horizon).expect("insert");
    }
    let cache = open_cache(path, now).expect("open and purge");
    assert!(
        cache.contains(&hash_of(5)).expect("lookup").is_some(),
        "an entry stamped in the past never goes stale"
    );
    assert!(
        cache.contains(&hash_of(6)).expect("lookup").is_none(),
        "an entry stamped beyond the validity horizon is purged"
    );
}

#[test]
fn entry_validity_horizon() {
    let now = 1000i64;
    assert!(CacheEntry::new(Some(1), 0).is_valid(now));
    assert!(CacheEntry::new(Some(1), now + TTL_FOUND_SECONDS - 1).is_valid(now));
    assert!(!CacheEntry::new(Some(1), now + TTL_FOUND_SECONDS).is_valid(now));
    assert!(!CacheEntry::new(None, now + 604800).is_valid(now));
    assert!(CacheEntry::new(None, now + 604799).is_valid(now));
}
