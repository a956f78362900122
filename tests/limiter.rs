use redis_rate::{
    cache_expiry, decode_reply, gcra_step, local_verdict, parse_reset_event, reset_event,
    AllowPlan, Limit, LimitError, LimitResult, Limiter, LocalCache, Spans,
};

const NOW: u64 = 300_000_000_000_000;

fn run(stored: &mut Option<u64>, now: u64, limit: &Limit, n: usize) -> LimitResult {
    let spans = limit.spans(n).unwrap();
    let (result, next) = gcra_step(*stored, now, &spans);
    *stored = next;
    result
}

#[test]
fn test_limiter() {
    let limit = Limit::new(5, 5, 20);
    let mut stored: Option<u64> = None;

    let result = run(&mut stored, NOW, &limit, 4);
    assert_eq!(result.limited, false);
    assert_eq!(result.remaining, 1);
    let result = run(&mut stored, NOW, &limit, 3);
    assert_eq!(result.limited, true);
    assert_eq!(result.remaining, 1);
    let result = run(&mut stored, NOW, &limit, 1);
    assert_eq!(result.limited, false);
    assert_eq!(result.remaining, 0);

    let result = run(&mut stored, NOW, &limit, 5);
    assert_eq!(result.limited, true);
    stored = None;

    let result = run(&mut stored, NOW, &limit, 5);
    assert_eq!(result.limited, false);
}

#[test]
fn consumption_exact_values() {
    let limit = Limit::new(5, 5, 20);
    let mut stored: Option<u64> = None;
    let r = run(&mut stored, NOW, &limit, 4);
    assert_eq!(
        r,
        LimitResult { limited: false, remaining: 1, retry_after: None, reset_after: 16_000_000 }
    );
    assert_eq!(stored, Some(NOW + 16_000_000));
    let r = run(&mut stored, NOW, &limit, 3);
    assert_eq!(
        r,
        LimitResult {
            limited: true,
            remaining: 1,
            retry_after: Some(8_000_000),
            reset_after: 16_000_000
        }
    );
    assert_eq!(stored, Some(NOW + 16_000_000));
}

#[test]
fn quota_refills_over_time() {
    let limit = Limit::new(5, 5, 20);
    let mut stored: Option<u64> = None;
    assert!(!run(&mut stored, NOW, &limit, 5).limited);
    assert!(run(&mut stored, NOW, &limit, 1).limited);
    let r = run(&mut stored, NOW + 4_000_000, &limit, 1);
    assert!(!r.limited);
    assert_eq!(r.remaining, 0);
}

#[test]
fn limit_construction_accepts_valid() {
    let l = Limit::new(5, 5, 20);
    assert_eq!((l.rate(), l.burst(), l.period_seconds()), (5, 5, 20));
    assert!(Limit::try_new(1, 1, 1).is_some());
    assert!(Limit::try_new(3, 10, 60).is_some());
}

#[test]
fn limit_construction_rejects_invalid() {
    assert!(Limit::try_new(5, 5, 0).is_none());
    assert!(Limit::try_new(0, 5, 20).is_none());
    assert!(Limit::try_new(6, 5, 20).is_none());
}

#[test]
fn spans_exact_values() {
    let s = Limit::new(5, 5, 20).spans(4).unwrap();
    assert_eq!(
        s,
        Spans { emission_interval: 4_000_000, burst_offset: 20_000_000, tat_increment: 16_000_000 }
    );
    let s = Limit::new(3, 3, 1).spans(1).unwrap();
    assert_eq!(s.emission_interval, 333_334);
    assert_eq!(s.burst_offset, 1_000_002);
    assert_eq!(Limit::new(5, 5, 20).spans(0).unwrap().tat_increment, 0);
}

#[test]
fn spans_out_of_range() {
    let limit = Limit::new(1, 1, 2_000_000_000);
    assert!(limit.spans(1).is_none());
    let limiter = Limiter::new(false);
    assert_eq!(limiter.plan_allow(&limit, 1, NOW, None).unwrap_err(), LimitError::OutOfRange);
    let huge_cost = Limit::new(1, 1, 1);
    assert!(huge_cost.spans(2_000_000_000).is_none());
}

#[test]
fn concurrent_unit_calls_allow_burst() {
    let limit = Limit::new(2, 5, 10);
    let mut stored: Option<u64> = None;
    let mut allowed = 0;
    let mut denied = 0;
    for _ in 0..8 {
        if run(&mut stored, NOW, &limit, 1).limited {
            denied += 1;
        } else {
            allowed += 1;
        }
    }
    assert_eq!((allowed, denied), (5, 3));
}

#[test]
fn fewer_calls_than_burst_all_allowed() {
    let limit = Limit::new(2, 5, 10);
    let mut stored: Option<u64> = None;
    for _ in 0..3 {
        assert!(!run(&mut stored, NOW, &limit, 1).limited);
    }
}

#[test]
fn retry_after_present_iff_limited() {
    let limit = Limit::new(1, 3, 1);
    let mut stored: Option<u64> = None;
    for i in 0..10u64 {
        let r = run(&mut stored, NOW + i * 100_000, &limit, 1);
        assert_eq!(r.retry_after.is_some(), r.limited);
    }
}

#[test]
fn decode_reply_allowed_and_limited() {
    let r = decode_reply(0, 3, -1, 7_000).unwrap();
    assert_eq!(r, LimitResult { limited: false, remaining: 3, retry_after: None, reset_after: 7_000 });
    let r = decode_reply(1, 0, 250, 9_000).unwrap();
    assert_eq!(
        r,
        LimitResult { limited: true, remaining: 0, retry_after: Some(250), reset_after: 9_000 }
    );
}

#[test]
fn decode_reply_rejects_malformed() {
    assert_eq!(decode_reply(2, 0, -1, 0), Err(LimitError::InvalidReply));
    assert_eq!(decode_reply(0, -1, -1, 0), Err(LimitError::InvalidReply));
    assert_eq!(decode_reply(0, 1, -1, -5), Err(LimitError::InvalidReply));
    assert_eq!(decode_reply(1, 1, -1, 5), Err(LimitError::InvalidReply));
    assert_eq!(decode_reply(0, 1, 3, 5), Err(LimitError::InvalidReply));
}

#[test]
fn local_verdict_denies_from_cache() {
    let spans = Limit::new(5, 5, 20).spans(1).unwrap();
    let r = local_verdict(Some(NOW + 20_000_000), NOW, &spans).unwrap();
    assert_eq!(
        r,
        LimitResult {
            limited: true,
            remaining: 0,
            retry_after: Some(4_000_000),
            reset_after: 20_000_000
        }
    );
}

#[test]
fn local_verdict_defers_to_store() {
    let spans = Limit::new(5, 5, 20).spans(1).unwrap();
    assert!(local_verdict(None, NOW, &spans).is_none());
    assert!(local_verdict(Some(NOW), NOW, &spans).is_none());
    assert!(local_verdict(Some(NOW + 16_000_000), NOW, &spans).is_none());
}

#[test]
fn local_denial_matches_store() {
    let limit = Limit::new(5, 5, 20);
    let mut stored: Option<u64> = None;
    let first = run(&mut stored, NOW, &limit, 5);
    let expiry = cache_expiry(NOW, first.reset_after).unwrap();
    let later = NOW + 1_000_000;
    let spans = limit.spans(1).unwrap();
    let local = local_verdict(Some(expiry), later, &spans).unwrap();
    assert!(local.limited);
    let (store, _) = gcra_step(stored, later, &spans);
    assert!(store.limited);
}

#[test]
fn cache_expiry_values() {
    assert_eq!(cache_expiry(10, 5), Some(15));
    assert_eq!(cache_expiry(u64::MAX - 3, 5), None);
}

#[test]
fn reset_event_round_trip() {
    let msg = reset_event("redis_rate:test");
    assert_eq!(msg, "reset:redis_rate:test");
    assert_eq!(parse_reset_event(&msg), Some("redis_rate:test".to_string()));
    assert_eq!(parse_reset_event("reset:"), Some(String::new()));
    assert_eq!(parse_reset_event("refresh:redis_rate:test"), None);
    assert_eq!(parse_reset_event("rese"), None);
}

#[test]
fn store_keys_are_prefixed() {
    let limiter = Limiter::new(true);
    assert_eq!(limiter.key_prefix(), "redis_rate:");
    assert_eq!(limiter.event_channel(), "redis_rate_channel");
    assert_eq!(limiter.store_key("test"), "redis_rate:test");
    let limiter = limiter.set_key_prefix("api:").set_event_channel("events");
    assert_eq!(limiter.store_key("u1"), "api:u1");
    assert_eq!(limiter.event_channel(), "events");
    assert!(limiter.local_accelerate());
}

#[test]
fn reset_message_only_when_accelerated() {
    assert_eq!(Limiter::new(true).reset_message("k"), Some("reset:k".to_string()));
    assert_eq!(Limiter::new(false).reset_message("k"), None);
}

#[test]
fn finish_allow_records_expiry() {
    let (r, e) = Limiter::new(true).finish_allow(NOW, 1, 0, 10, 500).unwrap();
    assert!(r.limited);
    assert_eq!(e, Some(NOW + 500));
    let (r, e) = Limiter::new(false).finish_allow(NOW, 0, 2, -1, 500).unwrap();
    assert!(!r.limited);
    assert_eq!(e, None);
    assert_eq!(
        Limiter::new(true).finish_allow(NOW, 0, 2, 4, 500).unwrap_err(),
        LimitError::InvalidReply
    );
}

#[test]
fn reset_broadcast_clears_local_denial() {
    let limit = Limit::new(5, 5, 20);
    let limiter = Limiter::new(true);
    let key = limiter.store_key("test");
    let mut cache = LocalCache::new();
    let (_, expiry) = limiter.finish_allow(NOW, 1, 0, 4_000_000, 20_000_000).unwrap();
    cache.record(key.clone(), expiry.unwrap());

    let plan = limiter.plan_allow(&limit, 1, NOW, cache.lookup(&key)).unwrap();
    assert!(matches!(plan, AllowPlan::Local(ref r) if r.limited));

    let msg = limiter.reset_message(&key).unwrap();
    cache.apply_event(&msg);
    let plan = limiter.plan_allow(&limit, 1, NOW, cache.lookup(&key)).unwrap();
    assert!(matches!(plan, AllowPlan::Query(_)));
}

#[test]
fn plan_without_acceleration_always_queries() {
    let limit = Limit::new(5, 5, 20);
    let plan = Limiter::new(false).plan_allow(&limit, 1, NOW, Some(NOW + 20_000_000)).unwrap();
    assert!(matches!(plan, AllowPlan::Query(s) if s.tat_increment == 4_000_000));
}

#[test]
fn local_cache_record_lookup_evict() {
    let mut cache = LocalCache::new();
    let a = "redis_rate:a".to_string();
    let b = "redis_rate:b".to_string();
    assert_eq!(cache.lookup(&a), None);
    cache.record(a.clone(), 10);
    cache.record(b.clone(), 20);
    cache.record(a.clone(), 30);
    assert_eq!(cache.lookup(&a), Some(30));
    assert_eq!(cache.lookup(&b), Some(20));
    cache.evict(&a);
    assert_eq!(cache.lookup(&a), None);
    assert_eq!(cache.lookup(&b), Some(20));
}

#[test]
fn local_cache_ignores_other_messages() {
    let mut cache = LocalCache::new();
    let k = "redis_rate:k".to_string();
    cache.record(k.clone(), 5);
    cache.apply_event("update:redis_rate:k");
    assert_eq!(cache.lookup(&k), Some(5));
    cache.apply_event("reset:redis_rate:other");
    assert_eq!(cache.lookup(&k), Some(5));
    cache.apply_event("reset:redis_rate:k");
    assert_eq!(cache.lookup(&k), None);
}

#[test]
fn denied_remaining_counts_from_stale_stored_time() {
    let spans = Limit::new(10, 10, 1).spans(11).unwrap();
    let stored = Some(NOW - 500_000);
    let (r, next) = gcra_step(stored, NOW, &spans);
    assert_eq!(
        r,
        LimitResult { limited: true, remaining: 15, retry_after: Some(100_000), reset_after: 0 }
    );
    assert_eq!(next, stored);
}

#[test]
fn unit_calls_within_one_interval_allow_burst() {
    let limit = Limit::new(2, 5, 10);
    let mut stored: Option<u64> = None;
    let mut allowed = 0;
    for i in 0..8u64 {
        if !run(&mut stored, NOW + i * 600_000, &limit, 1).limited {
            allowed += 1;
        }
    }
    assert_eq!(allowed, 5);
}
