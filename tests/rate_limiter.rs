use std::time::{Duration, Instant};

use url_shortener::rate_limiter::{shard_for, RateLimiter};

fn wait(ms: u64) {
    let start = Instant::now();
    while start.elapsed() < Duration::from_millis(ms) {}
}

#[test]
fn full_bucket_admits_capacity_then_rejects() {
    let mut rl = RateLimiter::new(5);
    for _ in 0..5 {
        assert!(rl.check(7));
    }
    assert!(!rl.check(7));
    assert!(!rl.check(7));
}

#[test]
fn exhausting_one_key_leaves_another_alone() {
    let mut rl = RateLimiter::new(3);
    for _ in 0..3 {
        assert!(rl.check(1));
    }
    assert!(!rl.check(1));
    for _ in 0..3 {
        assert!(rl.check(2));
    }
    assert!(!rl.check(2));
    assert!(!rl.check(1));
}

#[test]
fn keys_are_tracked_once_each() {
    let mut rl = RateLimiter::new(10);
    assert_eq!(rl.tracked_ips(), 0);
    rl.check(1);
    rl.check(1);
    rl.check(u128::MAX);
    assert_eq!(rl.tracked_ips(), 2);
}

#[test]
fn refill_after_one_interval() {
    let mut rl = RateLimiter::new(60);
    for _ in 0..60 {
        assert!(rl.check(9));
    }
    assert!(!rl.check(9));
    wait(1100);
    assert!(rl.check(9));
    assert!(!rl.check(9));
}

#[test]
fn idle_bucket_never_exceeds_capacity() {
    let mut rl = RateLimiter::new(60);
    assert!(rl.check(4));
    wait(2200);
    let mut admitted = 0;
    for _ in 0..70 {
        if rl.check(4) {
            admitted += 1;
        }
    }
    assert_eq!(admitted, 60);
}

#[test]
fn cleanup_reclaims_only_refilled_buckets() {
    let mut rl = RateLimiter::new(60);
    assert!(rl.check(1));
    for _ in 0..60 {
        rl.check(2);
    }
    wait(1100);
    rl.cleanup_stale_limiters();
    assert_eq!(rl.tracked_ips(), 1);
    // the exhausted key kept its state: one token has come back, not sixty
    assert!(rl.check(2));
    assert!(!rl.check(2));
    // the reclaimed key starts over with a full bucket
    assert!(rl.check(1));
    assert_eq!(rl.tracked_ips(), 2);
}

#[test]
fn cleanup_keeps_recently_used_buckets() {
    let mut rl = RateLimiter::new(10);
    rl.check(1);
    rl.check(2);
    rl.cleanup_stale_limiters();
    assert_eq!(rl.tracked_ips(), 2);
}

#[test]
fn dropping_keys_answered_full() {
    let mut rl = RateLimiter::new(10);
    rl.check(1);
    rl.check(2);
    rl.check(3);
    rl.drop_full(&vec![(1, false), (2, true), (3, true), (99, true)]);
    assert_eq!(rl.tracked_ips(), 1);
    rl.drop_full(&vec![(1, false)]);
    assert_eq!(rl.tracked_ips(), 1);
}

#[test]
fn first_request_of_a_key_is_admitted() {
    let mut rl = RateLimiter::new(1);
    assert!(rl.check(0x7f00_0001));
    assert!(!rl.check(0x7f00_0001));
    assert!(rl.check(0x7f00_0002));
    assert_eq!(rl.tracked_ips(), 2);
}

#[test]
fn settling_a_bucket() {
    let mut rl = RateLimiter::new(2);
    assert_eq!(rl.settle_bucket(5, false), Some(true));
    assert_eq!(rl.settle_bucket(5, false), None);
    assert_eq!(rl.tracked_ips(), 1);
    // a bucket answered full is replaced by a fresh one, its first request admitted
    assert_eq!(rl.settle_bucket(5, true), Some(true));
    assert!(rl.check(5));
    assert!(!rl.check(5));
    assert_eq!(rl.tracked_ips(), 1);
}

#[test]
fn shards_by_remainder() {
    assert_eq!(shard_for(0, 16), 0);
    assert_eq!(shard_for(17, 16), 1);
    assert_eq!(shard_for(u128::MAX, 16), 15);
    assert_eq!(shard_for(5, 1), 0);
}
