use vcod_server::ratelimit::{
    Bucket, RateLimiter, ADDR_BURST, ADDR_PERIOD_US, GLOBAL_BURST, GLOBAL_PERIOD_US, MAX_BUCKETS,
};

/// An IPv4 address as its IPv4-mapped IPv6 value.
fn v4(a: u8, b: u8, c: u8, d: u8) -> u128 {
    (0xffffu128 << 32) | (u128::from(a) << 24) | (u128::from(b) << 16) | (u128::from(c) << 8)
        | u128::from(d)
}

#[test]
fn getstatus_is_rate_limited_per_address() {
    let now = 5_000_000u64;
    let mut l = RateLimiter::new(now);
    let a = v4(10, 0, 0, 1);
    let b = v4(10, 0, 0, 2);
    let mut answered = 0;
    for _ in 0..ADDR_BURST + 1 {
        if !l.reply_limited(a, now) {
            answered += 1;
        }
    }
    assert_eq!(answered, ADDR_BURST);
    // One global period on, so the burst above is not what limits b.
    let t1 = now + GLOBAL_PERIOD_US;
    assert!(!l.reply_limited(b, t1));
    // The same bucket covers getinfo; one token comes back per period.
    assert!(l.reply_limited(a, t1));
    let t2 = now + ADDR_PERIOD_US;
    assert!(!l.reply_limited(a, t2));
    assert!(l.reply_limited(a, t2));
}

#[test]
fn connectionless_replies_share_a_global_bucket() {
    let now = 5_000_000u64;
    let mut l = RateLimiter::new(now);
    let mut answered = 0;
    for i in 0..GLOBAL_BURST + 5 {
        let from = v4(10, 1, (i >> 8) as u8, i as u8);
        if !l.reply_limited(from, now) {
            answered += 1;
        }
    }
    assert_eq!(answered, GLOBAL_BURST);
    assert!(!l.reply_limited(v4(10, 2, 0, 1), now + GLOBAL_PERIOD_US));
}

#[test]
fn the_address_table_is_bounded() {
    let now = 5_000_000u64;
    let mut l = RateLimiter::new(now);
    for i in 0..MAX_BUCKETS as u32 + 8 {
        let from = v4(10, (i >> 16) as u8, (i >> 8) as u8, i as u8);
        // Spread over time so the global bucket stays open and the eviction
        // order is defined.
        l.reply_limited(from, now + GLOBAL_PERIOD_US * u64::from(i));
    }
    assert_eq!(l.tracked_count(), MAX_BUCKETS);
    // The least recently seen address went first.
    assert!(!l.tracks(v4(10, 0, 0, 0)));
    assert!(l.tracks(v4(10, 0, 4, 7)));
}

/// A request the address bucket refuses never reaches the global bucket.
#[test]
fn an_address_refusal_spends_no_global_token() {
    let now = 0u64;
    let mut l = RateLimiter::new(now);
    let a = v4(192, 168, 0, 1);
    for _ in 0..ADDR_BURST {
        assert!(!l.addr_limited(a, now));
    }
    assert!(l.addr_limited(a, now));
    // The global bucket was never touched: ten different addresses still
    // get through at the same instant.
    for i in 0..GLOBAL_BURST {
        assert!(!l.reply_limited(v4(172, 16, 0, i as u8), now));
    }
    assert!(l.reply_limited(v4(172, 16, 1, 0), now));
}

#[test]
fn a_fresh_bucket_admits_exactly_its_burst() {
    let mut b = Bucket::new(1000);
    for n in 0..3 {
        assert!(!b.limited(1000, 3, 10), "request {n}");
        assert_eq!(b.used, n + 1);
    }
    assert!(b.limited(1000, 3, 10));
    assert_eq!(b, Bucket { last_us: 1000, used: 3 });
}

/// One token drains per whole period; more periods than tokens restart the
/// bucket at the request's time.
#[test]
fn tokens_drain_one_per_whole_period() {
    let mut b = Bucket { last_us: 100, used: 5 };
    assert!(!b.limited(125, 5, 10));
    // Two whole periods drained two tokens; the request took one back.
    assert_eq!(b, Bucket { last_us: 120, used: 4 });
    let mut b = Bucket { last_us: 100, used: 2 };
    assert!(!b.limited(1000, 5, 10));
    assert_eq!(b, Bucket { last_us: 1000, used: 1 });
    // A clock that went backwards drains nothing.
    let mut b = Bucket { last_us: 100, used: 5 };
    assert!(b.limited(50, 5, 10));
    assert_eq!(b, Bucket { last_us: 100, used: 5 });
}

/// A connectionless disconnect spends the same per-address bucket as the
/// browser queries: with the burst spent it is refused, a period later it
/// goes through.
#[test]
fn oob_disconnect_honours_the_address_limit() {
    let now = 0u64;
    let mut l = RateLimiter::new(now);
    let a = v4(127, 0, 0, 1);
    // The challenge took one token; spend the rest on getinfo.
    for _ in 0..ADDR_BURST {
        assert!(!l.reply_limited(a, now));
    }
    assert!(l.addr_limited(a, now), "a rate-limited disconnect went through");
    assert!(!l.addr_limited(a, now + ADDR_PERIOD_US));
}
