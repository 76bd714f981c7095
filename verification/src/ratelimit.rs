//! The connectionless reply limiter, so `getstatus` cannot be used as a
//! reflector: ioq3's leaky buckets, one per source address in front of one
//! for all replies. Times are microseconds on the caller's monotonic clock.

use vstd::prelude::*;

verus! {

/// Per source address: a burst of 10 connectionless requests, one token
/// back per second.
pub const ADDR_BURST: u32 = 10;
pub const ADDR_PERIOD_US: u64 = 1_000_000;

/// All connectionless replies: 10 per 100 ms.
pub const GLOBAL_BURST: u32 = 10;
pub const GLOBAL_PERIOD_US: u64 = 100_000;

/// Source addresses tracked at once; the least recently seen is evicted.
pub const MAX_BUCKETS: usize = 1024;

/// ioq3 `leakyBucket_t`: `used` tokens, one drained per period since
/// `last_us`.
#[derive(Clone, Copy, Debug, PartialEq, Eq, Structural)]
pub struct Bucket {
    pub last_us: u64,
    pub used: u32,
}

/// A bucket first seen at `now`: no tokens used.
pub open spec fn fresh_bucket(now: u64) -> Bucket {
    Bucket { last_us: now, used: 0 }
}

/// The bucket once the tokens of every whole period since `last_us` have
/// drained: all of them and a restart at `now` when more periods passed
/// than tokens were used, else that many fewer with `last_us` moved on by
/// whole periods. A `now` before `last_us` drains nothing.
pub open spec fn drained(b: Bucket, now: u64, period: u64) -> Bucket {
    let interval: int = if now >= b.last_us {
        now - b.last_us
    } else {
        0
    };
    let expired = interval / (period as int);
    if expired > b.used {
        Bucket { last_us: now, used: 0 }
    } else {
        Bucket { last_us: (b.last_us + period * expired) as u64, used: (b.used - expired) as u32 }
    }
}

/// `SVC_RateLimit`: the bucket after one request at `now`, and whether the
/// request is over the limit. An admitted request takes a token.
pub open spec fn limited_after(b: Bucket, now: u64, burst: u32, period: u64) -> (Bucket, bool) {
    let d = drained(b, now, period);
    if d.used < burst {
        (Bucket { last_us: d.last_us, used: (d.used + 1) as u32 }, false)
    } else {
        (d, true)
    }
}

impl Bucket {
    /// A bucket first seen at `now`.
    pub fn new(now: u64) -> (b: Bucket)
        ensures
            b == fresh_bucket(now),
    {
        Bucket { last_us: now, used: 0 }
    }

    /// `SVC_RateLimit`. True when this request is over the limit.
    pub fn limited(&mut self, now: u64, burst: u32, period: u64) -> (r: bool)
        requires
            period > 0,
        ensures
            (*final(self), r) == limited_after(*old(self), now, burst, period),
    {
        let interval: u64 = if now >= self.last_us {
            now - self.last_us
        } else {
            0
        };
        let expired: u64 = interval / period;
        assert(period * expired <= interval) by (nonlinear_arith)
            requires
                expired == interval / period,
                period > 0,
        ;
        assert(interval == 0 ==> expired == 0);
        if expired > self.used as u64 {
            self.used = 0;
            self.last_us = now;
        } else {
            self.used = self.used - expired as u32;
            self.last_us = self.last_us + period * expired;
        }
        if self.used < burst {
            self.used = self.used + 1;
            return false;
        }
        true
    }
}

/// A bucket never holds more tokens than its burst: a request is admitted
/// only while there is room.
pub proof fn law_a_bucket_never_overfills(b: Bucket, now: u64, burst: u32, period: u64)
    requires
        period > 0,
        b.used <= burst,
    ensures
        limited_after(b, now, burst, period).0.used <= burst,
{
}

/// At one instant a bucket admits exactly while tokens remain: a request
/// with `burst` tokens already used at `last_us` is refused and changes
/// nothing, one with fewer is admitted.
pub proof fn law_a_spent_bucket_refuses_until_a_period_passes(b: Bucket, burst: u32, period: u64)
    requires
        period > 0,
    ensures
        limited_after(b, b.last_us, burst, period).1 == (b.used >= burst),
        b.used >= burst ==> limited_after(b, b.last_us, burst, period).0 == b,
{
    assert(0int / (period as int) == 0);
    assert((period as int) * 0 == 0);
}

/// A whole period after its last drain, a bucket that was not over its
/// burst admits the next request.
pub proof fn law_a_period_brings_a_token_back(b: Bucket, now: u64, burst: u32, period: u64)
    requires
        period > 0,
        burst > 0,
        b.used <= burst,
        now >= b.last_us + period,
    ensures
        !limited_after(b, now, burst, period).1,
{
    let interval: int = now - b.last_us;
    assert(interval / (period as int) >= 1) by (nonlinear_arith)
        requires
            interval >= period,
            period > 0,
    ;
}

/// The bucket after `n` requests at one instant `t`.
pub open spec fn after_requests(b: Bucket, t: u64, burst: u32, period: u64, n: nat) -> Bucket
    decreases n,
{
    if n == 0 {
        b
    } else {
        limited_after(after_requests(b, t, burst, period, (n - 1) as nat), t, burst, period).0
    }
}

/// A bucket first seen at `t` admits exactly `burst` requests at `t`: after
/// `n <= burst` of them it has used `n` tokens, each was admitted while
/// fewer than `burst` had been, and the next one past the burst is refused.
pub proof fn law_a_fresh_bucket_admits_exactly_its_burst(t: u64, burst: u32, period: u64, n: nat)
    requires
        period > 0,
        n <= burst,
    ensures
        after_requests(fresh_bucket(t), t, burst, period, n) == (Bucket {
            last_us: t,
            used: n as u32,
        }),
        n < burst ==> !limited_after(
            after_requests(fresh_bucket(t), t, burst, period, n),
            t,
            burst,
            period,
        ).1,
        n == burst ==> limited_after(
            after_requests(fresh_bucket(t), t, burst, period, n),
            t,
            burst,
            period,
        ).1,
    decreases n,
{
    assert(0int / (period as int) == 0);
    if n > 0 {
        law_a_fresh_bucket_admits_exactly_its_burst(t, burst, period, (n - 1) as nat);
    }
}


/// Whether the table has a row for `k`.
pub open spec fn has_key(t: Seq<(u128, Bucket)>, k: u128) -> bool {
    exists|i: int| 0 <= i < t.len() && t[i].0 == k
}

/// The bucket of `k`'s row.
pub open spec fn bucket_of(t: Seq<(u128, Bucket)>, k: u128) -> Bucket {
    t[choose|i: int| 0 <= i < t.len() && t[i].0 == k].1
}

/// No address has two rows.
pub open spec fn distinct_keys(t: Seq<(u128, Bucket)>) -> bool {
    forall|i: int, j: int| 0 <= i < j < t.len() ==> t[i].0 != t[j].0
}

proof fn lemma_bucket_at(t: Seq<(u128, Bucket)>, i: int)
    requires
        distinct_keys(t),
        0 <= i < t.len(),
    ensures
        has_key(t, t[i].0),
        bucket_of(t, t[i].0) == t[i].1,
{
    let j = choose|j: int| 0 <= j < t.len() && t[j].0 == t[i].0;
    assert(t[j].0 == t[i].0);
    if j != i {
        if j < i {
            assert(t[j].0 != t[i].0);
        } else {
            assert(t[i].0 != t[j].0);
        }
    }
}

/// The bucket a request from `addr` meets before it drains: its row's, or
/// a fresh one for an address with no row.
pub open spec fn prior_bucket(t: Seq<(u128, Bucket)>, addr: u128, now: u64) -> Bucket {
    if has_key(t, addr) {
        bucket_of(t, addr)
    } else {
        fresh_bucket(now)
    }
}

/// Whether a request from `addr` makes room by evicting a row: the
/// address has none and the table is full.
pub open spec fn evicts(t: Seq<(u128, Bucket)>, addr: u128) -> bool {
    !has_key(t, addr) && t.len() >= MAX_BUCKETS
}

/// `e` was a least recently drained row of `t0` and is the one row of `t0`
/// missing from `t1`.
pub open spec fn evicted_oldest(t0: Seq<(u128, Bucket)>, t1: Seq<(u128, Bucket)>, e: u128) -> bool {
    &&& has_key(t0, e)
    &&& !has_key(t1, e)
    &&& forall|k: u128| has_key(t0, k) ==> bucket_of(t0, e).last_us <= bucket_of(t0, k).last_us
    &&& forall|k: u128| has_key(t0, k) && k != e ==> has_key(t1, k)
}

proof fn lemma_remove(t: Seq<(u128, Bucket)>, e: int)
    requires
        distinct_keys(t),
        0 <= e < t.len(),
    ensures
        distinct_keys(t.remove(e)),
        !has_key(t.remove(e), t[e].0),
        forall|k: u128|
            has_key(t.remove(e), k) ==> has_key(t, k) && bucket_of(t.remove(e), k) == bucket_of(t, k),
        forall|k: u128| has_key(t, k) && k != t[e].0 ==> has_key(t.remove(e), k),
{
    let t1 = t.remove(e);
    assert forall|i: int, j: int| 0 <= i < j < t1.len() implies t1[i].0 != t1[j].0 by {
        let a = if i < e { i } else { i + 1 };
        let b = if j < e { j } else { j + 1 };
        assert(t1[i] == t[a]);
        assert(t1[j] == t[b]);
    }
    assert forall|k: u128| has_key(t1, k) implies has_key(t, k) && bucket_of(t1, k) == bucket_of(
        t,
        k,
    ) by {
        let i = choose|i: int| 0 <= i < t1.len() && t1[i].0 == k;
        let a = if i < e { i } else { i + 1 };
        assert(t1[i] == t[a]);
        lemma_bucket_at(t1, i);
        lemma_bucket_at(t, a);
    }
    assert forall|k: u128| has_key(t, k) && k != t[e].0 implies has_key(t1, k) by {
        let i = choose|i: int| 0 <= i < t.len() && t[i].0 == k;
        if i < e {
            assert(t1[i] == t[i]);
        } else {
            assert(i != e);
            assert(t1[i - 1] == t[i]);
        }
    }
    assert(!has_key(t1, t[e].0)) by {
        if has_key(t1, t[e].0) {
            let i = choose|i: int| 0 <= i < t1.len() && t1[i].0 == t[e].0;
            let a = if i < e { i } else { i + 1 };
            assert(t1[i] == t[a]);
        }
    }
}

proof fn lemma_push(t: Seq<(u128, Bucket)>, row: (u128, Bucket))
    requires
        distinct_keys(t),
        !has_key(t, row.0),
    ensures
        distinct_keys(t.push(row)),
        forall|k: u128|
            k != row.0 ==> has_key(t.push(row), k) == has_key(t, k) && (has_key(t, k) ==> bucket_of(
                t.push(row),
                k,
            ) == bucket_of(t, k)),
{
    let t1 = t.push(row);
    assert forall|i: int, j: int| 0 <= i < j < t1.len() implies t1[i].0 != t1[j].0 by {
        if j == t.len() {
            assert(t1[i] == t[i]);
        }
    }
    assert forall|k: u128| k != row.0 implies has_key(t1, k) == has_key(t, k) && (has_key(t, k)
        ==> bucket_of(t1, k) == bucket_of(t, k)) by {
        if has_key(t1, k) {
            let i = choose|i: int| 0 <= i < t1.len() && t1[i].0 == k;
            assert(i < t.len());
            assert(t1[i] == t[i]);
        }
        if has_key(t, k) {
            let i = choose|i: int| 0 <= i < t.len() && t[i].0 == k;
            assert(t1[i] == t[i]);
            lemma_bucket_at(t, i);
            lemma_bucket_at(t1, i);
        }
    }
}

proof fn lemma_update(t: Seq<(u128, Bucket)>, idx: int, row: (u128, Bucket))
    requires
        distinct_keys(t),
        0 <= idx < t.len(),
        t[idx].0 == row.0,
    ensures
        distinct_keys(t.update(idx, row)),
        forall|k: u128|
            k != row.0 ==> has_key(t.update(idx, row), k) == has_key(t, k) && (has_key(t, k)
                ==> bucket_of(t.update(idx, row), k) == bucket_of(t, k)),
        forall|k: u128| has_key(t, k) ==> has_key(t.update(idx, row), k),
{
    let t1 = t.update(idx, row);
    assert forall|k: u128| has_key(t, k) implies has_key(t1, k) by {
        let i = choose|i: int| 0 <= i < t.len() && t[i].0 == k;
        assert(t1[i].0 == k);
    }
    assert forall|k: u128| k != row.0 implies has_key(t1, k) == has_key(t, k) && (has_key(t, k)
        ==> bucket_of(t1, k) == bucket_of(t, k)) by {
        if has_key(t1, k) {
            let i = choose|i: int| 0 <= i < t1.len() && t1[i].0 == k;
            assert(i != idx);
            assert(t1[i] == t[i]);
        }
        if has_key(t, k) {
            let i = choose|i: int| 0 <= i < t.len() && t[i].0 == k;
            assert(i != idx);
            assert(t1[i] == t[i]);
            lemma_bucket_at(t, i);
            lemma_bucket_at(t1, i);
        }
    }
}

/// The connectionless reply limiter: a bucket per source address (an IPv4
/// address is its IPv4-mapped IPv6 value) in front of one for all replies.
pub struct RateLimiter {
    global: Bucket,
    addrs: Vec<(u128, Bucket)>,
}

impl RateLimiter {
    /// The bucket all replies share.
    pub closed spec fn global_bucket(&self) -> Bucket {
        self.global
    }

    /// The per-address rows.
    pub closed spec fn table(&self) -> Seq<(u128, Bucket)> {
        self.addrs@
    }

    /// The table tracks each address once and never more than
    /// `MAX_BUCKETS` of them.
    pub open spec fn wf(&self) -> bool {
        &&& distinct_keys(self.table())
        &&& self.table().len() <= MAX_BUCKETS
    }

    /// A limiter started at `now`: an empty global bucket and no addresses.
    pub fn new(now: u64) -> (r: RateLimiter)
        ensures
            r.wf(),
            r.global_bucket() == fresh_bucket(now),
            r.table().len() == 0,
    {
        RateLimiter { global: Bucket::new(now), addrs: Vec::new() }
    }

    /// How many addresses have a row.
    pub fn tracked_count(&self) -> (r: usize)
        ensures
            r == self.table().len(),
    {
        self.addrs.len()
    }

    /// Whether `addr` has a row.
    pub fn tracks(&self, addr: u128) -> (r: bool)
        ensures
            r == has_key(self.table(), addr),
    {
        let mut i: usize = 0;
        while i < self.addrs.len()
            invariant
                i <= self.addrs@.len(),
                forall|j: int| 0 <= j < i ==> self.addrs@[j].0 != addr,
            decreases self.addrs@.len() - i,
        {
            if self.addrs[i].0 == addr {
                return true;
            }
            i = i + 1;
        }
        false
    }

    fn find(&self, addr: u128) -> (r: Option<usize>)
        ensures
            match r {
                Some(i) => i < self.addrs@.len() && self.addrs@[i as int].0 == addr,
                None => !has_key(self.addrs@, addr),
            },
    {
        let mut i: usize = 0;
        while i < self.addrs.len()
            invariant
                i <= self.addrs@.len(),
                forall|j: int| 0 <= j < i ==> self.addrs@[j].0 != addr,
            decreases self.addrs@.len() - i,
        {
            if self.addrs[i].0 == addr {
                return Some(i);
            }
            i = i + 1;
        }
        None
    }

    /// The row least recently drained, the first of them on a tie.
    fn oldest(&self) -> (r: usize)
        requires
            self.addrs@.len() > 0,
        ensures
            r < self.addrs@.len(),
            forall|j: int|
                0 <= j < self.addrs@.len() ==> self.addrs@[r as int].1.last_us
                    <= self.addrs@[j].1.last_us,
    {
        let mut best: usize = 0;
        let mut i: usize = 1;
        while i < self.addrs.len()
            invariant
                self.addrs@.len() > 0,
                best < self.addrs@.len(),
                1 <= i <= self.addrs@.len(),
                forall|j: int|
                    0 <= j < i ==> self.addrs@[best as int].1.last_us <= self.addrs@[j].1.last_us,
            decreases self.addrs@.len() - i,
        {
            if self.addrs[i].1.last_us < self.addrs[best].1.last_us {
                best = i;
            }
            i = i + 1;
        }
        best
    }

    /// `SVC_RateLimitAddress`: true when a request from `addr` at `now` is
    /// over that address's limit. An address not yet tracked gets a fresh
    /// bucket, evicting the least recently drained row when the table is
    /// full; every other row is left as it was.
    pub fn addr_limited(&mut self, addr: u128, now: u64) -> (r: bool)
        requires
            old(self).wf(),
        ensures
            final(self).wf(),
            final(self).global_bucket() == old(self).global_bucket(),
            has_key(final(self).table(), addr),
            (bucket_of(final(self).table(), addr), r) == limited_after(
                prior_bucket(old(self).table(), addr, now),
                now,
                ADDR_BURST,
                ADDR_PERIOD_US,
            ),
            forall|k: u128|
                k != addr && has_key(final(self).table(), k) ==> has_key(old(self).table(), k)
                    && bucket_of(final(self).table(), k) == bucket_of(old(self).table(), k),
            !evicts(old(self).table(), addr) ==> forall|k: u128|
                has_key(old(self).table(), k) ==> has_key(final(self).table(), k),
            evicts(old(self).table(), addr) ==> exists|e: u128|
                evicted_oldest(old(self).table(), final(self).table(), e),
    {
        let ghost t0 = self.addrs@;
        let ghost mut ek: u128 = 0;
        let found = self.find(addr);
        let idx: usize = match found {
            Some(i) => {
                proof {
                    lemma_bucket_at(t0, i as int);
                }
                i
            },
            None => {
                if self.addrs.len() >= MAX_BUCKETS {
                    let e = self.oldest();
                    proof {
                        ek = t0[e as int].0;
                    }
                    let _ = self.addrs.remove(e);
                    proof {
                        assert(self.addrs@ =~= t0.remove(e as int));
                        lemma_remove(t0, e as int);
                        assert forall|k: u128| has_key(t0, k) implies bucket_of(t0, ek).last_us
                            <= bucket_of(t0, k).last_us by {
                            let i = choose|i: int| 0 <= i < t0.len() && t0[i].0 == k;
                            lemma_bucket_at(t0, i);
                            lemma_bucket_at(t0, e as int);
                        }
                        assert(evicted_oldest(t0, self.addrs@, ek));
                    }
                }
                let ghost t_mid = self.addrs@;
                self.addrs.push((addr, Bucket::new(now)));
                proof {
                    lemma_push(t_mid, (addr, fresh_bucket(now)));
                    lemma_bucket_at(self.addrs@, self.addrs@.len() - 1);
                    if t0.len() < MAX_BUCKETS {
                        assert(t_mid == t0);
                    } else {
                        assert(ek != addr);
                        assert(evicted_oldest(t0, self.addrs@, ek));
                    }
                }
                self.addrs.len() - 1
            },
        };
        let ghost t_pre = self.addrs@;
        assert(evicts(t0, addr) ==> evicted_oldest(t0, t_pre, ek));
        let (key, mut bucket) = self.addrs[idx];
        let r = bucket.limited(now, ADDR_BURST, ADDR_PERIOD_US);
        self.addrs.set(idx, (key, bucket));
        proof {
            lemma_bucket_at(t_pre, idx as int);
            lemma_update(t_pre, idx as int, (key, bucket));
            lemma_bucket_at(self.addrs@, idx as int);
            if evicts(t0, addr) {
                assert(ek != addr);
                assert(evicted_oldest(t0, self.addrs@, ek));
            }
        }
        r
    }

    /// Both buckets, in ioq3's order; true when the reply must not go out.
    /// The global bucket is untouched by a request its address's bucket
    /// refuses.
    pub fn reply_limited(&mut self, addr: u128, now: u64) -> (r: bool)
        requires
            old(self).wf(),
        ensures
            final(self).wf(),
            ({
                let by_addr = limited_after(
                    prior_bucket(old(self).table(), addr, now),
                    now,
                    ADDR_BURST,
                    ADDR_PERIOD_US,
                ).1;
                if by_addr {
                    r && final(self).global_bucket() == old(self).global_bucket()
                } else {
                    (final(self).global_bucket(), r) == limited_after(
                        old(self).global_bucket(),
                        now,
                        GLOBAL_BURST,
                        GLOBAL_PERIOD_US,
                    )
                }
            }),
            has_key(final(self).table(), addr),
            bucket_of(final(self).table(), addr) == limited_after(
                prior_bucket(old(self).table(), addr, now),
                now,
                ADDR_BURST,
                ADDR_PERIOD_US,
            ).0,
            forall|k: u128|
                k != addr && has_key(final(self).table(), k) ==> has_key(old(self).table(), k)
                    && bucket_of(final(self).table(), k) == bucket_of(old(self).table(), k),
            !evicts(old(self).table(), addr) ==> forall|k: u128|
                has_key(old(self).table(), k) ==> has_key(final(self).table(), k),
            evicts(old(self).table(), addr) ==> exists|e: u128|
                evicted_oldest(old(self).table(), final(self).table(), e),
    {
        if self.addr_limited(addr, now) {
            true
        } else {
            self.global.limited(now, GLOBAL_BURST, GLOBAL_PERIOD_US)
        }
    }
}

/// The per-address table never grows past `MAX_BUCKETS`, however many
/// addresses ask.
pub proof fn law_the_address_table_is_bounded(l: RateLimiter)
    requires
        l.wf(),
    ensures
        l.table().len() <= MAX_BUCKETS,
{
}

} // verus!
