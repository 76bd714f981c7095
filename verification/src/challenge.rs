//! The challenge table behind `getchallenge` and `connect`: one entry per
//! address still expected to connect, refreshed while the address keeps
//! asking, expired a minute after it stopped, and the oldest recycled when
//! the table is full. Times are milliseconds on the caller's monotonic
//! clock; the challenge values themselves are drawn by the caller.

use vstd::prelude::*;
use crate::search::{first_index, lemma_first_index};

verus! {

/// `MAX_CHALLENGES`, server.h:198.
pub const MAX_CHALLENGES: usize = 1024;

/// A challenge nobody asked about for this long is dropped when a new one
/// is issued, so a spoof flood has to keep up with real clients to evict
/// them.
pub const CHALLENGE_TTL_MS: u64 = 60_000;

/// The time from `then` to `now`, zero when `then` is the later
/// (`Instant::duration_since`).
pub open spec fn elapsed(now: u64, then: u64) -> int {
    if now >= then {
        now - then
    } else {
        0
    }
}

/// `elapsed`, computed.
pub fn elapsed_ms(now: u64, then: u64) -> (r: u64)
    ensures
        r == elapsed(now, then),
{
    if now >= then {
        now - then
    } else {
        0
    }
}

/// One issued challenge.
#[derive(Clone, Copy, Debug, PartialEq, Eq, Structural)]
pub struct Challenge {
    /// The address it was issued to, an IPv4 address as its IPv4-mapped
    /// IPv6 value.
    pub ip: u128,
    pub port: u16,
    pub challenge: i32,
    /// When it was issued or last asked for again.
    pub time_ms: u64,
    /// Whether a connect has claimed it.
    pub connected: bool,
}

/// An entry still waiting for a connect from `(ip, port)`.
pub open spec fn open_for(c: Challenge, ip: u128, port: u16) -> bool {
    !c.connected && c.ip == ip && c.port == port
}

/// Which entries of `t` are still waiting for `(ip, port)`.
pub open spec fn open_pred(t: Seq<Challenge>, ip: u128, port: u16) -> spec_fn(int) -> bool {
    |j: int| open_for(t[j], ip, port)
}

/// The first entry still waiting for `(ip, port)`.
pub open spec fn first_open(t: Seq<Challenge>, ip: u128, port: u16) -> Option<int> {
    first_index(t.len() as int, open_pred(t, ip, port), 0)
}

/// Whether an entry is younger than `CHALLENGE_TTL_MS` at `now`.
pub open spec fn unexpired_at(c: Challenge, now: u64) -> bool {
    elapsed(now, c.time_ms) < CHALLENGE_TTL_MS
}

/// The entries younger than the time to live, in order.
pub open spec fn unexpired(t: Seq<Challenge>, now: u64) -> Seq<Challenge>
    decreases t.len(),
{
    if t.len() == 0 {
        Seq::empty()
    } else if unexpired_at(t.last(), now) {
        unexpired(t.drop_last(), now).push(t.last())
    } else {
        unexpired(t.drop_last(), now)
    }
}

/// The entry issued or refreshed longest ago, the first of them on a tie.
pub open spec fn oldest_index(t: Seq<Challenge>) -> int
    decreases t.len(),
{
    if t.len() <= 1 {
        0
    } else {
        let j = oldest_index(t.drop_last());
        if t.last().time_ms < t[j].time_ms {
            t.len() - 1
        } else {
            j
        }
    }
}

/// `SV_GetChallenge` without the authorize-server detour, as a function
/// of the table: an address that still has an entry waiting gets that
/// entry's challenge again and the entry's time moves to `now`. Otherwise
/// the expired entries go, and `fresh` is issued in a new entry at the end,
/// or in place of the oldest when the table is still full.
pub open spec fn issue_of(t: Seq<Challenge>, ip: u128, port: u16, now: u64, fresh: i32) -> (
    Seq<Challenge>,
    i32,
) {
    match first_open(t, ip, port) {
        Some(i) => (
            t.update(
                i,
                Challenge {
                    ip: t[i].ip,
                    port: t[i].port,
                    challenge: t[i].challenge,
                    time_ms: now,
                    connected: t[i].connected,
                },
            ),
            t[i].challenge,
        ),
        None => {
            let kept = unexpired(t, now);
            let e = Challenge { ip, port, challenge: fresh, time_ms: now, connected: false };
            if kept.len() < MAX_CHALLENGES {
                (kept.push(e), fresh)
            } else {
                (kept.update(oldest_index(kept), e), fresh)
            }
        },
    }
}

/// Which entries of `t` were issued to `ip` (any port) with `challenge`.
pub open spec fn claim_pred(t: Seq<Challenge>, ip: u128, challenge: i32) -> spec_fn(int) -> bool {
    |j: int| t[j].ip == ip && t[j].challenge == challenge
}

/// The first entry issued to `ip` (any port) with this challenge.
pub open spec fn first_claimable(t: Seq<Challenge>, ip: u128, challenge: i32) -> Option<int> {
    first_index(t.len() as int, claim_pred(t, ip, challenge), 0)
}

/// `t` with entry `i` marked as claimed by a connect.
pub open spec fn claimed(t: Seq<Challenge>, i: int) -> Seq<Challenge> {
    t.update(
        i,
        Challenge {
            ip: t[i].ip,
            port: t[i].port,
            challenge: t[i].challenge,
            time_ms: t[i].time_ms,
            connected: true,
        },
    )
}

/// `t` with every entry issued to `ip` with this challenge waiting again.
pub open spec fn released(t: Seq<Challenge>, ip: u128, challenge: i32) -> Seq<Challenge> {
    Seq::new(
        t.len(),
        |j: int|
            if t[j].ip == ip && t[j].challenge == challenge {
                Challenge {
                    ip: t[j].ip,
                    port: t[j].port,
                    challenge: t[j].challenge,
                    time_ms: t[j].time_ms,
                    connected: false,
                }
            } else {
                t[j]
            },
    )
}

proof fn lemma_unexpired(t: Seq<Challenge>, now: u64)
    ensures
        unexpired(t, now).len() <= t.len(),
        forall|j: int|
            0 <= j < unexpired(t, now).len() ==> exists|m: int|
                0 <= m < t.len() && #[trigger] unexpired(t, now)[j] == t[m],
    decreases t.len(),
{
    if t.len() > 0 {
        let s = t.drop_last();
        lemma_unexpired(s, now);
        let u = unexpired(t, now);
        assert forall|j: int| 0 <= j < u.len() implies exists|m: int|
            0 <= m < t.len() && #[trigger] u[j] == t[m] by {
            if j < unexpired(s, now).len() {
                let m = choose|m: int| 0 <= m < s.len() && unexpired(s, now)[j] == s[m];
                assert(u[j] == t[m]);
            } else {
                assert(u[j] == t[t.len() - 1]);
            }
        }
    }
}

proof fn lemma_oldest_index(t: Seq<Challenge>)
    requires
        t.len() > 0,
    ensures
        0 <= oldest_index(t) < t.len(),
    decreases t.len(),
{
    if t.len() > 1 {
        lemma_oldest_index(t.drop_last());
    }
}

/// The challenges the server has issued.
pub struct ChallengeTable {
    entries: Vec<Challenge>,
}

impl View for ChallengeTable {
    type V = Seq<Challenge>;

    closed spec fn view(&self) -> Seq<Challenge> {
        self.entries@
    }
}

impl ChallengeTable {
    /// An empty table.
    pub fn new() -> (r: ChallengeTable)
        ensures
            r@ == Seq::<Challenge>::empty(),
    {
        ChallengeTable { entries: Vec::new() }
    }

    /// How many entries there are.
    pub fn len(&self) -> (r: usize)
        ensures
            r == self@.len(),
    {
        self.entries.len()
    }

    /// Entry `i`.
    pub fn get(&self, i: usize) -> (r: Challenge)
        requires
            i < self@.len(),
        ensures
            r == self@[i as int],
    {
        self.entries[i]
    }

    fn find_open(&self, ip: u128, port: u16) -> (r: Option<usize>)
        ensures
            r == (match first_open(self@, ip, port) {
                Some(i) => Some(i as usize),
                None => None::<usize>,
            }),
    {
        let ghost p = open_pred(self@, ip, port);
        let mut i: usize = 0;
        while i < self.entries.len()
            invariant
                i <= self@.len(),
                p == open_pred(self@, ip, port),
                forall|j: int| 0 <= j < i ==> !#[trigger] p(j),
            decreases self@.len() - i,
        {
            let c = self.entries[i];
            if !c.connected && c.ip == ip && c.port == port {
                proof {
                    assert(p(i as int));
                    lemma_first_index(self@.len() as int, p, 0);
                }
                return Some(i);
            }
            i = i + 1;
        }
        proof {
            lemma_first_index(self@.len() as int, p, 0);
        }
        None
    }

    fn oldest(&self) -> (r: usize)
        requires
            self@.len() > 0,
        ensures
            r == oldest_index(self@),
    {
        let mut best: usize = 0;
        let mut i: usize = 1;
        while i < self.entries.len()
            invariant
                self@.len() > 0,
                1 <= i <= self@.len(),
                best == oldest_index(self@.take(i as int)),
                best < i,
            decreases self@.len() - i,
        {
            proof {
                let s = self@.take(i + 1);
                assert(s.drop_last() =~= self@.take(i as int));
                lemma_oldest_index(self@.take(i as int));
            }
            if self.entries[i].time_ms < self.entries[best].time_ms {
                best = i;
            }
            i = i + 1;
        }
        assert(self@.take(i as int) =~= self@);
        best
    }

    /// `SV_GetChallenge`: the challenge `(ip, port)` is to connect with.
    /// `fresh` is the value a new entry gets.
    pub fn issue(&mut self, ip: u128, port: u16, now: u64, fresh: i32) -> (r: i32)
        ensures
            (final(self)@, r) == issue_of(old(self)@, ip, port, now, fresh),
    {
        proof {
            lemma_first_index(self@.len() as int, open_pred(self@, ip, port), 0);
        }
        match self.find_open(ip, port) {
            Some(i) => {
                let c = self.entries[i];
                self.entries.set(
                    i,
                    Challenge {
                        ip: c.ip,
                        port: c.port,
                        challenge: c.challenge,
                        time_ms: now,
                        connected: c.connected,
                    },
                );
                c.challenge
            },
            None => {
                let ghost t = self@;
                let mut kept: Vec<Challenge> = Vec::new();
                let mut i: usize = 0;
                while i < self.entries.len()
                    invariant
                        t == self@,
                        i <= t.len(),
                        kept@ == unexpired(t.take(i as int), now),
                    decreases t.len() - i,
                {
                    let c = self.entries[i];
                    proof {
                        assert(t.take(i + 1).drop_last() =~= t.take(i as int));
                    }
                    if elapsed_ms(now, c.time_ms) < CHALLENGE_TTL_MS {
                        kept.push(c);
                    }
                    i = i + 1;
                }
                proof {
                    assert(t.take(i as int) =~= t);
                    lemma_unexpired(t, now);
                }
                self.entries = kept;
                let e = Challenge { ip, port, challenge: fresh, time_ms: now, connected: false };
                if self.entries.len() < MAX_CHALLENGES {
                    self.entries.push(e);
                } else {
                    let o = self.oldest();
                    proof {
                        lemma_oldest_index(self@);
                    }
                    self.entries.set(o, e);
                }
                fresh
            },
        }
    }

    /// The claim `SV_DirectConnect` makes: the first entry issued to `ip`
    /// (by address alone, as a NAT may move the port) with `challenge` is
    /// marked connected. False, and nothing changes, when there is none.
    pub fn claim(&mut self, ip: u128, challenge: i32) -> (r: bool)
        ensures
            match first_claimable(old(self)@, ip, challenge) {
                Some(i) => r && final(self)@ == claimed(old(self)@, i),
                None => !r && final(self)@ == old(self)@,
            },
    {
        let ghost p = claim_pred(self@, ip, challenge);
        let mut i: usize = 0;
        while i < self.entries.len()
            invariant
                i <= self@.len(),
                self@ == old(self)@,
                p == claim_pred(self@, ip, challenge),
                forall|j: int| 0 <= j < i ==> !#[trigger] p(j),
            decreases self@.len() - i,
        {
            let c = self.entries[i];
            if c.ip == ip && c.challenge == challenge {
                proof {
                    assert(p(i as int));
                    lemma_first_index(self@.len() as int, p, 0);
                }
                self.entries.set(
                    i,
                    Challenge {
                        ip: c.ip,
                        port: c.port,
                        challenge: c.challenge,
                        time_ms: c.time_ms,
                        connected: true,
                    },
                );
                return true;
            }
            i = i + 1;
        }
        proof {
            lemma_first_index(self@.len() as int, p, 0);
        }
        false
    }

    /// `SV_DropClient`'s release: every entry issued to the dropped
    /// client's `ip` with its challenge waits for a connect again.
    pub fn release(&mut self, ip: u128, challenge: i32)
        ensures
            final(self)@ == released(old(self)@, ip, challenge),
    {
        let ghost t = self@;
        let mut i: usize = 0;
        while i < self.entries.len()
            invariant
                i <= t.len(),
                self@.len() == t.len(),
                forall|j: int| 0 <= j < i ==> self@[j] == released(t, ip, challenge)[j],
                forall|j: int| i <= j < t.len() ==> self@[j] == t[j],
            decreases t.len() - i,
        {
            let c = self.entries[i];
            if c.ip == ip && c.challenge == challenge {
                self.entries.set(
                    i,
                    Challenge {
                        ip: c.ip,
                        port: c.port,
                        challenge: c.challenge,
                        time_ms: c.time_ms,
                        connected: false,
                    },
                );
            }
            i = i + 1;
        }
        assert(self@ =~= released(t, ip, challenge));
    }
}

/// However many addresses ask, the table never holds more than
/// `MAX_CHALLENGES` entries.
pub proof fn law_the_challenge_table_is_bounded(
    t: Seq<Challenge>,
    ip: u128,
    port: u16,
    now: u64,
    fresh: i32,
)
    requires
        t.len() <= MAX_CHALLENGES,
    ensures
        issue_of(t, ip, port, now, fresh).0.len() <= MAX_CHALLENGES,
{
    lemma_unexpired(t, now);
    lemma_first_index(t.len() as int, open_pred(t, ip, port), 0);
    if unexpired(t, now).len() > 0 {
        lemma_oldest_index(unexpired(t, now));
    }
}

/// After a request from `(ip, port)`, the first entry waiting for that
/// address carries the challenge the request got.
proof fn lemma_issue_leaves_it_waiting(t: Seq<Challenge>, ip: u128, port: u16, now: u64, fresh: i32)
    ensures
        ({
            let (t1, c) = issue_of(t, ip, port, now, fresh);
            first_open(t1, ip, port) matches Some(k) && 0 <= k < t1.len() && t1[k].challenge == c
        }),
{
    let (t1, c) = issue_of(t, ip, port, now, fresh);
    let p = open_pred(t, ip, port);
    let p1 = open_pred(t1, ip, port);
    lemma_first_index(t.len() as int, p, 0);
    lemma_first_index(t1.len() as int, p1, 0);
    match first_open(t, ip, port) {
        Some(i) => {
            assert(p1(i));
            assert forall|j: int| 0 <= j < i implies !#[trigger] p1(j) by {
                assert(t1[j] == t[j]);
                assert(!p(j));
            }
        },
        None => {
            let kept = unexpired(t, now);
            lemma_unexpired(t, now);
            assert forall|j: int| 0 <= j < kept.len() implies !open_for(#[trigger] kept[j], ip, port) by {
                let m = choose|m: int| 0 <= m < t.len() && kept[j] == t[m];
                assert(!p(m));
            }
            if kept.len() < MAX_CHALLENGES {
                let k = kept.len() as int;
                assert(p1(k));
                assert forall|j: int| 0 <= j < k implies !#[trigger] p1(j) by {
                    assert(t1[j] == kept[j]);
                }
            } else {
                lemma_oldest_index(kept);
                let k = oldest_index(kept);
                assert(p1(k));
                assert forall|j: int| 0 <= j < k implies !#[trigger] p1(j) by {
                    assert(t1[j] == kept[j]);
                }
            }
        },
    }
}

/// `getchallenge` is stable per address: until a connect claims it, an
/// address asking again, at any later time, gets the challenge it got
/// before.
pub proof fn law_asking_again_gets_the_same_challenge(
    t: Seq<Challenge>,
    ip: u128,
    port: u16,
    first_ms: u64,
    first_fresh: i32,
    again_ms: u64,
    again_fresh: i32,
)
    ensures
        issue_of(issue_of(t, ip, port, first_ms, first_fresh).0, ip, port, again_ms, again_fresh).1
            == issue_of(t, ip, port, first_ms, first_fresh).1,
{
    lemma_issue_leaves_it_waiting(t, ip, port, first_ms, first_fresh);
}

} // verus!