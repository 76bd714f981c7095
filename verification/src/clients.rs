//! The client slots as the connection logic reads them: whether a connect
//! is admitted and to which slot, which slot a packet or a disconnect
//! belongs to, and which clients have timed out. Times are milliseconds on
//! the caller's monotonic clock.

use vstd::prelude::*;
use crate::challenge::{
    claimed, elapsed, elapsed_ms, first_claimable, Challenge, ChallengeTable,
};
use crate::search::{first_index, lemma_first_index};

verus! {

/// `sv_reconnectlimit` default. Also how long a slot must have been silent
/// before a connect carrying a different challenge may reclaim it.
pub const RECONNECT_LIMIT_MS: u64 = 3_000;

/// `sv_timeout` default.
pub const TIMEOUT_MS: u64 = 240_000;

/// What the connection logic knows of a connected client.
#[derive(Clone, Copy, Debug, PartialEq, Eq, Structural)]
pub struct Peer {
    /// The source address, an IPv4 address as its IPv4-mapped IPv6 value.
    pub ip: u128,
    pub port: u16,
    /// The netchan qport, which identifies the client behind a NAT.
    pub qport: u16,
    /// The challenge it connected with.
    pub challenge: i32,
    pub last_connect_ms: u64,
    pub last_packet_ms: u64,
    /// Bots never time out.
    pub is_bot: bool,
}

/// Whether a connect from `(ip, port)` with `qport` comes from the same
/// peer as a connected client: the same address, and the same qport or
/// the same port.
pub open spec fn same_peer(p: Peer, ip: u128, port: u16, qport: u16) -> bool {
    p.ip == ip && (p.qport == qport || p.port == port)
}

/// Slots holding the same peer.
pub open spec fn peer_pred(peers: Seq<Option<Peer>>, ip: u128, port: u16, qport: u16) -> spec_fn(
    int,
) -> bool {
    |j: int| peers[j] matches Some(p) && same_peer(p, ip, port, qport)
}

/// Slots holding the same peer, which connected less than
/// `RECONNECT_LIMIT_MS` ago.
pub open spec fn too_soon_pred(
    peers: Seq<Option<Peer>>,
    ip: u128,
    port: u16,
    qport: u16,
    now: u64,
) -> spec_fn(int) -> bool {
    |j: int|
        peers[j] matches Some(p) && same_peer(p, ip, port, qport) && elapsed(now, p.last_connect_ms)
            < RECONNECT_LIMIT_MS
}

/// Free slots.
pub open spec fn free_pred(peers: Seq<Option<Peer>>) -> spec_fn(int) -> bool {
    |j: int| peers[j] is None
}

/// What a connect comes to.
#[derive(Clone, Copy, Debug, PartialEq, Eq, Structural)]
pub enum Admission {
    /// The userinfo's protocol is not the server's.
    WrongVersion,
    /// No challenge or qport in the userinfo, or a challenge never issued
    /// to this address.
    BadChallenge,
    /// The same peer connected less than `RECONNECT_LIMIT_MS` ago; the
    /// connect is dropped without a reply.
    TooSoon,
    /// The same peer holds this slot with another challenge and was heard
    /// from less than `RECONNECT_LIMIT_MS` ago; the connect is dropped
    /// without a reply.
    LiveSlot(usize),
    /// No slot is free.
    Full,
    /// The peer takes back its slot; whoever held it is torn down first.
    Reconnect(usize),
    /// The peer takes the first free slot.
    Fresh(usize),
}

/// The connectionless reply to each outcome, if it has one.
pub open spec fn reply_of(a: Admission) -> Option<&'static str> {
    match a {
        Admission::WrongVersion => Some("error\nEXE_SERVER_IS_DIFFERENT_VER 1.1"),
        Admission::BadChallenge => Some("error\nEXE_BAD_CHALLENGE"),
        Admission::Full => Some("error\nEXE_SERVERISFULL"),
        Admission::Reconnect(_) => Some("connectResponse"),
        Admission::Fresh(_) => Some("connectResponse"),
        Admission::TooSoon => None,
        Admission::LiveSlot(_) => None,
    }
}

impl Admission {
    /// The connectionless reply to this outcome, if it has one.
    pub fn reply(&self) -> (r: Option<&'static str>)
        ensures
            r == reply_of(*self),
    {
        match self {
            Admission::WrongVersion => Some("error\nEXE_SERVER_IS_DIFFERENT_VER 1.1"),
            Admission::BadChallenge => Some("error\nEXE_BAD_CHALLENGE"),
            Admission::Full => Some("error\nEXE_SERVERISFULL"),
            Admission::Reconnect(_) => Some("connectResponse"),
            Admission::Fresh(_) => Some("connectResponse"),
            Admission::TooSoon => None,
            Admission::LiveSlot(_) => None,
        }
    }
}

/// `SV_DirectConnect` with CoD's rejection strings, as a function of the
/// slots and the challenge table: the protocol is checked, then the
/// challenge and qport's presence, then the reconnect limit, then the
/// challenge against the table (by address alone, as a NAT may move the
/// port), which a connect that gets this far claims. The slot is the same
/// peer's, unless another challenge would replace a client still heard
/// from, else the first free one.
pub open spec fn admission_of(
    peers: Seq<Option<Peer>>,
    t: Seq<Challenge>,
    ip: u128,
    port: u16,
    version: i32,
    protocol: Option<i32>,
    challenge: Option<i32>,
    qport: Option<i32>,
    now: u64,
) -> (Admission, Seq<Challenge>) {
    if protocol != Some(version) {
        (Admission::WrongVersion, t)
    } else {
        match (challenge, qport) {
            (Some(ch), Some(q)) => {
                let q16 = q as u16;
                let n = peers.len() as int;
                if first_index(n, too_soon_pred(peers, ip, port, q16, now), 0) is Some {
                    (Admission::TooSoon, t)
                } else {
                    match first_claimable(t, ip, ch) {
                        None => (Admission::BadChallenge, t),
                        Some(ci) => {
                            let t1 = claimed(t, ci);
                            match first_index(n, peer_pred(peers, ip, port, q16), 0) {
                                Some(i) => {
                                    let p = peers[i]->0;
                                    if p.challenge != ch && elapsed(now, p.last_packet_ms)
                                        < RECONNECT_LIMIT_MS {
                                        (Admission::LiveSlot(i as usize), t1)
                                    } else {
                                        (Admission::Reconnect(i as usize), t1)
                                    }
                                },
                                None => match first_index(n, free_pred(peers), 0) {
                                    Some(i) => (Admission::Fresh(i as usize), t1),
                                    None => (Admission::Full, t1),
                                },
                            }
                        },
                    }
                }
            },
            _ => (Admission::BadChallenge, t),
        }
    }
}

fn find_too_soon(peers: &Vec<Option<Peer>>, ip: u128, port: u16, qport: u16, now: u64) -> (r: bool)
    ensures
        r == (first_index(peers@.len() as int, too_soon_pred(peers@, ip, port, qport, now), 0) is Some),
{
    let ghost p = too_soon_pred(peers@, ip, port, qport, now);
    let mut i: usize = 0;
    while i < peers.len()
        invariant
            i <= peers@.len(),
            p == too_soon_pred(peers@, ip, port, qport, now),
            forall|j: int| 0 <= j < i ==> !#[trigger] p(j),
        decreases peers@.len() - i,
    {
        if let Some(c) = peers[i] {
            if c.ip == ip && (c.qport == qport || c.port == port) && elapsed_ms(now, c.last_connect_ms)
                < RECONNECT_LIMIT_MS {
                proof {
                    assert(p(i as int));
                    lemma_first_index(peers@.len() as int, p, 0);
                }
                return true;
            }
        }
        i = i + 1;
    }
    proof {
        lemma_first_index(peers@.len() as int, p, 0);
    }
    false
}

fn find_peer(peers: &Vec<Option<Peer>>, ip: u128, port: u16, qport: u16) -> (r: Option<usize>)
    ensures
        match r {
            Some(i) => first_index(peers@.len() as int, peer_pred(peers@, ip, port, qport), 0) == Some(i as int),
            None => first_index(peers@.len() as int, peer_pred(peers@, ip, port, qport), 0) is None,
        },
{
    let ghost p = peer_pred(peers@, ip, port, qport);
    let mut i: usize = 0;
    while i < peers.len()
        invariant
            i <= peers@.len(),
            p == peer_pred(peers@, ip, port, qport),
            forall|j: int| 0 <= j < i ==> !#[trigger] p(j),
        decreases peers@.len() - i,
    {
        if let Some(c) = peers[i] {
            if c.ip == ip && (c.qport == qport || c.port == port) {
                proof {
                    assert(p(i as int));
                    lemma_first_index(peers@.len() as int, p, 0);
                }
                return Some(i);
            }
        }
        i = i + 1;
    }
    proof {
        lemma_first_index(peers@.len() as int, p, 0);
    }
    None
}

fn find_free(peers: &Vec<Option<Peer>>) -> (r: Option<usize>)
    ensures
        match r {
            Some(i) => first_index(peers@.len() as int, free_pred(peers@), 0) == Some(i as int),
            None => first_index(peers@.len() as int, free_pred(peers@), 0) is None,
        },
{
    let ghost p = free_pred(peers@);
    let mut i: usize = 0;
    while i < peers.len()
        invariant
            i <= peers@.len(),
            p == free_pred(peers@),
            forall|j: int| 0 <= j < i ==> !#[trigger] p(j),
        decreases peers@.len() - i,
    {
        if peers[i].is_none() {
            proof {
                assert(p(i as int));
                lemma_first_index(peers@.len() as int, p, 0);
            }
            return Some(i);
        }
        i = i + 1;
    }
    proof {
        lemma_first_index(peers@.len() as int, p, 0);
    }
    None
}

/// `SV_DirectConnect`'s decision for a connect from `(ip, port)` whose
/// userinfo carried `protocol`, `challenge` and `qport` (each absent when
/// the key is missing or not a number), against the server's `version`.
pub fn decide_connect(
    peers: &Vec<Option<Peer>>,
    challenges: &mut ChallengeTable,
    ip: u128,
    port: u16,
    version: i32,
    protocol: Option<i32>,
    challenge: Option<i32>,
    qport: Option<i32>,
    now: u64,
) -> (r: Admission)
    ensures
        (r, final(challenges)@) == admission_of(
            peers@,
            old(challenges)@,
            ip,
            port,
            version,
            protocol,
            challenge,
            qport,
            now,
        ),
{
    match protocol {
        Some(v) => {
            if v != version {
                return Admission::WrongVersion;
            }
        },
        None => {
            return Admission::WrongVersion;
        },
    }
    let (ch, q) = match (challenge, qport) {
        (Some(c), Some(q)) => (c, q as u16),
        _ => {
            return Admission::BadChallenge;
        },
    };
    if find_too_soon(peers, ip, port, q, now) {
        return Admission::TooSoon;
    }
    if !challenges.claim(ip, ch) {
        return Admission::BadChallenge;
    }
    match find_peer(peers, ip, port, q) {
        Some(i) => {
            proof {
                lemma_first_index(peers@.len() as int, peer_pred(peers@, ip, port, q), 0);
                assert(peer_pred(peers@, ip, port, q)(i as int));
                assert(peers@[i as int] is Some);
            }
            let c = peers[i].unwrap();
            if c.challenge != ch && elapsed_ms(now, c.last_packet_ms) < RECONNECT_LIMIT_MS {
                Admission::LiveSlot(i)
            } else {
                Admission::Reconnect(i)
            }
        },
        None => match find_free(peers) {
            Some(i) => Admission::Fresh(i),
            None => Admission::Full,
        },
    }
}

/// Slots whose client sends from `ip` with `qport`.
pub open spec fn route_pred(peers: Seq<Option<Peer>>, ip: u128, qport: u16) -> spec_fn(int) -> bool {
    |j: int| peers[j] matches Some(p) && p.ip == ip && p.qport == qport
}

/// The slot a netchan packet from `ip` carrying `qport` belongs to: the
/// first client at that address with that qport, whatever its port, as a
/// NAT may move the port and the qport is the identity.
pub fn packet_slot(peers: &Vec<Option<Peer>>, ip: u128, qport: u16) -> (r: Option<usize>)
    ensures
        match r {
            Some(i) => first_index(peers@.len() as int, route_pred(peers@, ip, qport), 0) == Some(i as int),
            None => first_index(peers@.len() as int, route_pred(peers@, ip, qport), 0) is None,
        },
{
    let ghost p = route_pred(peers@, ip, qport);
    let mut i: usize = 0;
    while i < peers.len()
        invariant
            i <= peers@.len(),
            p == route_pred(peers@, ip, qport),
            forall|j: int| 0 <= j < i ==> !#[trigger] p(j),
        decreases peers@.len() - i,
    {
        if let Some(c) = peers[i] {
            if c.ip == ip && c.qport == qport {
                proof {
                    assert(p(i as int));
                    lemma_first_index(peers@.len() as int, p, 0);
                }
                return Some(i);
            }
        }
        i = i + 1;
    }
    proof {
        lemma_first_index(peers@.len() as int, p, 0);
    }
    None
}

/// Slots whose client is at exactly `(ip, port)`.
pub open spec fn addr_pred(peers: Seq<Option<Peer>>, ip: u128, port: u16) -> spec_fn(int) -> bool {
    |j: int| peers[j] matches Some(p) && p.ip == ip && p.port == port
}

/// The slot a connectionless `disconnect` from `(ip, port)` drops: the
/// first client at exactly that address.
pub fn addr_slot(peers: &Vec<Option<Peer>>, ip: u128, port: u16) -> (r: Option<usize>)
    ensures
        match r {
            Some(i) => first_index(peers@.len() as int, addr_pred(peers@, ip, port), 0) == Some(i as int),
            None => first_index(peers@.len() as int, addr_pred(peers@, ip, port), 0) is None,
        },
{
    let ghost p = addr_pred(peers@, ip, port);
    let mut i: usize = 0;
    while i < peers.len()
        invariant
            i <= peers@.len(),
            p == addr_pred(peers@, ip, port),
            forall|j: int| 0 <= j < i ==> !#[trigger] p(j),
        decreases peers@.len() - i,
    {
        if let Some(c) = peers[i] {
            if c.ip == ip && c.port == port {
                proof {
                    assert(p(i as int));
                    lemma_first_index(peers@.len() as int, p, 0);
                }
                return Some(i);
            }
        }
        i = i + 1;
    }
    proof {
        lemma_first_index(peers@.len() as int, p, 0);
    }
    None
}

/// Whether the client in a slot has timed out at `now`: a client, not a
/// bot, silent for longer than `TIMEOUT_MS`.
pub open spec fn timed_out_at(slot: Option<Peer>, now: u64) -> bool {
    slot matches Some(p) && !p.is_bot && elapsed(now, p.last_packet_ms) > TIMEOUT_MS
}

/// The timed-out slots among the first `n`, in order.
pub open spec fn timed_out_of(peers: Seq<Option<Peer>>, now: u64, n: int) -> Seq<usize>
    decreases n,
{
    if n <= 0 {
        Seq::empty()
    } else if timed_out_at(peers[n - 1], now) {
        timed_out_of(peers, now, n - 1).push((n - 1) as usize)
    } else {
        timed_out_of(peers, now, n - 1)
    }
}

/// `SV_CheckTimeouts` with `sv_timeout` and no timeout-count hysteresis:
/// the slots to drop (`EXE_TIMEDOUT`), in order.
pub fn timed_out(peers: &Vec<Option<Peer>>, now: u64) -> (r: Vec<usize>)
    ensures
        r@ == timed_out_of(peers@, now, peers@.len() as int),
{
    let mut out: Vec<usize> = Vec::new();
    let mut i: usize = 0;
    while i < peers.len()
        invariant
            i <= peers@.len(),
            out@ == timed_out_of(peers@, now, i as int),
        decreases peers@.len() - i,
    {
        if let Some(c) = peers[i] {
            if !c.is_bot && elapsed_ms(now, c.last_packet_ms) > TIMEOUT_MS {
                out.push(i);
            }
        }
        i = i + 1;
    }
    out
}


/// A connect from the address and port of a connected client, or from its
/// address and qport, comes from that client (so a client that restarted
/// its game keeps its slot behind the same port): it is never given a fresh
/// slot or refused as full; it takes back (or is refused) a slot of its
/// own, the first that holds it; and within the reconnect limit of that
/// client's last connect it is dropped as too soon.
pub proof fn law_the_same_address_and_port_is_the_same_peer(
    peers: Seq<Option<Peer>>,
    t: Seq<Challenge>,
    ip: u128,
    port: u16,
    version: i32,
    protocol: Option<i32>,
    challenge: Option<i32>,
    qport: Option<i32>,
    now: u64,
    k: int,
)
    requires
        0 <= k < peers.len() <= usize::MAX,
        peers[k] matches Some(p) && p.ip == ip && (p.port == port || (qport is Some && p.qport
            == qport->0 as u16)),
    ensures
        ({
            let a = admission_of(peers, t, ip, port, version, protocol, challenge, qport, now).0;
            &&& !(a is Fresh) && !(a is Full)
            &&& a matches Admission::Reconnect(i) ==> (i <= k && peers[i as int] is Some
                && peers[i as int]->0.ip == ip && (peers[i as int]->0.port == port
                || peers[i as int]->0.qport == qport->0 as u16))
            &&& a matches Admission::LiveSlot(i) ==> (i <= k && peers[i as int] is Some
                && peers[i as int]->0.ip == ip && (peers[i as int]->0.port == port
                || peers[i as int]->0.qport == qport->0 as u16))
            &&& (protocol == Some(version) && challenge is Some && qport is Some && elapsed(
                now,
                peers[k]->0.last_connect_ms,
            ) < RECONNECT_LIMIT_MS) ==> a == Admission::TooSoon
        }),
{
    let n = peers.len() as int;
    match (challenge, qport) {
        (Some(ch), Some(q)) => {
            let q16 = q as u16;
            let ts = too_soon_pred(peers, ip, port, q16, now);
            let pp = peer_pred(peers, ip, port, q16);
            lemma_first_index(n, ts, 0);
            lemma_first_index(n, pp, 0);
            assert(pp(k));
            if elapsed(now, peers[k]->0.last_connect_ms) < RECONNECT_LIMIT_MS {
                assert(ts(k));
            }
            let i = first_index(n, pp, 0)->0;
            assert(pp(i));
            assert(i <= k);
        },
        _ => {},
    }
}

} // verus!
