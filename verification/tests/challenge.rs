use vcod_server::challenge::{ChallengeTable, CHALLENGE_TTL_MS, MAX_CHALLENGES};

const IP: u128 = (0xffffu128 << 32) | 0x7f00_0001;

#[test]
fn getchallenge_is_stable_per_address() {
    let mut t = ChallengeTable::new();
    let a = t.issue(IP, 5, 0, 1111);
    assert_eq!(a, 1111);
    let b = t.issue(IP, 5, 10, 2222);
    assert_eq!(a, b);
    let c = t.issue(IP, 6, 10, 3333);
    assert_ne!(a, c);
    assert_eq!(t.len(), 2);
}

#[test]
fn stale_challenges_expire_when_a_new_one_is_issued() {
    let mut t = ChallengeTable::new();
    let now = 1_000u64;
    let old = t.issue(IP, 5, now, 77);
    // Asking again refreshes the entry rather than issuing a new one.
    let t1 = now + CHALLENGE_TTL_MS - 1_000;
    assert_eq!(t.issue(IP, 5, t1, 78), old);
    let t2 = now + CHALLENGE_TTL_MS + 1_000;
    t.issue(IP, 6, t2, 79);
    assert_eq!(t.len(), 2, "a refreshed entry was expired");

    let t3 = t1 + CHALLENGE_TTL_MS + 1_000;
    t.issue(IP, 8, t3, 80);
    assert_eq!(t.len(), 2);
    assert!((0..t.len()).all(|i| t.get(i).port != 5));
    assert!(!t.claim(IP, old), "the expired challenge connects no one");
}

#[test]
fn a_claimed_challenge_is_issued_again_as_a_new_one() {
    let mut t = ChallengeTable::new();
    let c = t.issue(IP, 5, 0, 41);
    assert!(t.claim(IP, c));
    assert!(t.get(0).connected);
    // The address is connected now, so its next request gets a new entry.
    assert_eq!(t.issue(IP, 5, 1, 42), 42);
    assert_eq!(t.len(), 2);
    // A drop releases the first entry, and the address gets it back.
    t.release(IP, c);
    assert!(!t.get(0).connected);
    assert_eq!(t.issue(IP, 5, 2, 43), 41);
}

/// A claim goes by address alone: a NAT may move the port.
#[test]
fn a_claim_matches_the_address_whatever_the_port() {
    let mut t = ChallengeTable::new();
    let c = t.issue(IP, 5, 0, 9);
    assert!(!t.claim(IP + 1, c));
    assert!(!t.claim(IP, c + 1));
    assert!(t.claim(IP, c));
}

/// A full table of live entries recycles its oldest.
#[test]
fn a_full_table_recycles_its_oldest_entry() {
    let mut t = ChallengeTable::new();
    for i in 0..MAX_CHALLENGES as u64 {
        t.issue(IP, i as u16, 10 + i, i as i32);
    }
    assert_eq!(t.len(), MAX_CHALLENGES);
    let c = t.issue(IP, 60_000, 10_000, -5);
    assert_eq!(c, -5);
    assert_eq!(t.len(), MAX_CHALLENGES);
    assert_eq!(t.get(0).port, 60_000);
    assert_eq!(t.get(0).challenge, -5);
    assert_eq!(t.get(1).port, 1);
}
