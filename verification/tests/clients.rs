use vcod_server::challenge::ChallengeTable;
use vcod_server::clients::{
    addr_slot, decide_connect, packet_slot, timed_out, Admission, Peer, RECONNECT_LIMIT_MS,
    TIMEOUT_MS,
};

const IP: u128 = (0xffffu128 << 32) | 0x7f00_0001;
const OTHER_IP: u128 = (0xffffu128 << 32) | 0x0a00_0001;
const QPORT: u16 = 0x2001;
const VERSION: i32 = 1;

fn peer(port: u16, qport: u16, challenge: i32, at: u64) -> Peer {
    Peer {
        ip: IP,
        port,
        qport,
        challenge,
        last_connect_ms: at,
        last_packet_ms: at,
        is_bot: false,
    }
}

/// A connect from `port` with a freshly issued challenge.
fn connect(
    peers: &Vec<Option<Peer>>,
    t: &mut ChallengeTable,
    port: u16,
    challenge: i32,
    qport: u16,
    now: u64,
) -> Admission {
    decide_connect(
        peers,
        t,
        IP,
        port,
        VERSION,
        Some(VERSION),
        Some(challenge),
        Some(i32::from(qport)),
        now,
    )
}

#[test]
fn a_valid_connect_takes_a_slot() {
    let peers: Vec<Option<Peer>> = vec![None; 4];
    let mut t = ChallengeTable::new();
    let c = t.issue(IP, 5, 0, 1234);
    let a = connect(&peers, &mut t, 5, c, QPORT, 0);
    assert_eq!(a, Admission::Fresh(0));
    assert_eq!(a.reply(), Some("connectResponse"));
    assert!(t.get(0).connected);
}

#[test]
fn a_connect_on_the_wrong_protocol_is_rejected() {
    let peers: Vec<Option<Peer>> = vec![None; 4];
    let mut t = ChallengeTable::new();
    let c = t.issue(IP, 5, 0, 1234);
    let a = decide_connect(&peers, &mut t, IP, 5, VERSION, Some(6), Some(c), Some(1), 0);
    assert_eq!(a, Admission::WrongVersion);
    assert_eq!(a.reply(), Some("error\nEXE_SERVER_IS_DIFFERENT_VER 1.1"));
    let a = decide_connect(&peers, &mut t, IP, 5, VERSION, None, Some(c), Some(1), 0);
    assert_eq!(a, Admission::WrongVersion);
    assert!(!t.get(0).connected, "a refused connect claims nothing");
}

#[test]
fn a_connect_with_a_challenge_we_never_issued_is_rejected() {
    let peers: Vec<Option<Peer>> = vec![None; 4];
    let mut t = ChallengeTable::new();
    let c = t.issue(IP, 5, 0, 1234);
    let a = connect(&peers, &mut t, 5, c.wrapping_add(1), QPORT, 0);
    assert_eq!(a, Admission::BadChallenge);
    assert_eq!(a.reply(), Some("error\nEXE_BAD_CHALLENGE"));
    // Missing keys are a bad challenge too.
    let a = decide_connect(&peers, &mut t, IP, 5, VERSION, Some(VERSION), None, Some(1), 0);
    assert_eq!(a, Admission::BadChallenge);
    let a = decide_connect(&peers, &mut t, IP, 5, VERSION, Some(VERSION), Some(c), None, 0);
    assert_eq!(a, Admission::BadChallenge);
}

#[test]
fn a_full_server_rejects_the_next_connect() {
    let peers = vec![Some(peer(5, QPORT, 1, 0))];
    let mut t = ChallengeTable::new();
    // Neither qport nor port matches, so not a reconnect of the first client.
    let c = t.issue(IP, 6, 0, 99);
    let a = connect(&peers, &mut t, 6, c, QPORT + 1, 0);
    assert_eq!(a, Admission::Full);
    assert_eq!(a.reply(), Some("error\nEXE_SERVERISFULL"));
}

/// The same peer connecting again inside the reconnect limit is dropped
/// without a reply; past it, it takes its slot back.
#[test]
fn a_reconnect_waits_out_the_limit_and_takes_its_slot_back() {
    let peers = vec![None, Some(peer(5, QPORT, 77, 1_000))];
    let mut t = ChallengeTable::new();
    let _ = t.issue(IP, 5, 0, 77);
    let a = connect(&peers, &mut t, 5, 77, QPORT, 1_000 + RECONNECT_LIMIT_MS - 1);
    assert_eq!(a, Admission::TooSoon);
    assert_eq!(a.reply(), None);
    let a = connect(&peers, &mut t, 5, 77, QPORT, 1_000 + RECONNECT_LIMIT_MS + 100);
    assert_eq!(a, Admission::Reconnect(1));
    assert_eq!(a.reply(), Some("connectResponse"));
}

/// A neighbour behind the same NAT with a valid challenge for the address
/// cannot take over a client still heard from; once the slot has been
/// silent past the limit it may.
#[test]
fn a_foreign_challenge_cannot_replace_a_live_client() {
    let own = 500;
    let mut live = peer(5, QPORT, own, 0);
    live.last_packet_ms = 3_100;
    let peers = vec![Some(live)];
    let mut t = ChallengeTable::new();
    let foreign = t.issue(IP, 7, 3_100, 600);
    let a = connect(&peers, &mut t, 7, foreign, QPORT, 3_200);
    assert_eq!(a, Admission::LiveSlot(0));
    assert_eq!(a.reply(), None);
    // The slot's own challenge still resets it.
    let _ = t.issue(IP, 5, 3_200, own);
    let a = connect(&peers, &mut t, 5, own, QPORT, 3_200);
    assert_eq!(a, Admission::Reconnect(0));
    // Silent for the limit, the slot is reclaimable by the new challenge.
    let a = connect(&peers, &mut t, 7, foreign, QPORT, 3_200 + RECONNECT_LIMIT_MS + 100);
    assert_eq!(a, Admission::Reconnect(0));
}

#[test]
fn a_packet_belongs_to_the_client_with_its_address_and_qport() {
    let mut moved = peer(40_000, QPORT, 1, 0);
    moved.ip = OTHER_IP;
    let peers = vec![None, Some(peer(5, QPORT + 1, 1, 0)), Some(peer(6, QPORT, 1, 0)), Some(moved)];
    assert_eq!(packet_slot(&peers, IP, QPORT), Some(2));
    assert_eq!(packet_slot(&peers, OTHER_IP, QPORT), Some(3));
    assert_eq!(packet_slot(&peers, IP, 9), None);
    // A connectionless disconnect goes by the exact address.
    assert_eq!(addr_slot(&peers, IP, 6), Some(2));
    assert_eq!(addr_slot(&peers, IP, 7), None);
}

#[test]
fn a_silent_client_times_out_and_a_bot_never_does() {
    let mut bot = peer(0, 0, 0, 0);
    bot.is_bot = true;
    let peers = vec![
        Some(peer(5, 1, 1, 0)),
        Some(bot),
        None,
        Some(peer(6, 2, 1, 10)),
        Some(peer(7, 3, 1, 1)),
    ];
    assert_eq!(timed_out(&peers, TIMEOUT_MS), Vec::<usize>::new());
    assert_eq!(timed_out(&peers, TIMEOUT_MS + 1), vec![0]);
    assert_eq!(timed_out(&peers, TIMEOUT_MS + 5), vec![0, 4]);
    assert_eq!(timed_out(&peers, TIMEOUT_MS + 11), vec![0, 3, 4]);
}
