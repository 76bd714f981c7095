use vcod_server::reliable::ReliableRing;

fn ring_with(n: i32) -> ReliableRing {
    let mut r = ReliableRing::new();
    for k in 1..=n {
        r.write(format!("cmd {k}"));
    }
    r
}

#[test]
fn commands_are_numbered_from_one() {
    let r = ring_with(3);
    assert_eq!(r.sequence(), 3);
    assert_eq!(r.command(1), "cmd 1");
    assert_eq!(r.command(3), "cmd 3");
}

/// Everything after the client's acknowledge is resent, in order and
/// numbered; nothing when it has acknowledged everything.
#[test]
fn the_commands_past_the_acknowledge_are_pending() {
    let r = ring_with(5);
    assert_eq!(
        r.pending(3),
        vec![(4, "cmd 4".to_string()), (5, "cmd 5".to_string())]
    );
    assert!(r.pending(5).is_empty());
    assert_eq!(r.pending(0).len(), 5);
}

/// The ring holds the last 64: after 100 commands, a client acknowledged at
/// 36 gets 37 to 100 back, each the one written under that number.
#[test]
fn a_full_ring_still_reads_back_what_was_written() {
    let r = ring_with(100);
    let p = r.pending(36);
    assert_eq!(p.len(), 64);
    for (i, (seq, text)) in p.iter().enumerate() {
        assert_eq!(*seq, 37 + i as i32);
        assert_eq!(*text, format!("cmd {seq}"));
    }
}

/// Exactly a ring's worth of unacknowledged commands is not yet fatal; one
/// more would overwrite a command the client has not seen.
#[test]
fn a_whole_ring_outstanding_is_full() {
    let r = ring_with(64);
    assert!(r.full_for(0));
    assert!(!r.full_for(1));
    let r = ring_with(63);
    assert!(!r.full_for(0));
}

#[test]
fn a_write_is_the_next_pending_command() {
    let mut r = ring_with(10);
    let before = r.pending(8);
    r.write("w \"EXE_LOSTRELIABLECOMMANDS\"".to_string());
    let mut expected = before;
    expected.push((11, "w \"EXE_LOSTRELIABLECOMMANDS\"".to_string()));
    assert_eq!(r.pending(8), expected);
}
