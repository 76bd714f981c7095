use vcod_server::spectate::{
    wire_pm_type, EventRing, PmType, SpawnState, PM_DEAD, PM_INTERMISSION, PM_NORMAL,
    PM_SPECTATOR,
};

#[test]
fn a_cleared_ring_writes_zeros_at_sequence_zero() {
    let ring = EventRing::new();
    let w = ring.write();
    assert_eq!(w.len(), 9);
    assert_eq!(w[0], ("eventSequence", 0));
    assert!(w[1..].iter().all(|(_, v)| *v == 0));
    assert_eq!(w[1].0, "events[0]");
    assert_eq!(w[8].0, "eventParms[3]");
}

#[test]
fn an_event_goes_in_the_slot_the_sequence_names() {
    let mut ring = EventRing::new();
    ring.add(175, 3);
    ring.add(176, 4);
    assert_eq!(ring.seq, 2);
    assert_eq!(ring.events, [175, 176, 0, 0]);
    assert_eq!(ring.parms, [3, 4, 0, 0]);
    let w = ring.write();
    assert_eq!(w[0], ("eventSequence", 2));
    assert_eq!(w[3], ("events[1]", 176));
    assert_eq!(w[4], ("eventParms[1]", 4));
}

/// An event stays readable for the next three; the fourth after it takes
/// its slot.
#[test]
fn an_event_survives_three_more_and_not_four() {
    let mut ring = EventRing::new();
    ring.add(10, 100);
    ring.add(11, 0);
    ring.add(12, 0);
    ring.add(13, 0);
    assert_eq!(ring.events[0], 10);
    assert_eq!(ring.parms[0], 100);
    ring.add(14, 0);
    assert_eq!(ring.events[0], 14);
    assert_eq!(ring.seq, 5);
}

/// The sequence travels in eight bits.
#[test]
fn the_sequence_is_masked_to_a_byte_on_the_wire() {
    let mut ring = EventRing::new();
    ring.seq = 255;
    ring.add(1, 1);
    assert_eq!(ring.seq, 256);
    assert_eq!(ring.events[3], 1);
    assert_eq!(ring.write()[0], ("eventSequence", 0));
}

#[test]
fn clearing_the_ring_restarts_it() {
    let mut ring = EventRing::new();
    ring.add(5, 6);
    ring.clear();
    assert_eq!(ring, EventRing::new());
}

#[test]
fn a_dead_player_is_pm_dead_on_the_wire() {
    assert_eq!(wire_pm_type(PmType::Normal, false), PM_NORMAL);
    assert_eq!(wire_pm_type(PmType::Normal, true), PM_DEAD);
    assert_eq!(wire_pm_type(PmType::Spectator, true), PM_SPECTATOR);
    assert_eq!(wire_pm_type(PmType::Intermission, false), PM_INTERMISSION);
    assert_eq!(PM_INTERMISSION, 5);
}

/// A connecting client is a spectator, unlinked, with the teleport bit
/// clear; each spawn flips the bit, so the `eFlags` word alternates 24, 16.
#[test]
fn every_spawn_flips_the_teleport_bit() {
    let mut s = SpawnState::connect();
    assert_eq!(s.pm_type_on_wire(), PM_SPECTATOR);
    assert!(!s.linked());
    assert_eq!(s.eflags(), 16);
    s.become_player();
    assert_eq!(s.eflags(), 24);
    assert!(s.linked());
    assert_eq!(s.pm_type_on_wire(), PM_NORMAL);
    assert_eq!(s.spawn_count, 1);
    s.become_player();
    assert_eq!(s.eflags(), 16);
    assert_eq!(s.spawn_count, 2);
}

#[test]
fn a_spectator_or_intermission_spawn_copies_no_health() {
    let mut s = SpawnState::connect();
    s.health = 100;
    s.max_health = 100;
    s.become_player();
    assert_eq!((s.health, s.max_health), (100, 100));
    s.ring.add(7, 7);
    s.become_spectator();
    assert_eq!((s.health, s.max_health), (0, 0));
    assert_eq!(s.ring, EventRing::new());
    assert!(!s.linked());
    s.become_intermission();
    assert_eq!(s.pm_type_on_wire(), PM_INTERMISSION);
    assert!(!s.linked());
}

#[test]
fn a_dead_player_is_not_linked_until_it_spawns() {
    let mut s = SpawnState::connect();
    s.become_player();
    s.dead = true;
    assert!(!s.linked());
    assert_eq!(s.pm_type_on_wire(), PM_DEAD);
    s.become_player();
    assert!(s.linked());
}

#[test]
fn the_spawn_count_wraps_at_a_byte() {
    let mut s = SpawnState::connect();
    s.spawn_count = 255;
    s.become_spectator();
    assert_eq!(s.spawn_count, 0);
}
