use vcod_server::configstrings::{changed_configstrings, weapon_index, weapon_name, NUM_WEAPONS};

fn table(v: &[&str]) -> Vec<String> {
    v.iter().map(|s| s.to_string()).collect()
}

/// Only the slots that changed since the last broadcast go out, in order;
/// a slot the sent table does not have yet counts as changed.
#[test]
fn only_the_changed_configstrings_are_broadcast() {
    let sent = table(&["a", "b", "c"]);
    assert!(changed_configstrings(&sent, &sent).is_empty());
    let now = table(&["a", "x", "c", "d"]);
    assert_eq!(changed_configstrings(&sent, &now), vec![1, 3]);
    let shorter = table(&["z"]);
    assert_eq!(changed_configstrings(&sent, &shorter), vec![0]);
    assert_eq!(changed_configstrings(&Vec::new(), &table(&["", "q"])), vec![0, 1]);
}

/// Configstring 7 is the weapon list in wire order; a weapon's index is
/// its 1-based position.
#[test]
fn the_weapon_list_round_trips_through_its_index() {
    for i in 0..NUM_WEAPONS {
        assert_eq!(weapon_index(weapon_name(i)), Some(i + 1));
    }
    assert_eq!(weapon_name(0), "bar_mp");
    assert_eq!(weapon_name(NUM_WEAPONS - 1), "thompson_semi_mp");
    assert_eq!(weapon_index("BAR_MP"), None);
}
