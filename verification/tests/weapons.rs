use vcod_server::configstrings::weapon_index;
use vcod_server::weapons::{name_index, slot_index, PlayerWeapons, NUM_SLOTS};

/// The stock American loadout of a retail capture: `colt_mp` in slot 3,
/// `fraggrenade_mp` in slot 4, `m1carbine_mp` in slot 1 and in hand.
#[test]
fn the_wire_words_match_the_retail_capture() {
    let mut w = PlayerWeapons::default();
    w.give(weapon_index("colt_mp").unwrap(), 3);
    w.give(weapon_index("fraggrenade_mp").unwrap(), 4);
    w.give(weapon_index("m1carbine_mp").unwrap(), 1);
    w.current = weapon_index("m1carbine_mp").unwrap() as u8;

    assert_eq!(w.held as u32 as i32, 4368);
    assert_eq!(w.slot_words(), [67111936, 8]);
    assert_eq!(w.current, 12);
}

/// The russian branch of the same capture: `luger_mp` (11),
/// `rgd-33russianfrag_mp` (27) and `mosin_nagant_mp` (18).
#[test]
fn the_other_nationality_matches_too() {
    let mut w = PlayerWeapons::default();
    w.give(weapon_index("luger_mp").unwrap(), 3);
    w.give(weapon_index("rgd-33russianfrag_mp").unwrap(), 4);
    w.give(weapon_index("mosin_nagant_mp").unwrap(), 1);
    assert_eq!(w.held as u32 as i32, 134481920);
    assert_eq!(w.slot_words(), [184553984, 27]);
}

/// A weapon with no slot is still held: nothing but the slot byte depends
/// on the weapon file.
#[test]
fn a_weapon_with_no_slot_is_still_held() {
    let mut w = PlayerWeapons::default();
    w.give(weapon_index("colt_mp").unwrap(), 0);
    assert_eq!(w.held, 1 << 4);
    assert_eq!(w.slots, [0; NUM_SLOTS]);
}

#[test]
fn a_given_weapon_is_held_and_no_other() {
    let mut w = PlayerWeapons::default();
    w.give(12, 1);
    assert!(w.holds(12));
    assert!(!w.holds(11));
    assert!(!w.holds(13));
    assert!(!w.holds(64));
    assert_eq!(w.slots[1], 12);
}

#[test]
fn an_index_past_bit_63_is_not_recorded() {
    let mut w = PlayerWeapons::default();
    w.give(64, 2);
    assert_eq!(w.held, 0);
    assert_eq!(w.slots, [0; NUM_SLOTS]);
    w.give(63, 9);
    assert_eq!(w.held, 1 << 63);
    assert_eq!(w.slots, [0; NUM_SLOTS]);
}

#[test]
fn the_slot_names_index_the_slot_table() {
    assert_eq!(slot_index("primary"), Some(1));
    assert_eq!(slot_index("no_such_slot"), None);
}

/// The ammo/clip name table: names are folded to lowercase, an old name
/// gets its first index back, a new one is appended.
#[test]
fn ammo_names_share_an_index_whatever_their_case() {
    let mut table: Vec<String> = Vec::new();
    assert_eq!(name_index(&mut table, "BAR"), 0);
    assert_eq!(name_index(&mut table, "bar"), 0);
    assert_eq!(name_index(&mut table, "Colt"), 1);
    assert_eq!(name_index(&mut table, "BaR"), 0);
    assert_eq!(table, vec!["bar".to_string(), "colt".to_string()]);
}
