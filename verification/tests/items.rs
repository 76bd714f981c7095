use vcod_server::configstrings::{weapon_index, weapon_name};
use vcod_server::items::alt_weapon_index;
use vcod_server::items::Items;

/// The packing from `SaveRegisteredItems`: four items per lowercase hex
/// character, bit `i & 3`, partial nibble flushed. `bg_numItems` is 70, so
/// the string is 18 characters.
#[test]
fn the_bitstring_is_eighteen_characters_and_packs_four_items_a_nibble() {
    let items = Items::new();
    assert_eq!(items.bitstring().len(), 18);
}

/// A weapon's item index is its 1-based index into configstring 7: `bar_mp`
/// is index 1 and `thompson_semi_mp` is 32, so they land in the first and
/// eighth nibble respectively. `bar_mp` also carries its alt mode
/// `bar_slow_mp` (index 2) along, and index 0 is already set, so nibble 0
/// covers bits 0-2: `0b0111` = `7`.
#[test]
fn a_weapon_registers_at_its_one_based_configstring_seven_index() {
    let mut items = Items::new();
    items.register("bar_mp");
    assert!(items.bitstring().starts_with('7'));
    let mut items = Items::new();
    items.register("thompson_semi_mp");
    assert_eq!(items.bitstring().chars().nth(8), Some('1'));
}

/// An unknown item name registers nothing, as retail's `BG_FindItem` miss
/// does.
#[test]
fn an_unknown_item_name_registers_nothing() {
    let mut items = Items::new();
    let before = Items::new().bitstring();
    items.register("no_such_item_mp");
    assert_eq!(items.bitstring(), before);
}

fn assert_subset(ours: &str, retail: &str) {
    for (o, r) in ours.chars().zip(retail.chars()) {
        let o = o.to_digit(16).unwrap();
        let r = r.to_digit(16).unwrap();
        assert_eq!(o & r, o, "ours sets a bit retail does not: {ours} vs {retail}");
    }
}

/// `dm` registers `item_health` and the team script the Russian and German
/// branches. Every bit this sets must also be set in `mp_pavlov`'s retail
/// capture; the extras there are the map's placed weapons.
#[test]
fn the_script_registrations_are_a_subset_of_retails_mp_pavlov_bits() {
    let mut items = Items::new();
    for name in [
        "item_health",
        "rgd-33russianfrag_mp",
        "luger_mp",
        "mosin_nagant_mp",
        "ppsh_mp",
        "mosin_nagant_sniper_mp",
        "stielhandgranate_mp",
        "kar98k_mp",
        "mp40_mp",
        "mp44_mp",
        "kar98k_sniper_mp",
    ] {
        items.register(name);
    }
    assert_subset(&items.bitstring(), "1ce0cfb40000000001");
}

/// The same subset check against `mp_carentan`, whose American branch
/// exercises a disjoint set of weapon indices.
#[test]
fn the_script_registrations_are_a_subset_of_retails_mp_carentan_bits() {
    let mut items = Items::new();
    for name in [
        "item_health",
        "bar_mp",
        "colt_mp",
        "fraggrenade_mp",
        "m1carbine_mp",
        "m1garand_mp",
        "springfield_mp",
        "thompson_mp",
        "luger_mp",
        "mp40_mp",
        "mp44_mp",
        "kar98k_mp",
        "kar98k_sniper_mp",
        "stielhandgranate_mp",
    ] {
        items.register(name);
    }
    assert_subset(&items.bitstring(), "7df31f0d1000000001");
}

/// With the map's placed weapons added (`fg42_mp`, `panzerfaust_mp`) the
/// pavlov registrations reproduce the retail capture exactly.
#[test]
fn pavlov_with_its_placed_weapons_is_the_retail_bitstring() {
    let mut items = Items::new();
    for name in [
        "item_health",
        "rgd-33russianfrag_mp",
        "luger_mp",
        "mosin_nagant_mp",
        "ppsh_mp",
        "mosin_nagant_sniper_mp",
        "stielhandgranate_mp",
        "kar98k_mp",
        "mp40_mp",
        "mp44_mp",
        "kar98k_sniper_mp",
        "fg42_mp",
        "panzerfaust_mp",
    ] {
        items.register(name);
    }
    assert_eq!(items.bitstring(), "1ce0cfb40000000001");
}

/// Carentan's placed weapons and its mounted mg42s complete its capture.
#[test]
fn carentan_with_its_placed_weapons_is_the_retail_bitstring() {
    let mut items = Items::new();
    for name in [
        "item_health",
        "bar_mp",
        "colt_mp",
        "fraggrenade_mp",
        "m1carbine_mp",
        "m1garand_mp",
        "springfield_mp",
        "thompson_mp",
        "luger_mp",
        "mp40_mp",
        "mp44_mp",
        "kar98k_mp",
        "kar98k_sniper_mp",
        "stielhandgranate_mp",
        "mg42_bipod_stand_mp",
        "fg42_mp",
        "panzerfaust_mp",
    ] {
        items.register(name);
    }
    assert_eq!(items.bitstring(), "7df31f0d1000000001");
}

#[test]
fn a_fresh_registry_sets_only_item_zero() {
    assert_eq!(Items::new().bitstring(), "100000000000000000");
}

#[test]
fn the_alt_fire_link_works_from_either_end() {
    let mut a = Items::new();
    a.register("fg42_semi_mp");
    let mut b = Items::new();
    b.register("fg42_mp");
    assert_eq!(a.bitstring(), b.bitstring());
    assert_eq!(a.bitstring().chars().nth(1), Some('c'));
}

#[test]
fn the_compiled_in_items_take_the_top_slots() {
    let mut items = Items::new();
    items.register("item_health_large");
    // item 69: nibble 17, bit 1.
    assert_eq!(items.bitstring(), "100000000000000002");
    let mut items = Items::new();
    items.register("item_ammo_stielhandgranate_open");
    // item 65: nibble 16, bit 1.
    assert_eq!(items.bitstring(), "100000000000000020");
}

#[test]
fn the_lookup_is_case_sensitive() {
    let mut items = Items::new();
    items.register("BAR_MP");
    assert_eq!(items.bitstring(), Items::new().bitstring());
}

#[test]
fn registering_twice_or_in_another_order_changes_nothing() {
    let mut a = Items::new();
    a.register("ppsh_mp");
    a.register("colt_mp");
    a.register("ppsh_mp");
    let mut b = Items::new();
    b.register("colt_mp");
    b.register("ppsh_mp");
    assert_eq!(a.bitstring(), b.bitstring());
}

#[test]
fn weapon_indices_follow_configstring_seven() {
    assert_eq!(weapon_index("bar_mp"), Some(1));
    assert_eq!(weapon_index("colt_mp"), Some(4));
    assert_eq!(weapon_index("fg42_mp"), Some(6));
    assert_eq!(weapon_index("fraggrenade_mp"), Some(8));
    assert_eq!(weapon_index("luger_mp"), Some(11));
    assert_eq!(weapon_index("m1carbine_mp"), Some(12));
    assert_eq!(weapon_index("mg42_bipod_stand_mp"), Some(16));
    assert_eq!(weapon_index("mosin_nagant_mp"), Some(18));
    assert_eq!(weapon_index("rgd-33russianfrag_mp"), Some(27));
    assert_eq!(weapon_index("thompson_semi_mp"), Some(32));
    assert_eq!(weapon_index("item_health"), None);
}

#[test]
fn exactly_five_pairs_of_weapons_link() {
    let linked: Vec<(usize, usize)> =
        (0..=40).filter_map(|i| alt_weapon_index(i).map(|j| (i, j))).collect();
    assert_eq!(
        linked,
        vec![(1, 2), (2, 1), (6, 7), (7, 6), (21, 22), (22, 21), (24, 25), (25, 24), (31, 32), (32, 31)]
    );
    for (i, j) in linked {
        let (lo, hi) = if i < j { (i, j) } else { (j, i) };
        let base = weapon_name(lo - 1).strip_suffix("_mp").unwrap();
        let alt = weapon_name(hi - 1);
        assert!(alt == format!("{base}_semi_mp") || alt == format!("{base}_slow_mp"), "{alt}");
    }
}
