//! The map load's classname tables: the `spawns` table, the classnames
//! whose spawn function frees the entity again, the placed-weapon
//! classnames and the weapons they place, and the per-block decisions
//! `G_CallSpawn` makes from a block's keys.

use vstd::prelude::*;
use vstd::string::*;
use crate::configstrings::{
    lemma_first_weapon_from_bounds, lemma_weapon_position, weapon_at, weapon_index_of, weapon_position,
    NUM_WEAPONS,
};
use crate::text::{has_prefix, starts_with, str_eq};

verus! {

/// How many classnames the `spawns` table carries.
pub const SPAWN_CLASSNAME_COUNT: usize = 27;

/// How many `spawns` classnames have a spawn function that only frees.
pub const SPAWN_FREE_COUNT: usize = 5;

/// How many weapon files carry a `radiantName`.
pub const RADIANT_NAME_COUNT: usize = 23;

/// The `spawns` table: a classname here gets an engine spawn function; one
/// that is not still becomes a live, script-visible entity.
pub open spec fn spawn_classname_at(i: int) -> &'static str {
    if i == 0 {
        "info_null"
    } else if i == 1 {
        "info_notnull"
    } else if i == 2 {
        "func_door"
    } else if i == 3 {
        "func_static"
    } else if i == 4 {
        "func_rotating"
    } else if i == 5 {
        "func_bobbing"
    } else if i == 6 {
        "func_pendulum"
    } else if i == 7 {
        "func_group"
    } else if i == 8 {
        "func_door_rotating"
    } else if i == 9 {
        "trigger_multiple"
    } else if i == 10 {
        "trigger_hurt"
    } else if i == 11 {
        "trigger_once"
    } else if i == 12 {
        "target_location"
    } else if i == 13 {
        "mp_target_location"
    } else if i == 14 {
        "light"
    } else if i == 15 {
        "misc_teleporter_dest"
    } else if i == 16 {
        "misc_model"
    } else if i == 17 {
        "misc_mg42"
    } else if i == 18 {
        "misc_turret"
    } else if i == 19 {
        "misc_spawner"
    } else if i == 20 {
        "corona"
    } else if i == 21 {
        "trigger_use"
    } else if i == 22 {
        "trigger_damage"
    } else if i == 23 {
        "trigger_lookat"
    } else if i == 24 {
        "script_brushmodel"
    } else if i == 25 {
        "script_model"
    } else {
        "script_origin"
    }
}

/// The five `spawns` classnames whose spawn function is nothing but
/// `G_FreeEntity(self)`, so the block leaves no live entity behind.
pub open spec fn spawn_free_at(i: int) -> &'static str {
    if i == 0 {
        "info_null"
    } else if i == 1 {
        "func_group"
    } else if i == 2 {
        "light"
    } else if i == 3 {
        "misc_model"
    } else {
        "corona"
    }
}

/// A placed weapon's classname (its weapon file's `radiantName`) and the
/// weapon it places. Three names lose an underscore of the weapon's own
/// name and one is no spelling of it at all, which is why this is a table
/// and not a prefix-and-suffix rule.
pub open spec fn radiant_at(i: int) -> (&'static str, &'static str) {
    if i == 0 {
        ("mpweapon_bar", "bar_mp")
    } else if i == 1 {
        ("mpweapon_bren", "bren_mp")
    } else if i == 2 {
        ("mpweapon_colt", "colt_mp")
    } else if i == 3 {
        ("mpweapon_enfield", "enfield_mp")
    } else if i == 4 {
        ("mpweapon_fg42", "fg42_mp")
    } else if i == 5 {
        ("mpweapon_fraggrenade", "fraggrenade_mp")
    } else if i == 6 {
        ("mpweapon_kar98k", "kar98k_mp")
    } else if i == 7 {
        ("mpweapon_kar98k_scoped", "kar98k_sniper_mp")
    } else if i == 8 {
        ("mpweapon_luger", "luger_mp")
    } else if i == 9 {
        ("mpweapon_m1carbine", "m1carbine_mp")
    } else if i == 10 {
        ("mpweapon_m1garand", "m1garand_mp")
    } else if i == 11 {
        ("mpweapon_mk1britishfrag", "mk1britishfrag_mp")
    } else if i == 12 {
        ("mpweapon_mosinnagant", "mosin_nagant_mp")
    } else if i == 13 {
        ("mpweapon_mosinnagantsniper", "mosin_nagant_sniper_mp")
    } else if i == 14 {
        ("mpweapon_mp40", "mp40_mp")
    } else if i == 15 {
        ("mpweapon_mp44", "mp44_mp")
    } else if i == 16 {
        ("mpweapon_panzerfaust", "panzerfaust_mp")
    } else if i == 17 {
        ("mpweapon_ppsh", "ppsh_mp")
    } else if i == 18 {
        ("mpweapon_russiangrenade", "rgd-33russianfrag_mp")
    } else if i == 19 {
        ("mpweapon_springfield", "springfield_mp")
    } else if i == 20 {
        ("mpweapon_sten", "sten_mp")
    } else if i == 21 {
        ("mpweapon_stielhandgranate", "stielhandgranate_mp")
    } else {
        ("mpweapon_thompson", "thompson_mp")
    }
}

fn spawn_classname(i: usize) -> (r: &'static str)
    requires
        i < 27,
    ensures
        r == spawn_classname_at(i as int),
{
    match i {
        0 => "info_null",
        1 => "info_notnull",
        2 => "func_door",
        3 => "func_static",
        4 => "func_rotating",
        5 => "func_bobbing",
        6 => "func_pendulum",
        7 => "func_group",
        8 => "func_door_rotating",
        9 => "trigger_multiple",
        10 => "trigger_hurt",
        11 => "trigger_once",
        12 => "target_location",
        13 => "mp_target_location",
        14 => "light",
        15 => "misc_teleporter_dest",
        16 => "misc_model",
        17 => "misc_mg42",
        18 => "misc_turret",
        19 => "misc_spawner",
        20 => "corona",
        21 => "trigger_use",
        22 => "trigger_damage",
        23 => "trigger_lookat",
        24 => "script_brushmodel",
        25 => "script_model",
        _ => "script_origin",
    }
}

fn spawn_free(i: usize) -> (r: &'static str)
    requires
        i < 5,
    ensures
        r == spawn_free_at(i as int),
{
    match i {
        0 => "info_null",
        1 => "func_group",
        2 => "light",
        3 => "misc_model",
        _ => "corona",
    }
}

fn radiant_entry(i: usize) -> (r: (&'static str, &'static str))
    requires
        i < 23,
    ensures
        r == radiant_at(i as int),
{
    match i {
        0 => ("mpweapon_bar", "bar_mp"),
        1 => ("mpweapon_bren", "bren_mp"),
        2 => ("mpweapon_colt", "colt_mp"),
        3 => ("mpweapon_enfield", "enfield_mp"),
        4 => ("mpweapon_fg42", "fg42_mp"),
        5 => ("mpweapon_fraggrenade", "fraggrenade_mp"),
        6 => ("mpweapon_kar98k", "kar98k_mp"),
        7 => ("mpweapon_kar98k_scoped", "kar98k_sniper_mp"),
        8 => ("mpweapon_luger", "luger_mp"),
        9 => ("mpweapon_m1carbine", "m1carbine_mp"),
        10 => ("mpweapon_m1garand", "m1garand_mp"),
        11 => ("mpweapon_mk1britishfrag", "mk1britishfrag_mp"),
        12 => ("mpweapon_mosinnagant", "mosin_nagant_mp"),
        13 => ("mpweapon_mosinnagantsniper", "mosin_nagant_sniper_mp"),
        14 => ("mpweapon_mp40", "mp40_mp"),
        15 => ("mpweapon_mp44", "mp44_mp"),
        16 => ("mpweapon_panzerfaust", "panzerfaust_mp"),
        17 => ("mpweapon_ppsh", "ppsh_mp"),
        18 => ("mpweapon_russiangrenade", "rgd-33russianfrag_mp"),
        19 => ("mpweapon_springfield", "springfield_mp"),
        20 => ("mpweapon_sten", "sten_mp"),
        21 => ("mpweapon_stielhandgranate", "stielhandgranate_mp"),
        _ => ("mpweapon_thompson", "thompson_mp"),
    }
}

/// The `spawns` table as a list.
pub open spec fn spawn_classname_list() -> Seq<&'static str> {
    Seq::new(SPAWN_CLASSNAME_COUNT as nat, |i: int| spawn_classname_at(i))
}

/// The freeing classnames as a list.
pub open spec fn spawn_free_list() -> Seq<&'static str> {
    Seq::new(SPAWN_FREE_COUNT as nat, |i: int| spawn_free_at(i))
}

/// The `spawns` table, in its dumped order.
pub fn spawn_classnames() -> (r: Vec<&'static str>)
    ensures
        r@ == spawn_classname_list(),
{
    let mut r: Vec<&'static str> = Vec::new();
    let mut i: usize = 0;
    while i < SPAWN_CLASSNAME_COUNT
        invariant
            i <= SPAWN_CLASSNAME_COUNT,
            r@ == spawn_classname_list().take(i as int),
        decreases SPAWN_CLASSNAME_COUNT - i,
    {
        r.push(spawn_classname(i));
        assert(r@ =~= spawn_classname_list().take(i + 1));
        i = i + 1;
    }
    assert(r@ =~= spawn_classname_list());
    r
}

/// The classnames whose spawn function frees the entity it was handed.
pub fn spawn_frees() -> (r: Vec<&'static str>)
    ensures
        r@ == spawn_free_list(),
{
    let mut r: Vec<&'static str> = Vec::new();
    let mut i: usize = 0;
    while i < SPAWN_FREE_COUNT
        invariant
            i <= SPAWN_FREE_COUNT,
            r@ == spawn_free_list().take(i as int),
        decreases SPAWN_FREE_COUNT - i,
    {
        r.push(spawn_free(i));
        assert(r@ =~= spawn_free_list().take(i + 1));
        i = i + 1;
    }
    assert(r@ =~= spawn_free_list());
    r
}

/// Whether a block of this classname is freed again by its spawn function.
pub open spec fn frees_entity(classname: Seq<char>) -> bool {
    exists|j: int| 0 <= j < SPAWN_FREE_COUNT && spawn_free_at(j)@ == classname
}

/// Whether a block of this classname is freed again by its spawn function,
/// so that it consumes no entity number. Case-sensitive.
pub fn is_freeing_classname(classname: &str) -> (r: bool)
    ensures
        r == frees_entity(classname@),
{
    let mut j: usize = 0;
    while j < SPAWN_FREE_COUNT
        invariant
            j <= SPAWN_FREE_COUNT,
            forall|k: int| 0 <= k < j ==> spawn_free_at(k)@ != classname@,
        decreases SPAWN_FREE_COUNT - j,
    {
        if str_eq(spawn_free(j), classname) {
            return true;
        }
        j = j + 1;
    }
    false
}

/// The first placed-weapon entry at or after `from` whose classname is
/// `classname`.
pub open spec fn first_radiant_from(classname: Seq<char>, from: int) -> Option<int>
    decreases RADIANT_NAME_COUNT - from,
{
    if from < 0 || from >= RADIANT_NAME_COUNT {
        None
    } else if radiant_at(from).0@ == classname {
        Some(from)
    } else {
        first_radiant_from(classname, from + 1)
    }
}

/// The weapon a placed-weapon classname places.
pub open spec fn radiant_weapon_of(classname: Seq<char>) -> Option<&'static str> {
    match first_radiant_from(classname, 0) {
        Some(i) => Some(radiant_at(i).1),
        None => None,
    }
}

proof fn lemma_first_radiant_from(classname: Seq<char>, from: int)
    requires
        0 <= from,
    ensures
        first_radiant_from(classname, from) matches Some(i) ==> from <= i < RADIANT_NAME_COUNT
            && radiant_at(i).0@ == classname,
        first_radiant_from(classname, from) is None ==> forall|j: int|
            from <= j < RADIANT_NAME_COUNT ==> radiant_at(j).0@ != classname,
    decreases RADIANT_NAME_COUNT - from,
{
    if from < RADIANT_NAME_COUNT {
        lemma_first_radiant_from(classname, from + 1);
    }
}

/// The weapon a `mpweapon_*` Radiant classname places, `None` for a
/// classname that places no weapon.
pub fn radiant_weapon(classname: &str) -> (r: Option<&'static str>)
    ensures
        r == radiant_weapon_of(classname@),
{
    let mut i: usize = 0;
    while i < RADIANT_NAME_COUNT
        invariant
            i <= RADIANT_NAME_COUNT,
            first_radiant_from(classname@, 0) == first_radiant_from(classname@, i as int),
        decreases RADIANT_NAME_COUNT - i,
    {
        let (radiant, weapon) = radiant_entry(i);
        if str_eq(radiant, classname) {
            return Some(weapon);
        }
        i = i + 1;
    }
    None
}

/// Whether a classname is in the `spawns` table.
pub open spec fn is_spawn_classname(classname: Seq<char>) -> bool {
    exists|k: int| 0 <= k < SPAWN_CLASSNAME_COUNT && spawn_classname_at(k)@ == classname
}

/// Every freeing classname is in the `spawns` table: the free is that
/// table's spawn function running.
pub proof fn law_freeing_classnames_are_spawn_classnames(classname: Seq<char>)
    requires
        frees_entity(classname),
    ensures
        is_spawn_classname(classname),
{
    let j = choose|j: int| 0 <= j < SPAWN_FREE_COUNT && spawn_free_at(j)@ == classname;
    let k = if j == 0 { 0 } else if j == 1 { 7 } else if j == 2 { 14 } else if j == 3 { 16 } else { 20 };
    assert(spawn_classname_at(k) == spawn_free_at(j));
}

/// Every weapon a placed-weapon classname places is a configstring 7
/// weapon, so its registration never misses.
pub proof fn law_placed_weapons_are_configstring_weapons()
    ensures
        forall|i: int|
            0 <= i < RADIANT_NAME_COUNT ==> #[trigger] weapon_index_of(radiant_at(i).1@) is Some,
{
    assert forall|i: int| 0 <= i < RADIANT_NAME_COUNT implies #[trigger] weapon_index_of(
        radiant_at(i).1@,
    ) is Some by {
        let k = if i == 0 { 0 } else if i == 1 { 2 } else if i == 2 { 3 } else if i == 3 { 4 } else if i == 4 { 5 } else if i == 5 { 7 } else if i == 6 { 8 } else if i == 7 { 9 } else if i == 8 { 10 } else if i == 9 { 11 } else if i == 10 { 12 } else if i == 11 { 16 } else if i == 12 { 17 } else if i == 13 { 18 } else if i == 14 { 19 } else if i == 15 { 20 } else if i == 16 { 22 } else if i == 17 { 23 } else if i == 18 { 26 } else if i == 19 { 27 } else if i == 20 { 28 } else if i == 21 { 29 } else { 30 };
        assert(weapon_at(k) == radiant_at(i).1);
        lemma_first_weapon_from_bounds(radiant_at(i).1@, 0);
    }
}


/// The weapons of configstring 7 that no classname places: the five
/// alt-fire modes, the three mounted MG42 stances and the anti-tank rifle.
pub open spec fn never_placed(k: int) -> bool {
    k == 1 || k == 6 || k == 13 || k == 14 || k == 15 || k == 21 || k == 24 || k == 25 || k == 31
}

/// The configstring 7 position of the weapon entry `i` of the table places.
pub open spec fn placed_position(i: int) -> int {
    if i == 0 {
        0
    } else     if i == 1 {
        2
    } else     if i == 2 {
        3
    } else     if i == 3 {
        4
    } else     if i == 4 {
        5
    } else     if i == 5 {
        7
    } else     if i == 6 {
        8
    } else     if i == 7 {
        9
    } else     if i == 8 {
        10
    } else     if i == 9 {
        11
    } else     if i == 10 {
        12
    } else     if i == 11 {
        16
    } else     if i == 12 {
        17
    } else     if i == 13 {
        18
    } else     if i == 14 {
        19
    } else     if i == 15 {
        20
    } else     if i == 16 {
        22
    } else     if i == 17 {
        23
    } else     if i == 18 {
        26
    } else     if i == 19 {
        27
    } else     if i == 20 {
        28
    } else     if i == 21 {
        29
    } else {
        30
    }
}

/// The entry of the placed-weapon table spelled `s`, told apart by its
/// length and two of its characters; -1 for none of them.
pub open spec fn classname_position(s: Seq<char>) -> int {
    if s.len() == 12 && s[9] == 'b' {
        0
    } else if s.len() == 13 && s[9] == 'b' && s[12] == 'n' {
        1
    } else if s.len() == 13 && s[9] == 'c' && s[12] == 't' {
        2
    } else if s.len() == 16 && s[9] == 'e' && s[12] == 'i' {
        3
    } else if s.len() == 13 && s[9] == 'f' && s[12] == '2' {
        4
    } else if s.len() == 20 && s[9] == 'f' && s[12] == 'g' {
        5
    } else if s.len() == 15 && s[9] == 'k' && s[12] == '9' {
        6
    } else if s.len() == 22 && s[9] == 'k' && s[12] == '9' {
        7
    } else if s.len() == 14 && s[9] == 'l' && s[12] == 'e' {
        8
    } else if s.len() == 18 && s[9] == 'm' && s[12] == 'a' {
        9
    } else if s.len() == 17 && s[9] == 'm' && s[12] == 'a' {
        10
    } else if s.len() == 23 && s[9] == 'm' && s[12] == 'b' {
        11
    } else if s.len() == 20 && s[9] == 'm' && s[12] == 'i' {
        12
    } else if s.len() == 26 && s[9] == 'm' && s[12] == 'i' {
        13
    } else if s.len() == 13 && s[9] == 'm' && s[12] == '0' {
        14
    } else if s.len() == 13 && s[9] == 'm' && s[12] == '4' {
        15
    } else if s.len() == 20 && s[9] == 'p' && s[12] == 'z' {
        16
    } else if s.len() == 13 && s[9] == 'p' && s[12] == 'h' {
        17
    } else if s.len() == 23 && s[9] == 'r' && s[12] == 's' {
        18
    } else if s.len() == 20 && s[9] == 's' && s[12] == 'i' {
        19
    } else if s.len() == 13 && s[9] == 's' && s[12] == 'n' {
        20
    } else if s.len() == 25 && s[9] == 's' && s[12] == 'e' {
        21
    } else if s.len() == 17 && s[9] == 't' && s[12] == 'm' {
        22
    } else {
        -1
    }
}

/// Each classname of the placed-weapon table is told apart from the others.
proof fn lemma_classname_position()
    ensures
        forall|i: int|
            0 <= i < RADIANT_NAME_COUNT ==> classname_position(#[trigger] radiant_at(i).0@) == i,
{
    reveal_strlit("mpweapon_bar");
    reveal_strlit("mpweapon_bren");
    reveal_strlit("mpweapon_colt");
    reveal_strlit("mpweapon_enfield");
    reveal_strlit("mpweapon_fg42");
    reveal_strlit("mpweapon_fraggrenade");
    reveal_strlit("mpweapon_kar98k");
    reveal_strlit("mpweapon_kar98k_scoped");
    reveal_strlit("mpweapon_luger");
    reveal_strlit("mpweapon_m1carbine");
    reveal_strlit("mpweapon_m1garand");
    reveal_strlit("mpweapon_mk1britishfrag");
    reveal_strlit("mpweapon_mosinnagant");
    reveal_strlit("mpweapon_mosinnagantsniper");
    reveal_strlit("mpweapon_mp40");
    reveal_strlit("mpweapon_mp44");
    reveal_strlit("mpweapon_panzerfaust");
    reveal_strlit("mpweapon_ppsh");
    reveal_strlit("mpweapon_russiangrenade");
    reveal_strlit("mpweapon_springfield");
    reveal_strlit("mpweapon_sten");
    reveal_strlit("mpweapon_stielhandgranate");
    reveal_strlit("mpweapon_thompson");
}

proof fn lemma_radiant_texts()
    ensures
        forall|i: int|
            0 <= i < RADIANT_NAME_COUNT ==> (#[trigger] radiant_at(i)).0@.len() > 9
                && radiant_at(i).0@.subrange(0, 9) == "mpweapon_"@,
        forall|i: int|
            0 <= i < RADIANT_NAME_COUNT ==> (#[trigger] radiant_at(i)).1 == weapon_at(
                placed_position(i),
            ) && 0 <= placed_position(i) < NUM_WEAPONS && !never_placed(placed_position(i)),
{
    reveal_strlit("mpweapon_");
    reveal_strlit("mpweapon_bar");
    reveal_strlit("mpweapon_bren");
    reveal_strlit("mpweapon_colt");
    reveal_strlit("mpweapon_enfield");
    reveal_strlit("mpweapon_fg42");
    reveal_strlit("mpweapon_fraggrenade");
    reveal_strlit("mpweapon_kar98k");
    reveal_strlit("mpweapon_kar98k_scoped");
    reveal_strlit("mpweapon_luger");
    reveal_strlit("mpweapon_m1carbine");
    reveal_strlit("mpweapon_m1garand");
    reveal_strlit("mpweapon_mk1britishfrag");
    reveal_strlit("mpweapon_mosinnagant");
    reveal_strlit("mpweapon_mosinnagantsniper");
    reveal_strlit("mpweapon_mp40");
    reveal_strlit("mpweapon_mp44");
    reveal_strlit("mpweapon_panzerfaust");
    reveal_strlit("mpweapon_ppsh");
    reveal_strlit("mpweapon_russiangrenade");
    reveal_strlit("mpweapon_springfield");
    reveal_strlit("mpweapon_sten");
    reveal_strlit("mpweapon_stielhandgranate");
    reveal_strlit("mpweapon_thompson");
}

/// Every classname that places a weapon is `mpweapon_` followed by a name.
pub proof fn law_placed_weapon_classnames_are_mpweapon_names(classname: Seq<char>)
    requires
        radiant_weapon_of(classname) is Some,
    ensures
        classname.len() > 9,
        classname.subrange(0, 9) == "mpweapon_"@,
{
    lemma_first_radiant_from(classname, 0);
    lemma_radiant_texts();
    let i = first_radiant_from(classname, 0)->0;
    assert(radiant_at(i).0@ == classname);
}

/// The classnames that place a weapon are exactly the table's, and no two
/// of the table's are the same classname: twenty-three in all.
pub proof fn law_exactly_the_table_classnames_place_a_weapon(classname: Seq<char>)
    ensures
        radiant_weapon_of(classname) is Some <==> exists|i: int|
            0 <= i < RADIANT_NAME_COUNT && (#[trigger] radiant_at(i)).0@ == classname,
        forall|i: int, j: int|
            0 <= i < RADIANT_NAME_COUNT && 0 <= j < RADIANT_NAME_COUNT && i != j ==> (
            #[trigger] radiant_at(i)).0@ != (#[trigger] radiant_at(j)).0@,
{
    lemma_first_radiant_from(classname, 0);
    lemma_classname_position();
    if radiant_weapon_of(classname) is Some {
        let i = first_radiant_from(classname, 0)->0;
        assert(radiant_at(i).0@ == classname);
    }
    assert forall|i: int, j: int|
        0 <= i < RADIANT_NAME_COUNT && 0 <= j < RADIANT_NAME_COUNT && i != j implies (
        #[trigger] radiant_at(i)).0@ != (#[trigger] radiant_at(j)).0@ by {
        assert(classname_position(radiant_at(i).0@) == i);
        assert(classname_position(radiant_at(j).0@) == j);
    }
}

/// Two classnames that place the same weapon are the same classname.
pub proof fn law_distinct_classnames_place_distinct_weapons(c1: Seq<char>, c2: Seq<char>)
    requires
        radiant_weapon_of(c1) is Some,
        radiant_weapon_of(c1) == radiant_weapon_of(c2),
    ensures
        c1 == c2,
{
    lemma_first_radiant_from(c1, 0);
    lemma_first_radiant_from(c2, 0);
    lemma_radiant_texts();
    lemma_weapon_position();
    let i = first_radiant_from(c1, 0)->0;
    let j = first_radiant_from(c2, 0)->0;
    assert(radiant_at(i).1 == radiant_at(j).1);
    assert(weapon_position(weapon_at(placed_position(i))@) == placed_position(i));
    assert(weapon_position(weapon_at(placed_position(j))@) == placed_position(j));
    assert(radiant_at(i).0@ == c1);
    assert(radiant_at(j).0@ == c2);
}

/// The weapons a classname can place are the weapons of configstring 7
/// but the nine `never_placed` ones.
pub proof fn law_placed_weapons_are_the_list_less_nine(k: int)
    requires
        0 <= k < NUM_WEAPONS,
    ensures
        (exists|i: int|
            0 <= i < RADIANT_NAME_COUNT && (#[trigger] radiant_at(i)).1@ == weapon_at(k)@)
            <==> !never_placed(k),
{
    lemma_radiant_texts();
    lemma_weapon_position();
    if !never_placed(k) {
        let i = if k == 0 { 0 } else if k == 2 { 1 } else if k == 3 { 2 } else if k == 4 { 3 } else if k == 5 { 4 } else if k == 7 { 5 } else if k == 8 { 6 } else if k == 9 { 7 } else if k == 10 { 8 } else if k == 11 { 9 } else if k == 12 { 10 } else if k == 16 { 11 } else if k == 17 { 12 } else if k == 18 { 13 } else if k == 19 { 14 } else if k == 20 { 15 } else if k == 22 { 16 } else if k == 23 { 17 } else if k == 26 { 18 } else if k == 27 { 19 } else if k == 28 { 20 } else if k == 29 { 21 } else { 22 };
        assert(radiant_at(i).1 == weapon_at(k));
    } else {
        assert forall|i: int| 0 <= i < RADIANT_NAME_COUNT implies (#[trigger] radiant_at(i)).1@
            != weapon_at(k)@ by {
            let p = placed_position(i);
            assert(weapon_position(weapon_at(p)@) == p);
            assert(weapon_position(weapon_at(k)@) == k);
        }
    }
}

/// `SP_worldspawn`'s configstring 11: the `northyaw` key verbatim, or the
/// literal `"0"` when the key is absent or empty. No numeric parse, so a
/// present key reproduces its text byte for byte.
pub open spec fn northyaw_of(northyaw: Option<Seq<char>>) -> Seq<char> {
    match northyaw {
        Some(v) => if v.len() > 0 {
            v
        } else {
            "0"@
        },
        None => "0"@,
    }
}

/// Configstring 11 from the worldspawn block's `northyaw` key.
pub fn worldspawn_northyaw(northyaw: Option<&str>) -> (r: String)
    ensures
        r@ == northyaw_of(
            match northyaw {
                Some(v) => Some(v@),
                None => None,
            },
        ),
{
    match northyaw {
        Some(v) if v.unicode_len() > 0 => String::from_str(v),
        _ => String::from_str("0"),
    }
}

/// `SP_trigger_hurt`'s sound alias: the block's own `sound` key, or the
/// compiled-in `"world_hurt_me"` when the key is absent. A present but
/// empty key is kept as it is.
pub open spec fn hurt_sound_of(sound: Option<Seq<char>>) -> Seq<char> {
    match sound {
        Some(v) => v,
        None => "world_hurt_me"@,
    }
}

/// The sound alias a `trigger_hurt` block registers.
pub fn trigger_hurt_sound(sound: Option<&str>) -> (r: String)
    ensures
        r@ == hurt_sound_of(
            match sound {
                Some(v) => Some(v@),
                None => None,
            },
        ),
{
    match sound {
        Some(v) => String::from_str(v),
        None => String::from_str("world_hurt_me"),
    }
}

/// What a spawned entity registers with `RegisterItem`, and whether it came
/// through the turret path, which alone also registers the weapon file's
/// fire sounds and settles the barrel instead of dropping to the floor.
pub struct SpawnItem {
    pub name: String,
    pub turret: bool,
}

/// The item a block registers: a placed weapon's classname names its weapon
/// through the Radiant table, a `misc_mg42`/`misc_turret` names its item in
/// its `weaponinfo` key, and nothing else registers one.
pub open spec fn spawn_item_of(classname: Seq<char>, weaponinfo: Option<Seq<char>>) -> Option<
    (Seq<char>, bool),
> {
    if has_prefix(classname, "mpweapon_"@) {
        match radiant_weapon_of(classname) {
            Some(w) => Some((w@, false)),
            None => None,
        }
    } else if classname == "misc_mg42"@ || classname == "misc_turret"@ {
        match weaponinfo {
            Some(w) => Some((w, true)),
            None => None,
        }
    } else {
        None
    }
}

/// The spec view of an optional string argument.
pub open spec fn opt_view(s: Option<&str>) -> Option<Seq<char>> {
    match s {
        Some(v) => Some(v@),
        None => None,
    }
}

/// The spec view of an optional registration.
pub open spec fn item_view(item: Option<SpawnItem>) -> Option<(Seq<char>, bool)> {
    match item {
        Some(it) => Some((it.name@, it.turret)),
        None => None,
    }
}

/// `G_CallSpawn`'s item cases: what a block of this classname registers,
/// given its `weaponinfo` key. A turret with no `weaponinfo` registers
/// nothing and still spawns.
pub fn spawn_item(classname: &str, weaponinfo: Option<&str>) -> (r: Option<SpawnItem>)
    ensures
        item_view(r) == spawn_item_of(classname@, opt_view(weaponinfo)),
{
    if starts_with(classname, "mpweapon_") {
        match radiant_weapon(classname) {
            Some(w) => Some(SpawnItem { name: String::from_str(w), turret: false }),
            None => None,
        }
    } else if str_eq(classname, "misc_mg42") || str_eq(classname, "misc_turret") {
        match weaponinfo {
            Some(w) => Some(SpawnItem { name: String::from_str(w), turret: true }),
            None => None,
        }
    } else {
        None
    }
}

/// Everything `G_SpawnEntitiesFromString` decides about one entity block
/// from its keys alone, before the entity's fields are parsed into it.
pub struct BlockPlan {
    /// The sound alias a `trigger_hurt` registers.
    pub sound_alias: Option<String>,
    /// The item the block registers.
    pub item: Option<SpawnItem>,
    /// Whether the spawn function frees the entity again, so the block
    /// consumes no entity number.
    pub frees: bool,
}

/// The decisions for one block with classname `classname` and the values
/// of its `sound` and `weaponinfo` keys.
pub fn plan_block(classname: &str, sound: Option<&str>, weaponinfo: Option<&str>) -> (r:
    BlockPlan)
    ensures
        match r.sound_alias {
            Some(a) => classname@ == "trigger_hurt"@ && a@ == hurt_sound_of(opt_view(sound)),
            None => classname@ != "trigger_hurt"@,
        },
        item_view(r.item) == spawn_item_of(classname@, opt_view(weaponinfo)),
        r.frees == frees_entity(classname@),
{
    let sound_alias = if str_eq(classname, "trigger_hurt") {
        Some(trigger_hurt_sound(sound))
    } else {
        None
    };
    BlockPlan {
        sound_alias,
        item: spawn_item(classname, weaponinfo),
        frees: is_freeing_classname(classname),
    }
}

/// Why an entity lump is refused before any entity spawns.
#[derive(Clone, Copy, Debug, PartialEq, Eq, Structural)]
pub enum LumpError {
    /// The lump holds no block at all.
    Empty,
    /// The first block's classname is not `worldspawn`.
    NoWorldspawn,
}

/// `G_SpawnEntitiesFromString`'s check of the lump's first block: there
/// must be one, and its classname must be exactly `worldspawn`.
pub open spec fn lump_head_of(first: Option<Option<Seq<char>>>) -> Result<(), LumpError> {
    match first {
        None => Err(LumpError::Empty),
        Some(classname) => if classname == Some("worldspawn"@) {
            Ok(())
        } else {
            Err(LumpError::NoWorldspawn)
        },
    }
}

/// The check on the first block, given its classname (`None` inside when
/// the block has none) or `None` for an empty lump.
pub fn check_lump_head(first: Option<Option<&str>>) -> (r: Result<(), LumpError>)
    ensures
        r == lump_head_of(
            match first {
                Some(c) => Some(opt_view(c)),
                None => None,
            },
        ),
{
    match first {
        None => Err(LumpError::Empty),
        Some(Some(c)) => if str_eq(c, "worldspawn") {
            Ok(())
        } else {
            Err(LumpError::NoWorldspawn)
        },
        Some(None) => Err(LumpError::NoWorldspawn),
    }
}


/// Both turret classnames place a turret of the weapon their `weaponinfo`
/// key names, and without the key place nothing; nothing else places a
/// turret.
pub proof fn law_both_turret_classnames_place_a_turret(w: Seq<char>, c: Seq<char>, info: Option<Seq<char>>)
    ensures
        spawn_item_of(c, info) matches Some(item) ==> (item.1 <==> (c == "misc_mg42"@ || c
            == "misc_turret"@)),
        spawn_item_of("misc_mg42"@, Some(w)) == Some((w, true)),
        spawn_item_of("misc_turret"@, Some(w)) == Some((w, true)),
        spawn_item_of("misc_mg42"@, None) is None,
        spawn_item_of("misc_turret"@, None) is None,
{
    reveal_strlit("misc_mg42");
    reveal_strlit("misc_turret");
    reveal_strlit("mpweapon_");
    assert(!has_prefix("misc_mg42"@, "mpweapon_"@)) by {
        assert("misc_mg42"@.subrange(0, 9)[1] != "mpweapon_"@[1]);
    }
    assert(!has_prefix("misc_turret"@, "mpweapon_"@)) by {
        assert("misc_turret"@.subrange(0, 9)[1] != "mpweapon_"@[1]);
    }
}

} // verus!