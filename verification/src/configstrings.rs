//! Configstring 7, the weapon list: every multiplayer weapon in the order
//! the wire indexes them. A weapon's index everywhere else (the item
//! registry, `ps.weapons`, an entity's `weapon`) is its 1-based position here.

use vstd::prelude::*;
use crate::text::str_eq;

verus! {

/// How many weapons configstring 7 lists.
pub const NUM_WEAPONS: usize = 32;

/// The weapon at 0-based position `i` of configstring 7.
pub open spec fn weapon_at(i: int) -> &'static str {
    if i == 0 {
        "bar_mp"
    } else if i == 1 {
        "bar_slow_mp"
    } else if i == 2 {
        "bren_mp"
    } else if i == 3 {
        "colt_mp"
    } else if i == 4 {
        "enfield_mp"
    } else if i == 5 {
        "fg42_mp"
    } else if i == 6 {
        "fg42_semi_mp"
    } else if i == 7 {
        "fraggrenade_mp"
    } else if i == 8 {
        "kar98k_mp"
    } else if i == 9 {
        "kar98k_sniper_mp"
    } else if i == 10 {
        "luger_mp"
    } else if i == 11 {
        "m1carbine_mp"
    } else if i == 12 {
        "m1garand_mp"
    } else if i == 13 {
        "mg42_bipod_duck_mp"
    } else if i == 14 {
        "mg42_bipod_prone_mp"
    } else if i == 15 {
        "mg42_bipod_stand_mp"
    } else if i == 16 {
        "mk1britishfrag_mp"
    } else if i == 17 {
        "mosin_nagant_mp"
    } else if i == 18 {
        "mosin_nagant_sniper_mp"
    } else if i == 19 {
        "mp40_mp"
    } else if i == 20 {
        "mp44_mp"
    } else if i == 21 {
        "mp44_semi_mp"
    } else if i == 22 {
        "panzerfaust_mp"
    } else if i == 23 {
        "ppsh_mp"
    } else if i == 24 {
        "ppsh_semi_mp"
    } else if i == 25 {
        "ptrs41_antitank_rifle_mp"
    } else if i == 26 {
        "rgd-33russianfrag_mp"
    } else if i == 27 {
        "springfield_mp"
    } else if i == 28 {
        "sten_mp"
    } else if i == 29 {
        "stielhandgranate_mp"
    } else if i == 30 {
        "thompson_mp"
    } else {
        "thompson_semi_mp"
    }
}

/// The weapon at 0-based position `i`.
pub fn weapon_name(i: usize) -> (r: &'static str)
    requires
        i < NUM_WEAPONS,
    ensures
        r == weapon_at(i as int),
{
    match i {
        0 => "bar_mp",
        1 => "bar_slow_mp",
        2 => "bren_mp",
        3 => "colt_mp",
        4 => "enfield_mp",
        5 => "fg42_mp",
        6 => "fg42_semi_mp",
        7 => "fraggrenade_mp",
        8 => "kar98k_mp",
        9 => "kar98k_sniper_mp",
        10 => "luger_mp",
        11 => "m1carbine_mp",
        12 => "m1garand_mp",
        13 => "mg42_bipod_duck_mp",
        14 => "mg42_bipod_prone_mp",
        15 => "mg42_bipod_stand_mp",
        16 => "mk1britishfrag_mp",
        17 => "mosin_nagant_mp",
        18 => "mosin_nagant_sniper_mp",
        19 => "mp40_mp",
        20 => "mp44_mp",
        21 => "mp44_semi_mp",
        22 => "panzerfaust_mp",
        23 => "ppsh_mp",
        24 => "ppsh_semi_mp",
        25 => "ptrs41_antitank_rifle_mp",
        26 => "rgd-33russianfrag_mp",
        27 => "springfield_mp",
        28 => "sten_mp",
        29 => "stielhandgranate_mp",
        30 => "thompson_mp",
        _ => "thompson_semi_mp",
    }
}

/// The position in configstring 7 of the weapon spelled `s`, told apart by
/// its length and a few of its characters; -1 for none of them.
pub open spec fn weapon_position(s: Seq<char>) -> int {
    if s.len() == 6 && s[0] == 'b' && s[3] == '_' {
        0
    } else if s.len() == 11 && s[0] == 'b' && s[3] == '_' {
        1
    } else if s.len() == 7 && s[0] == 'b' && s[3] == 'n' {
        2
    } else if s.len() == 7 && s[0] == 'c' && s[3] == 't' {
        3
    } else if s.len() == 10 && s[0] == 'e' && s[3] == 'i' {
        4
    } else if s.len() == 7 && s[0] == 'f' && s[3] == '2' {
        5
    } else if s.len() == 12 && s[0] == 'f' && s[3] == '2' && s[11] == 'p' {
        6
    } else if s.len() == 14 && s[0] == 'f' && s[3] == 'g' && s[11] == '_' {
        7
    } else if s.len() == 9 && s[0] == 'k' && s[3] == '9' {
        8
    } else if s.len() == 16 && s[0] == 'k' && s[3] == '9' && s[11] == 'e' {
        9
    } else if s.len() == 8 && s[0] == 'l' && s[3] == 'e' {
        10
    } else if s.len() == 12 && s[0] == 'm' && s[3] == 'a' && s[11] == 'p' {
        11
    } else if s.len() == 11 && s[0] == 'm' && s[3] == 'a' {
        12
    } else if s.len() == 18 && s[0] == 'm' && s[3] == '2' && s[11] == 'd' {
        13
    } else if s.len() == 19 && s[0] == 'm' && s[3] == '2' && s[11] == 'p' {
        14
    } else if s.len() == 19 && s[0] == 'm' && s[3] == '2' && s[11] == 's' {
        15
    } else if s.len() == 17 && s[0] == 'm' && s[3] == 'b' && s[11] == 'r' {
        16
    } else if s.len() == 15 && s[0] == 'm' && s[3] == 'i' && s[11] == 't' {
        17
    } else if s.len() == 22 && s[0] == 'm' && s[3] == 'i' && s[11] == 't' {
        18
    } else if s.len() == 7 && s[0] == 'm' && s[3] == '0' {
        19
    } else if s.len() == 7 && s[0] == 'm' && s[3] == '4' {
        20
    } else if s.len() == 12 && s[0] == 'm' && s[3] == '4' && s[11] == 'p' {
        21
    } else if s.len() == 14 && s[0] == 'p' && s[3] == 'z' && s[11] == '_' {
        22
    } else if s.len() == 7 && s[0] == 'p' && s[3] == 'h' {
        23
    } else if s.len() == 12 && s[0] == 'p' && s[3] == 'h' && s[11] == 'p' {
        24
    } else if s.len() == 24 && s[0] == 'p' && s[3] == 's' && s[11] == 't' {
        25
    } else if s.len() == 20 && s[0] == 'r' && s[3] == '-' && s[11] == 'a' {
        26
    } else if s.len() == 14 && s[0] == 's' && s[3] == 'i' && s[11] == '_' {
        27
    } else if s.len() == 7 && s[0] == 's' && s[3] == 'n' {
        28
    } else if s.len() == 19 && s[0] == 's' && s[3] == 'e' && s[11] == 'a' {
        29
    } else if s.len() == 11 && s[0] == 't' && s[3] == 'm' {
        30
    } else if s.len() == 16 && s[0] == 't' && s[3] == 'm' && s[11] == 'm' {
        31
    } else {
        -1
    }
}

/// Each weapon of configstring 7 is told apart from the others.
pub proof fn lemma_weapon_position()
    ensures
        forall|k: int| 0 <= k < NUM_WEAPONS ==> weapon_position(#[trigger] weapon_at(k)@) == k,
{
    reveal_strlit("bar_mp");
    reveal_strlit("bar_slow_mp");
    reveal_strlit("bren_mp");
    reveal_strlit("colt_mp");
    reveal_strlit("enfield_mp");
    reveal_strlit("fg42_mp");
    reveal_strlit("fg42_semi_mp");
    reveal_strlit("fraggrenade_mp");
    reveal_strlit("kar98k_mp");
    reveal_strlit("kar98k_sniper_mp");
    reveal_strlit("luger_mp");
    reveal_strlit("m1carbine_mp");
    reveal_strlit("m1garand_mp");
    reveal_strlit("mg42_bipod_duck_mp");
    reveal_strlit("mg42_bipod_prone_mp");
    reveal_strlit("mg42_bipod_stand_mp");
    reveal_strlit("mk1britishfrag_mp");
    reveal_strlit("mosin_nagant_mp");
    reveal_strlit("mosin_nagant_sniper_mp");
    reveal_strlit("mp40_mp");
    reveal_strlit("mp44_mp");
    reveal_strlit("mp44_semi_mp");
    reveal_strlit("panzerfaust_mp");
    reveal_strlit("ppsh_mp");
    reveal_strlit("ppsh_semi_mp");
    reveal_strlit("ptrs41_antitank_rifle_mp");
    reveal_strlit("rgd-33russianfrag_mp");
    reveal_strlit("springfield_mp");
    reveal_strlit("sten_mp");
    reveal_strlit("stielhandgranate_mp");
    reveal_strlit("thompson_mp");
    reveal_strlit("thompson_semi_mp");
}

/// The first position at or after `from` whose weapon is named `name`.
pub open spec fn first_weapon_from(name: Seq<char>, from: int) -> Option<int>
    decreases NUM_WEAPONS - from,
{
    if from < 0 || from >= NUM_WEAPONS {
        None
    } else if weapon_at(from)@ == name {
        Some(from)
    } else {
        first_weapon_from(name, from + 1)
    }
}

/// A weapon's 1-based configstring 7 index, `None` for a name the list does
/// not carry. The match is exact and case-sensitive.
pub open spec fn weapon_index_of(name: Seq<char>) -> Option<int> {
    match first_weapon_from(name, 0) {
        Some(i) => Some(i + 1),
        None => None,
    }
}

pub proof fn lemma_first_weapon_from_bounds(name: Seq<char>, from: int)
    requires
        0 <= from,
    ensures
        first_weapon_from(name, from) matches Some(i) ==> from <= i < NUM_WEAPONS && weapon_at(
            i,
        )@ == name && forall|j: int| from <= j < i ==> weapon_at(j)@ != name,
        first_weapon_from(name, from) is None ==> forall|j: int|
            from <= j < NUM_WEAPONS ==> weapon_at(j)@ != name,
    decreases NUM_WEAPONS - from,
{
    if from < NUM_WEAPONS {
        lemma_first_weapon_from_bounds(name, from + 1);
    }
}

/// A weapon's 1-based configstring 7 index: its position in the list plus
/// one.
pub fn weapon_index(name: &str) -> (r: Option<usize>)
    ensures
        r matches Some(i) ==> weapon_index_of(name@) == Some(i as int),
        r is None ==> weapon_index_of(name@) is None,
        r matches Some(i) ==> 1 <= i <= NUM_WEAPONS && weapon_at(i - 1)@ == name@,
{
    let mut i: usize = 0;
    while i < NUM_WEAPONS
        invariant
            i <= NUM_WEAPONS,
            first_weapon_from(name@, 0) == first_weapon_from(name@, i as int),
        decreases NUM_WEAPONS - i,
    {
        if str_eq(weapon_name(i), name) {
            proof { lemma_first_weapon_from_bounds(name@, 0); }
            return Some(i + 1);
        }
        i = i + 1;
    }
    proof { lemma_first_weapon_from_bounds(name@, 0); }
    None
}

/// Whether configstring `i` of `current` differs from what the clients were
/// last sent: a slot past the end of the sent table always does.
pub open spec fn differs_at(sent: Seq<Seq<char>>, current: Seq<Seq<char>>, i: int) -> bool {
    i >= sent.len() || sent[i] != current[i]
}

/// The indices of `current` that differ from `sent`, in order, among the
/// first `n`.
pub open spec fn changed_of(sent: Seq<Seq<char>>, current: Seq<Seq<char>>, n: int) -> Seq<usize>
    decreases n,
{
    if n <= 0 {
        Seq::empty()
    } else if differs_at(sent, current, n - 1) {
        changed_of(sent, current, n - 1).push((n - 1) as usize)
    } else {
        changed_of(sent, current, n - 1)
    }
}

/// The character sequences of a configstring table.
pub open spec fn table_views(t: Seq<String>) -> Seq<Seq<char>> {
    Seq::new(t.len(), |i: int| t[i]@)
}

/// `broadcast_configstring_changes`' diff: every slot of the live table
/// that differs from the table the clients were last sent, in slot order.
/// Each client that has a table gets an update for each of them.
pub fn changed_configstrings(sent: &Vec<String>, current: &Vec<String>) -> (r: Vec<usize>)
    ensures
        r@ == changed_of(table_views(sent@), table_views(current@), current@.len() as int),
{
    let ghost sv = table_views(sent@);
    let ghost cv = table_views(current@);
    let mut out: Vec<usize> = Vec::new();
    let mut i: usize = 0;
    while i < current.len()
        invariant
            i <= current@.len(),
            sv == table_views(sent@),
            cv == table_views(current@),
            out@ == changed_of(sv, cv, i as int),
        decreases current@.len() - i,
    {
        let differs = i >= sent.len() || !str_eq(sent[i].as_str(), current[i].as_str());
        assert(differs == differs_at(sv, cv, i as int));
        if differs {
            out.push(i);
        }
        i = i + 1;
    }
    out
}

} // verus!