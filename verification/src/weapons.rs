//! The weapon half of a player's state in the wire's own terms: which
//! weapons a client holds (`ps.weapons`), which one sits in each weapon slot
//! (`ps.weaponslots`) and which one it spawned holding (`ps.weapon`); the
//! `weaponSlot` name table; and the ammo/clip name-table walk.

use vstd::prelude::*;
use vstd::string::*;
use crate::text::{push_char, str_eq};

verus! {

/// `ps.weaponslots` is eight bytes carried by the two 32-bit netfields
/// `weaponslots[0]` and `weaponslots[4]`.
pub const NUM_SLOTS: usize = 8;

/// How many names the `weaponSlot` table carries.
pub const SLOT_NAME_COUNT: usize = 6;

/// The retail `weaponSlot` name table. Index 0 is `"none"`, so a weapon's
/// own slot is 1..=5.
pub open spec fn slot_name_at(i: int) -> &'static str {
    if i == 0 {
        "none"
    } else if i == 1 {
        "primary"
    } else if i == 2 {
        "primaryb"
    } else if i == 3 {
        "pistol"
    } else if i == 4 {
        "grenade"
    } else {
        "smokegrenade"
    }
}

fn slot_name(i: usize) -> (r: &'static str)
    requires
        i < SLOT_NAME_COUNT,
    ensures
        r == slot_name_at(i as int),
{
    match i {
        0 => "none",
        1 => "primary",
        2 => "primaryb",
        3 => "pistol",
        4 => "grenade",
        _ => "smokegrenade",
    }
}

/// The first position at or after `from` of the slot table naming `named`.
pub open spec fn first_slot_from(named: Seq<char>, from: int) -> Option<int>
    decreases SLOT_NAME_COUNT - from,
{
    if from < 0 || from >= SLOT_NAME_COUNT {
        None
    } else if slot_name_at(from)@ == named {
        Some(from)
    } else {
        first_slot_from(named, from + 1)
    }
}

/// The slot a weapon file's `weaponSlot` value names: its index in the
/// table, with `"none"` and anything the table lacks giving no slot.
pub open spec fn slot_index_of(named: Seq<char>) -> Option<int> {
    match first_slot_from(named, 0) {
        Some(i) => if i > 0 {
            Some(i)
        } else {
            None
        },
        None => None,
    }
}

/// The slot index a weapon file's `weaponSlot` value names, `None` for
/// `"none"` or a name the table does not have.
pub fn slot_index(named: &str) -> (r: Option<usize>)
    ensures
        r matches Some(i) ==> slot_index_of(named@) == Some(i as int),
        r is None ==> slot_index_of(named@) is None,
{
    let mut i: usize = 0;
    while i < SLOT_NAME_COUNT
        invariant
            i <= SLOT_NAME_COUNT,
            first_slot_from(named@, 0) == first_slot_from(named@, i as int),
        decreases SLOT_NAME_COUNT - i,
    {
        if str_eq(slot_name(i), named) {
            if i > 0 {
                return Some(i);
            } else {
                return None;
            }
        }
        i = i + 1;
    }
    None
}

/// One player's weapons, in the wire's own terms.
#[derive(Clone, Copy, Default, PartialEq, Eq, Debug)]
pub struct PlayerWeapons {
    /// `ps.weapons`: bit N set for weapon index N, the 1-based configstring 7
    /// position. Two 32-bit netfields, so bit 63 is the highest that travels.
    pub held: u64,
    /// `ps.weaponslots`: the weapon index occupying each slot, 0 for empty.
    pub slots: [u8; NUM_SLOTS],
    /// `ps.weapon`, the weapon the spawn chose.
    pub current: u8,
}

/// Whether bit `index` of `held` is set.
pub open spec fn holds_bit(held: u64, index: int) -> bool {
    0 <= index < 64 && (held >> (index as u64)) & 1u64 == 1u64
}

/// The 32-bit word four slot bytes pack into, lowest slot in the lowest
/// byte.
pub open spec fn pack_word(b0: u8, b1: u8, b2: u8, b3: u8) -> i32 {
    (b0 + b1 * 0x100 + b2 * 0x10000 + b3 * 0x1000000) as i32
}

proof fn lemma_or_bit(h: u64, i: u64, j: u64)
    requires
        i < 64,
        j < 64,
    ensures
        ((h | (1u64 << i)) >> j) & 1u64 == if i == j {
            1u64
        } else {
            (h >> j) & 1u64
        },
{
    assert(((h | (1u64 << i)) >> j) & 1u64 == if i == j {
        1u64
    } else {
        (h >> j) & 1u64
    }) by (bit_vector)
        requires
            i < 64,
            j < 64,
    ;
}

impl PlayerWeapons {
    /// `giveWeapon`: hold the weapon and put it in its file's `weaponSlot`.
    /// A weapon whose file names no slot (slot 0, which is what a host with
    /// no paks mounted reports) is still held; only the slot byte goes
    /// unset. An index past bit 63 cannot travel and is not recorded.
    pub fn give(&mut self, index: usize, slot: usize)
        ensures
            final(self).held == if index < 64 {
                old(self).held | (1u64 << (index as u64))
            } else {
                old(self).held
            },
            final(self).slots@ == if index < 64 && 1 <= slot < NUM_SLOTS {
                old(self).slots@.update(slot as int, index as u8)
            } else {
                old(self).slots@
            },
            final(self).current == old(self).current,
    {
        if index < 64 {
            self.held = self.held | (1u64 << (index as u64));
            if 1 <= slot && slot < NUM_SLOTS {
                self.slots[slot] = index as u8;
            }
        }
    }

    /// Whether the player holds that weapon: retail's
    /// `COM_BitCheck(ps.weapons, index)`.
    pub fn holds(&self, index: usize) -> (r: bool)
        ensures
            r == holds_bit(self.held, index as int),
    {
        index < 64 && (self.held >> (index as u64)) & 1u64 == 1u64
    }

    /// The two 32-bit words `weaponslots[0]` and `weaponslots[4]` carry:
    /// slots 0-3 and 4-7, lowest slot in the lowest byte.
    pub fn slot_words(&self) -> (r: [i32; 2])
        ensures
            r@ == seq![
                pack_word(self.slots@[0], self.slots@[1], self.slots@[2], self.slots@[3]),
                pack_word(self.slots@[4], self.slots@[5], self.slots@[6], self.slots@[7]),
            ],
    {
        let s = self.slots;
        let lo: u32 = s[0] as u32 + s[1] as u32 * 0x100 + s[2] as u32 * 0x10000 + s[3] as u32
            * 0x1000000;
        let hi: u32 = s[4] as u32 + s[5] as u32 * 0x100 + s[6] as u32 * 0x10000 + s[7] as u32
            * 0x1000000;
        let r = [lo as i32, hi as i32];
        assert(r@ =~= seq![
            pack_word(self.slots@[0], self.slots@[1], self.slots@[2], self.slots@[3]),
            pack_word(self.slots@[4], self.slots@[5], self.slots@[6], self.slots@[7]),
        ]);
        r
    }
}

/// A given weapon is held afterwards, and giving one weapon changes whether
/// no other is held.
pub proof fn law_give_holds_exactly_the_weapon(held: u64, index: int, j: int)
    requires
        0 <= index < 64,
        0 <= j < 64,
    ensures
        holds_bit(held | (1u64 << (index as u64)), index),
        j != index ==> holds_bit(held | (1u64 << (index as u64)), j) == holds_bit(held, j),
{
    lemma_or_bit(held, index as u64, index as u64);
    lemma_or_bit(held, index as u64, j as u64);
}

/// `to_ascii_lowercase` of one character.
pub open spec fn lower_char(c: char) -> char {
    if 'A' <= c && c <= 'Z' {
        ((c as int) + 32) as char
    } else {
        c
    }
}

/// `to_ascii_lowercase`: ASCII capitals folded, everything else kept.
pub open spec fn lower_ascii(s: Seq<char>) -> Seq<char> {
    Seq::new(s.len(), |i: int| lower_char(s[i]))
}

/// A name with its ASCII capitals folded to lowercase.
pub fn ascii_lowercase(s: &str) -> (r: String)
    ensures
        r@ == lower_ascii(s@),
{
    let n = s.unicode_len();
    let mut out = String::new();
    let mut i: usize = 0;
    while i < n
        invariant
            n == s@.len(),
            i <= n,
            out@ == lower_ascii(s@).take(i as int),
        decreases n - i,
    {
        let c = s.get_char(i);
        let l = if 'A' <= c && c <= 'Z' {
            ((c as u32) + 32) as u8 as char
        } else {
            c
        };
        push_char(&mut out, l);
        assert(out@ =~= lower_ascii(s@).take(i + 1));
        i = i + 1;
    }
    assert(out@ =~= lower_ascii(s@));
    out
}

/// The names of a table, as character sequences.
pub open spec fn names_of(table: Seq<String>) -> Seq<Seq<char>> {
    Seq::new(table.len(), |i: int| table[i]@)
}

/// The ammo/clip name-table walk: lowercase the name, look it up, append it
/// on a miss. Ammo and clip names each get their own table, so the two
/// indexes never share a namespace.
pub fn name_index(table: &mut Vec<String>, name: &str) -> (r: usize)
    ensures
        ({
            let lower = lower_ascii(name@);
            let before = names_of(old(table)@);
            if before.contains(lower) {
                &&& final(table)@ == old(table)@
                &&& r < before.len()
                &&& before[r as int] == lower
                &&& forall|k: int| 0 <= k < r ==> before[k] != lower
            } else {
                &&& names_of(final(table)@) == before.push(lower)
                &&& r == before.len()
            }
        }),
{
    let lower = ascii_lowercase(name);
    let ghost before = names_of(table@);
    let mut i: usize = 0;
    while i < table.len()
        invariant
            before == names_of(table@),
            i <= table@.len(),
            lower@ == lower_ascii(name@),
            forall|k: int| 0 <= k < i ==> before[k] != lower@,
        decreases table@.len() - i,
    {
        if str_eq(table[i].as_str(), lower.as_str()) {
            return i;
        }
        i = i + 1;
    }
    assert(!before.contains(lower@));
    table.push(lower);
    assert(names_of(table@) =~= before.push(lower_ascii(name@)));
    table.len() - 1
}


proof fn lemma_slot_names_differ(a: int, b: int)
    requires
        0 <= a < b < SLOT_NAME_COUNT,
    ensures
        slot_name_at(a)@ != slot_name_at(b)@,
{
    reveal_strlit("none");
    reveal_strlit("primary");
    reveal_strlit("primaryb");
    reveal_strlit("pistol");
    reveal_strlit("grenade");
    reveal_strlit("smokegrenade");
    assert("none"@.len() == 4);
    assert("primary"@.len() == 7);
    assert("primaryb"@.len() == 8);
    assert("pistol"@.len() == 6);
    assert("grenade"@.len() == 7);
    assert("smokegrenade"@.len() == 12);
    assert("primary"@[0] != "grenade"@[0]);
}

proof fn lemma_first_slot(i: int, from: int)
    requires
        0 <= from <= i < SLOT_NAME_COUNT,
    ensures
        first_slot_from(slot_name_at(i)@, from) == Some(i),
    decreases i - from,
{
    if from < i {
        lemma_slot_names_differ(from, i);
        lemma_first_slot(i, from + 1);
    }
}

/// The `weaponSlot` table is the retail one: `primary` 1, `primaryb` 2,
/// `pistol` 3, `grenade` 4, `smokegrenade` 5, and `none` no slot.
pub proof fn law_the_weapon_slots_are_the_retail_ones()
    ensures
        slot_index_of("primary"@) == Some(1int),
        slot_index_of("primaryb"@) == Some(2int),
        slot_index_of("pistol"@) == Some(3int),
        slot_index_of("grenade"@) == Some(4int),
        slot_index_of("smokegrenade"@) == Some(5int),
        slot_index_of("none"@) is None,
{
    lemma_first_slot(0, 0);
    lemma_first_slot(1, 0);
    lemma_first_slot(2, 0);
    lemma_first_slot(3, 0);
    lemma_first_slot(4, 0);
    lemma_first_slot(5, 0);
    assert(slot_name_at(0) == "none");
    assert(slot_name_at(1) == "primary");
    assert(slot_name_at(2) == "primaryb");
    assert(slot_name_at(3) == "pistol");
    assert(slot_name_at(4) == "grenade");
    assert(slot_name_at(5) == "smokegrenade");
}

} // verus!
