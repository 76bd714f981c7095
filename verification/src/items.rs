//! The item registry: `bg_itemlist`'s index lookup, `RegisterItem`'s
//! registration with its alt-fire link, and the configstring 8 bitstring
//! `SaveRegisteredItems` packs from the registration bitset.

use vstd::prelude::*;
use crate::configstrings::{
    lemma_first_weapon_from_bounds, weapon_at, weapon_index, weapon_index_of, weapon_name,
    NUM_WEAPONS,
};
use crate::text::{ends_with, equals_concat, has_suffix, push_char, str_eq};

verus! {

/// `bg_numItems`.
pub const NUM_ITEMS: usize = 70;

/// The characters of the configstring 8 bitstring: one per four items.
pub const BITSTRING_LEN: usize = 18;

/// The only classnames `bg_itemlist` carries compiled in, at indices 65-69.
/// Indices 1-32 are the weapons of configstring 7; the rest are
/// placeholders no name reaches.
pub open spec fn static_item_index_of(name: Seq<char>) -> Option<int> {
    if name == "item_ammo_stielhandgranate_open"@ {
        Some(65)
    } else if name == "item_ammo_stielhandgranate_closed"@ {
        Some(66)
    } else if name == "item_health_small"@ {
        Some(67)
    } else if name == "item_health"@ {
        Some(68)
    } else if name == "item_health_large"@ {
        Some(69)
    } else {
        None
    }
}

/// `BG_FindItem`: a weapon's 1-based configstring 7 index, else one of the
/// compiled-in items, else a miss. Exact and case-sensitive.
pub open spec fn item_index_of(name: Seq<char>) -> Option<int> {
    match weapon_index_of(name) {
        Some(i) => Some(i),
        None => static_item_index_of(name),
    }
}

/// `BG_FindItem`.
pub fn item_index(name: &str) -> (r: Option<usize>)
    ensures
        r matches Some(i) ==> item_index_of(name@) == Some(i as int),
        r is None ==> item_index_of(name@) is None,
        r matches Some(i) ==> 1 <= i < NUM_ITEMS,
{
    if let Some(i) = weapon_index(name) {
        return Some(i);
    }
    if str_eq(name, "item_ammo_stielhandgranate_open") {
        Some(65)
    } else if str_eq(name, "item_ammo_stielhandgranate_closed") {
        Some(66)
    } else if str_eq(name, "item_health_small") {
        Some(67)
    } else if str_eq(name, "item_health") {
        Some(68)
    } else if str_eq(name, "item_health_large") {
        Some(69)
    } else {
        None
    }
}

/// `s` with `suf` taken off its end, when it ends with it.
pub open spec fn strip_suffix(s: Seq<char>, suf: Seq<char>) -> Option<Seq<char>> {
    if has_suffix(s, suf) {
        Some(s.subrange(0, s.len() - suf.len()))
    } else {
        None
    }
}

/// Whether weapon `index` (1-based) is a base weapon whose alt-fire mode,
/// `<base>_semi_mp` or `<base>_slow_mp`, is the next weapon in the list.
pub open spec fn alt_follows(index: int) -> bool {
    match strip_suffix(weapon_at(index - 1)@, "_mp"@) {
        Some(base) => index < NUM_WEAPONS && (weapon_at(index)@ == base + "_semi_mp"@
            || weapon_at(index)@ == base + "_slow_mp"@),
        None => false,
    }
}

/// Whether weapon `index` (1-based) is an alt-fire mode `<root><suffix>`
/// whose base weapon `<root>_mp` is the previous weapon in the list.
pub open spec fn alt_precedes_by(index: int, suffix: Seq<char>) -> bool {
    match strip_suffix(weapon_at(index - 1)@, suffix) {
        Some(root) => index > 1 && weapon_at(index - 2)@ == root + "_mp"@,
        None => false,
    }
}

/// The item `RegisterItem` registers along with weapon `index`: its alt-fire
/// partner, which sits at the adjacent configstring 7 index and is named by
/// the `_semi_mp`/`_slow_mp` convention.
pub open spec fn alt_index_of(index: int) -> Option<int> {
    if index < 1 || index > NUM_WEAPONS {
        None
    } else if alt_follows(index) {
        Some(index + 1)
    } else if alt_precedes_by(index, "_semi_mp"@) || alt_precedes_by(index, "_slow_mp"@) {
        Some(index - 1)
    } else {
        None
    }
}

/// The alt-fire partner of weapon `index`: the next slot when `index` is
/// the base weapon, the previous one when it is the alt mode.
pub fn alt_weapon_index(index: usize) -> (r: Option<usize>)
    ensures
        r matches Some(a) ==> alt_index_of(index as int) == Some(a as int),
        r is None ==> alt_index_of(index as int) is None,
{
    if index == 0 || index > NUM_WEAPONS {
        return None;
    }
    let name = weapon_name(index - 1);
    let n = name.unicode_len();
    proof {
        reveal_strlit("_mp");
        reveal_strlit("_semi_mp");
        reveal_strlit("_slow_mp");
    }
    if ends_with(name, "_mp") && index < NUM_WEAPONS {
        let next = weapon_name(index);
        let keep = n - 3;
        if equals_concat(next, name, keep, "_semi_mp") || equals_concat(
            next,
            name,
            keep,
            "_slow_mp",
        ) {
            return Some(index + 1);
        }
    }
    if index > 1 {
        let prev = weapon_name(index - 2);
        if ends_with(name, "_semi_mp") && equals_concat(prev, name, n - 8, "_mp") {
            return Some(index - 1);
        }
        if ends_with(name, "_slow_mp") && equals_concat(prev, name, n - 8, "_mp") {
            return Some(index - 1);
        }
    }
    None
}


/// The registration bitset after `RegisterItem(name)`: the item and its
/// alt-fire partner set, everything else as it was; a miss changes nothing.
pub open spec fn registered_after(r: Seq<bool>, name: Seq<char>) -> Seq<bool> {
    match item_index_of(name) {
        None => r,
        Some(i) => match alt_index_of(i) {
            Some(a) => r.update(i, true).update(a, true),
            None => r.update(i, true),
        },
    }
}

/// A fresh registry: only index 0, the "no weapon" item every connecting
/// player's default slot registers, is set.
pub open spec fn fresh_registry() -> Seq<bool> {
    Seq::new(NUM_ITEMS as nat, |i: int| i == 0)
}

/// The weight of the `j`th item of a nibble.
pub open spec fn weight(j: int) -> int {
    if j == 0 {
        1
    } else if j == 1 {
        2
    } else if j == 2 {
        4
    } else {
        8
    }
}

/// The first `cnt` bits of nibble `k`: item `4k + j` contributes
/// `weight(j)` when it is registered. Items past the end contribute nothing.
pub open spec fn partial_nibble(r: Seq<bool>, k: int, cnt: int) -> int
    decreases cnt,
{
    if cnt <= 0 {
        0
    } else {
        partial_nibble(r, k, cnt - 1) + if 0 <= 4 * k + cnt - 1 < r.len() && r[4 * k + cnt
            - 1] {
            weight(cnt - 1)
        } else {
            0
        }
    }
}

/// Nibble `k` of the bitset: items `4k..4k+3`, bit `i & 3` for item `i`.
pub open spec fn nibble_of(r: Seq<bool>, k: int) -> int {
    partial_nibble(r, k, 4)
}

/// `SaveRegisteredItems`' digit: `+0x30` under 10, `+0x57` at or above,
/// which is lowercase hex for a nibble.
pub open spec fn hex_char(n: int) -> char {
    if n > 9 {
        (n + 0x57) as char
    } else {
        (n + 0x30) as char
    }
}

/// Configstring 8: one lowercase hex digit per four items, the trailing
/// partial nibble flushed like a full one.
pub open spec fn bitstring_of(r: Seq<bool>) -> Seq<char> {
    Seq::new(BITSTRING_LEN as nat, |k: int| hex_char(nibble_of(r, k)))
}

proof fn lemma_partial_nibble_range(r: Seq<bool>, k: int, cnt: int)
    requires
        0 <= cnt <= 4,
    ensures
        0 <= partial_nibble(r, k, cnt) < if cnt == 4 { 16 } else { weight(cnt) },
    decreases cnt,
{
    if cnt > 0 {
        lemma_partial_nibble_range(r, k, cnt - 1);
    }
}

/// `SaveRegisteredItems`' digit for one nibble: `+0x30` under 10, `+0x57`
/// at or above. Past `0xa8` the byte addition overflows.
pub fn hex_digit(nibble: u8) -> (c: char)
    requires
        nibble <= 0xa8,
    ensures
        c == hex_char(nibble as int),
{
    if nibble > 9 {
        (nibble + 0x57) as char
    } else {
        (nibble + 0x30) as char
    }
}

/// The registered-item bitset `precacheItem` builds and configstring 8
/// reports.
pub struct Items {
    registered: Vec<bool>,
}

impl View for Items {
    type V = Seq<bool>;

    closed spec fn view(&self) -> Seq<bool> {
        self.registered@
    }
}

impl Items {
    #[verifier::type_invariant]
    spec fn inv(self) -> bool {
        self.registered@.len() == NUM_ITEMS
    }

    /// A fresh registry with index 0 set. No `precacheItem` can name index
    /// 0, but the connecting player's default "no weapon" slot registers it,
    /// so every retail capture carries it.
    pub fn new() -> (items: Items)
        ensures
            items@ == fresh_registry(),
            items@.len() == NUM_ITEMS,
    {
        let mut registered: Vec<bool> = Vec::new();
        let mut i: usize = 0;
        while i < NUM_ITEMS
            invariant
                i <= NUM_ITEMS,
                registered@.len() == i,
                forall|j: int| 0 <= j < i ==> registered@[j] == (j == 0),
            decreases NUM_ITEMS - i,
        {
            registered.push(i == 0);
            i = i + 1;
        }
        assert(registered@ =~= fresh_registry());
        Items { registered }
    }

    /// `RegisterItem`: marks `name` registered and, for a weapon, its
    /// alt-fire mode too. An unknown name is a `BG_FindItem` miss and
    /// registers nothing.
    pub fn register(&mut self, name: &str)
        ensures
            old(self)@.len() == NUM_ITEMS,
            final(self)@ == registered_after(old(self)@, name@),
            final(self)@.len() == NUM_ITEMS,
    {
        proof {
            use_type_invariant(&*self);
        }
        let Some(index) = item_index(name) else {
            return;
        };
        let mut registered = self.registered.clone();
        assert(registered@ =~= self.registered@);
        registered.set(index, true);
        if let Some(alt) = alt_weapon_index(index) {
            proof {
                lemma_alt_in_range(index as int);
            }
            registered.set(alt, true);
        }
        self.registered = registered;
    }

    /// `SaveRegisteredItems`: four items per lowercase hex character, bit
    /// `i & 3` for item `i`, the trailing partial nibble flushed too.
    pub fn bitstring(&self) -> (s: String)
        ensures
            self@.len() == NUM_ITEMS,
            s@ == bitstring_of(self@),
    {
        proof {
            use_type_invariant(self);
        }
        let ghost r = self@;
        let mut out = String::new();
        let mut k: usize = 0;
        while k < BITSTRING_LEN
            invariant
                r == self@,
                r.len() == NUM_ITEMS,
                k <= BITSTRING_LEN,
                out@ == bitstring_of(r).take(k as int),
            decreases BITSTRING_LEN - k,
        {
            let mut nibble: u8 = 0;
            let mut j: usize = 0;
            while j < 4
                invariant
                    r == self@,
                    r.len() == NUM_ITEMS,
                    k < BITSTRING_LEN,
                    j <= 4,
                    nibble as int == partial_nibble(r, k as int, j as int),
                decreases 4 - j,
            {
                proof {
                    lemma_partial_nibble_range(r, k as int, j as int);
                }
                let i = 4 * k + j;
                if i < NUM_ITEMS && self.registered[i] {
                    let w: u8 = if j == 0 {
                        1
                    } else if j == 1 {
                        2
                    } else if j == 2 {
                        4
                    } else {
                        8
                    };
                    nibble = nibble + w;
                }
                j = j + 1;
            }
            proof {
                lemma_partial_nibble_range(r, k as int, 4);
            }
            push_char(&mut out, hex_digit(nibble));
            assert(out@ =~= bitstring_of(r).take(k + 1));
            k = k + 1;
        }
        assert(out@ =~= bitstring_of(r));
        out
    }
}

proof fn lemma_alt_in_range(index: int)
    requires
        1 <= index <= NUM_WEAPONS,
    ensures
        alt_index_of(index) matches Some(a) ==> 1 <= a <= NUM_WEAPONS,
{
}


/// Every index `BG_FindItem` returns is a real slot of the registry, and
/// every alt-fire partner is a weapon slot.
pub proof fn lemma_index_ranges(name: Seq<char>)
    ensures
        item_index_of(name) matches Some(i) ==> 1 <= i < NUM_ITEMS && (alt_index_of(i) matches Some(
            a,
        ) ==> 1 <= a <= NUM_WEAPONS),
{
    lemma_first_weapon_from_bounds(name, 0);
}

/// Registering never clears an item: every bit set before is still set
/// after, and the registry keeps its size.
pub proof fn law_register_is_monotone(r: Seq<bool>, name: Seq<char>)
    requires
        r.len() == NUM_ITEMS,
    ensures
        registered_after(r, name).len() == NUM_ITEMS,
        forall|i: int| 0 <= i < NUM_ITEMS && r[i] ==> registered_after(r, name)[i],
{
    lemma_index_ranges(name);
}

/// Registering sets exactly the named item and its alt-fire partner; every
/// other bit is untouched, and a name `BG_FindItem` misses changes nothing.
pub proof fn law_register_sets_exactly_the_item_and_its_alt(r: Seq<bool>, name: Seq<char>)
    requires
        r.len() == NUM_ITEMS,
    ensures
        item_index_of(name) is None ==> registered_after(r, name) == r,
        item_index_of(name) matches Some(i) ==> forall|j: int|
            0 <= j < NUM_ITEMS ==> registered_after(r, name)[j] == (r[j] || j == i || alt_index_of(
                i,
            ) == Some(j)),
{
    lemma_index_ranges(name);
}

/// Registering a name twice is the same as registering it once.
pub proof fn law_register_is_idempotent(r: Seq<bool>, name: Seq<char>)
    requires
        r.len() == NUM_ITEMS,
    ensures
        registered_after(registered_after(r, name), name) == registered_after(r, name),
{
    lemma_index_ranges(name);
    assert(registered_after(registered_after(r, name), name) =~= registered_after(r, name));
}

/// The order registrations happen in does not matter: the bitset, and so
/// configstring 8, depends only on which names were registered.
pub proof fn law_register_order_does_not_matter(r: Seq<bool>, a: Seq<char>, b: Seq<char>)
    requires
        r.len() == NUM_ITEMS,
    ensures
        registered_after(registered_after(r, a), b) == registered_after(registered_after(r, b), a),
{
    lemma_index_ranges(a);
    lemma_index_ranges(b);
    assert(registered_after(registered_after(r, a), b) =~= registered_after(
        registered_after(r, b),
        a,
    ));
}

/// The value of a lowercase hex digit.
pub open spec fn hex_value(c: char) -> int {
    if c as int >= 0x61 {
        c as int - 0x57
    } else {
        c as int - 0x30
    }
}

/// Whether bit `j` of `n` is set.
pub open spec fn bit_of(n: int, j: int) -> bool {
    (n / weight(j)) % 2 == 1
}

proof fn lemma_nibble_bits(r: Seq<bool>, k: int)
    requires
        r.len() == NUM_ITEMS,
        0 <= k < BITSTRING_LEN,
    ensures
        0 <= nibble_of(r, k) < 16,
        hex_value(hex_char(nibble_of(r, k))) == nibble_of(r, k),
        forall|j: int|
            0 <= j < 4 ==> bit_of(nibble_of(r, k), j) == (4 * k + j < NUM_ITEMS && r[4 * k + j]),
{
    lemma_partial_nibble_range(r, k, 4);
    reveal_with_fuel(partial_nibble, 5);
    let b0: int = if 4 * k < NUM_ITEMS && r[4 * k] { 1 } else { 0 };
    let b1: int = if 4 * k + 1 < NUM_ITEMS && r[4 * k + 1] { 1 } else { 0 };
    let b2: int = if 4 * k + 2 < NUM_ITEMS && r[4 * k + 2] { 1 } else { 0 };
    let b3: int = if 4 * k + 3 < NUM_ITEMS && r[4 * k + 3] { 1 } else { 0 };
    assert(nibble_of(r, k) == b0 + 2 * b1 + 4 * b2 + 8 * b3);
    let n = nibble_of(r, k);
    assert(n / 1 == n);
    assert((b0 + 2 * b1 + 4 * b2 + 8 * b3) % 2 == b0) by (nonlinear_arith)
        requires
            0 <= b0 <= 1,
            0 <= b1 <= 1,
            0 <= b2 <= 1,
            0 <= b3 <= 1,
    ;
    assert((b0 + 2 * b1 + 4 * b2 + 8 * b3) / 2 == b1 + 2 * b2 + 4 * b3) by (nonlinear_arith)
        requires
            0 <= b0 <= 1,
            0 <= b1 <= 1,
            0 <= b2 <= 1,
            0 <= b3 <= 1,
    ;
    assert((b0 + 2 * b1 + 4 * b2 + 8 * b3) / 4 == b2 + 2 * b3) by (nonlinear_arith)
        requires
            0 <= b0 <= 1,
            0 <= b1 <= 1,
            0 <= b2 <= 1,
            0 <= b3 <= 1,
    ;
    assert((b0 + 2 * b1 + 4 * b2 + 8 * b3) / 8 == b3) by (nonlinear_arith)
        requires
            0 <= b0 <= 1,
            0 <= b1 <= 1,
            0 <= b2 <= 1,
            0 <= b3 <= 1,
    ;
}

/// Configstring 8 is lowercase hex: every character is `0`-`9` or `a`-`f`,
/// whatever the registry holds.
pub proof fn law_bitstring_is_lowercase_hex(r: Seq<bool>)
    ensures
        bitstring_of(r).len() == BITSTRING_LEN,
        forall|k: int|
            0 <= k < BITSTRING_LEN ==> {
                let c = #[trigger] bitstring_of(r)[k];
                ('0' <= c <= '9') || ('a' <= c <= 'f')
            },
{
    assert forall|k: int| 0 <= k < BITSTRING_LEN implies {
        let c = #[trigger] bitstring_of(r)[k];
        ('0' <= c <= '9') || ('a' <= c <= 'f')
    } by {
        lemma_partial_nibble_range(r, k, 4);
    }
}

/// Configstring 8 gives back the registry it was packed from: item `i` is
/// registered exactly when bit `i & 3` of hex digit `i / 4` is set.
pub proof fn law_bitstring_reads_back_every_item(r: Seq<bool>, i: int)
    requires
        r.len() == NUM_ITEMS,
        0 <= i < NUM_ITEMS,
    ensures
        bitstring_of(r).len() == BITSTRING_LEN,
        bit_of(hex_value(bitstring_of(r)[i / 4]), i % 4) == r[i],
{
    lemma_nibble_bits(r, i / 4);
}

/// Two registries with the same configstring 8 are the same registry.
pub proof fn law_bitstring_determines_the_registry(r1: Seq<bool>, r2: Seq<bool>)
    requires
        r1.len() == NUM_ITEMS,
        r2.len() == NUM_ITEMS,
        bitstring_of(r1) == bitstring_of(r2),
    ensures
        r1 == r2,
{
    assert forall|i: int| 0 <= i < NUM_ITEMS implies r1[i] == r2[i] by {
        law_bitstring_reads_back_every_item(r1, i);
        law_bitstring_reads_back_every_item(r2, i);
    }
    assert(r1 =~= r2);
}

/// No three neighbours of configstring 7 each grow by five characters, the
/// growth from `<base>_mp` to its `<base>_semi_mp`/`<base>_slow_mp`.
proof fn lemma_no_alt_of_an_alt(k: int)
    requires
        0 <= k,
        k + 2 < NUM_WEAPONS,
    ensures
        !(weapon_at(k + 1)@.len() == weapon_at(k)@.len() + 5 && weapon_at(k + 2)@.len()
            == weapon_at(k + 1)@.len() + 5),
{
    reveal_strlit("bar_mp");
    reveal_strlit("bar_slow_mp");
    reveal_strlit("bren_mp");
    reveal_strlit("colt_mp");
    reveal_strlit("enfield_mp");
    reveal_strlit("fg42_mp");
    reveal_strlit("fg42_semi_mp");
    reveal_strlit("fraggrenade_mp");
    reveal_strlit("kar98k_mp");
    reveal_strlit("kar98k_sniper_mp");
    reveal_strlit("luger_mp");
    reveal_strlit("m1carbine_mp");
    reveal_strlit("m1garand_mp");
    reveal_strlit("mg42_bipod_duck_mp");
    reveal_strlit("mg42_bipod_prone_mp");
    reveal_strlit("mg42_bipod_stand_mp");
    reveal_strlit("mk1britishfrag_mp");
    reveal_strlit("mosin_nagant_mp");
    reveal_strlit("mosin_nagant_sniper_mp");
    reveal_strlit("mp40_mp");
    reveal_strlit("mp44_mp");
    reveal_strlit("mp44_semi_mp");
    reveal_strlit("panzerfaust_mp");
    reveal_strlit("ppsh_mp");
    reveal_strlit("ppsh_semi_mp");
    reveal_strlit("ptrs41_antitank_rifle_mp");
    reveal_strlit("rgd-33russianfrag_mp");
    reveal_strlit("springfield_mp");
    reveal_strlit("sten_mp");
    reveal_strlit("stielhandgranate_mp");
    reveal_strlit("thompson_mp");
    reveal_strlit("thompson_semi_mp");
}

proof fn lemma_strip_suffix(s: Seq<char>, suf: Seq<char>, base: Seq<char>)
    requires
        strip_suffix(s, suf) == Some(base),
    ensures
        s == base + suf,
{
    assert(s =~= s.subrange(0, s.len() - suf.len()) + s.subrange(s.len() - suf.len(), s.len() as int));
}

proof fn lemma_strip_concat(base: Seq<char>, suf: Seq<char>)
    ensures
        strip_suffix(base + suf, suf) == Some(base),
{
    let s = base + suf;
    assert(s.subrange(s.len() - suf.len(), s.len() as int) =~= suf);
    assert(s.subrange(0, s.len() - suf.len()) =~= base);
}

/// The alt-fire link works from either end: the partner of a weapon's
/// alt-fire partner is the weapon itself, so registering either one of a
/// pair registers both.
pub proof fn law_the_alt_link_works_from_either_end(index: int)
    requires
        alt_index_of(index) is Some,
    ensures
        alt_index_of(alt_index_of(index)->0) == Some(index),
{
    reveal_strlit("_mp");
    reveal_strlit("_semi_mp");
    reveal_strlit("_slow_mp");
    if alt_follows(index) {
        let base = strip_suffix(weapon_at(index - 1)@, "_mp"@)->0;
        lemma_strip_suffix(weapon_at(index - 1)@, "_mp"@, base);
        let suf = if weapon_at(index)@ == base + "_semi_mp"@ {
            "_semi_mp"@
        } else {
            "_slow_mp"@
        };
        assert(weapon_at(index)@ == base + suf);
        lemma_strip_concat(base, suf);
        assert(alt_precedes_by(index + 1, suf));
        if alt_follows(index + 1) {
            let b2 = strip_suffix(weapon_at(index)@, "_mp"@)->0;
            lemma_strip_suffix(weapon_at(index)@, "_mp"@, b2);
            lemma_no_alt_of_an_alt(index - 1);
            assert(false);
        }
    } else {
        let suf = if alt_precedes_by(index, "_semi_mp"@) {
            "_semi_mp"@
        } else {
            "_slow_mp"@
        };
        let root = strip_suffix(weapon_at(index - 1)@, suf)->0;
        lemma_strip_suffix(weapon_at(index - 1)@, suf, root);
        lemma_strip_concat(root, "_mp"@);
        assert(alt_follows(index - 1));
    }
}


/// A link grows the name by five characters, `_mp` to `_semi_mp` or
/// `_slow_mp`.
proof fn lemma_link_lengths(index: int)
    ensures
        alt_follows(index) ==> weapon_at(index)@.len() == weapon_at(index - 1)@.len() + 5,
        alt_precedes_by(index, "_semi_mp"@) ==> weapon_at(index - 1)@.len() == weapon_at(
            index - 2,
        )@.len() + 5,
        alt_precedes_by(index, "_slow_mp"@) ==> weapon_at(index - 1)@.len() == weapon_at(
            index - 2,
        )@.len() + 5,
{
    reveal_strlit("_mp");
    reveal_strlit("_semi_mp");
    reveal_strlit("_slow_mp");
    if alt_follows(index) {
        let base = strip_suffix(weapon_at(index - 1)@, "_mp"@)->0;
        lemma_strip_suffix(weapon_at(index - 1)@, "_mp"@, base);
    }
    if alt_precedes_by(index, "_semi_mp"@) {
        let root = strip_suffix(weapon_at(index - 1)@, "_semi_mp"@)->0;
        lemma_strip_suffix(weapon_at(index - 1)@, "_semi_mp"@, root);
    }
    if alt_precedes_by(index, "_slow_mp"@) {
        let root = strip_suffix(weapon_at(index - 1)@, "_slow_mp"@)->0;
        lemma_strip_suffix(weapon_at(index - 1)@, "_slow_mp"@, root);
    }
}

/// Weapons `index` and `index + 1` are `<base>_mp` and `<base><suf>`.
proof fn lemma_pair_links(index: int, base: Seq<char>, suf: Seq<char>)
    requires
        1 <= index < NUM_WEAPONS,
        suf == "_semi_mp"@ || suf == "_slow_mp"@,
        weapon_at(index - 1)@ == base + "_mp"@,
        weapon_at(index)@ == base + suf,
    ensures
        alt_follows(index),
        alt_precedes_by(index + 1, suf),
{
    lemma_strip_concat(base, "_mp"@);
    lemma_strip_concat(base, suf);
}

/// The pairs configstring 7 links: bar, fg42, mp44, ppsh and thompson, each
/// with its alt-fire mode right after it.
pub open spec fn alt_pair_of(index: int) -> Option<int> {
    if index == 1 || index == 6 || index == 21 || index == 24 || index == 31 {
        Some(index + 1)
    } else if index == 2 || index == 7 || index == 22 || index == 25 || index == 32 {
        Some(index - 1)
    } else {
        None
    }
}

/// Exactly five pairs of configstring 7 link: ten weapons have an alt-fire
/// partner, each the other of its pair, and no other index has one.
pub proof fn law_exactly_five_pairs_link(index: int)
    ensures
        alt_index_of(index) == alt_pair_of(index),
{
    reveal_strlit("_mp");
    reveal_strlit("_semi_mp");
    reveal_strlit("_slow_mp");
    lemma_link_lengths(index);
    reveal_strlit("bar_mp");
    reveal_strlit("bar_slow_mp");
    reveal_strlit("bren_mp");
    reveal_strlit("colt_mp");
    reveal_strlit("enfield_mp");
    reveal_strlit("fg42_mp");
    reveal_strlit("fg42_semi_mp");
    reveal_strlit("fraggrenade_mp");
    reveal_strlit("kar98k_mp");
    reveal_strlit("kar98k_sniper_mp");
    reveal_strlit("luger_mp");
    reveal_strlit("m1carbine_mp");
    reveal_strlit("m1garand_mp");
    reveal_strlit("mg42_bipod_duck_mp");
    reveal_strlit("mg42_bipod_prone_mp");
    reveal_strlit("mg42_bipod_stand_mp");
    reveal_strlit("mk1britishfrag_mp");
    reveal_strlit("mosin_nagant_mp");
    reveal_strlit("mosin_nagant_sniper_mp");
    reveal_strlit("mp40_mp");
    reveal_strlit("mp44_mp");
    reveal_strlit("mp44_semi_mp");
    reveal_strlit("panzerfaust_mp");
    reveal_strlit("ppsh_mp");
    reveal_strlit("ppsh_semi_mp");
    reveal_strlit("ptrs41_antitank_rifle_mp");
    reveal_strlit("rgd-33russianfrag_mp");
    reveal_strlit("springfield_mp");
    reveal_strlit("sten_mp");
    reveal_strlit("stielhandgranate_mp");
    reveal_strlit("thompson_mp");
    reveal_strlit("thompson_semi_mp");
    if index == 1 || index == 2 {
        let base = weapon_at(0)@.subrange(0, 3);
        assert(weapon_at(0)@ =~= base + "_mp"@);
        assert(weapon_at(1)@ =~= base + "_slow_mp"@);
        lemma_pair_links(1, base, "_slow_mp"@);
    } else if index == 6 || index == 7 {
        let base = weapon_at(5)@.subrange(0, 4);
        assert(weapon_at(5)@ =~= base + "_mp"@);
        assert(weapon_at(6)@ =~= base + "_semi_mp"@);
        lemma_pair_links(6, base, "_semi_mp"@);
    } else if index == 21 || index == 22 {
        let base = weapon_at(20)@.subrange(0, 4);
        assert(weapon_at(20)@ =~= base + "_mp"@);
        assert(weapon_at(21)@ =~= base + "_semi_mp"@);
        lemma_pair_links(21, base, "_semi_mp"@);
    } else if index == 24 || index == 25 {
        let base = weapon_at(23)@.subrange(0, 4);
        assert(weapon_at(23)@ =~= base + "_mp"@);
        assert(weapon_at(24)@ =~= base + "_semi_mp"@);
        lemma_pair_links(24, base, "_semi_mp"@);
    } else if index == 31 || index == 32 {
        let base = weapon_at(30)@.subrange(0, 8);
        assert(weapon_at(30)@ =~= base + "_mp"@);
        assert(weapon_at(31)@ =~= base + "_semi_mp"@);
        lemma_pair_links(31, base, "_semi_mp"@);
    }
}

} // verus!
