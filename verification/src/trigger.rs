//! Which classnames are triggers and what kind each is, and the map's
//! trigger table keyed by entity number. The boxes the touch pass tests
//! against a trigger's bounds are geometry and live with the rest of the
//! float code outside this library, under the same entity numbers.

use vstd::prelude::*;
use std::collections::BTreeMap;
use crate::text::str_eq;

verus! {

#[derive(Clone, Copy, Debug, PartialEq, Eq, Structural)]
pub enum TriggerKind {
    Multiple,
    Once,
    Use,
    LookAt,
    Hurt,
    Damage,
}

/// The six trigger classnames of the `spawns` table and the kind each
/// spawns; every other classname is not a trigger.
pub open spec fn trigger_kind_of(classname: Seq<char>) -> Option<TriggerKind> {
    if classname == "trigger_multiple"@ {
        Some(TriggerKind::Multiple)
    } else if classname == "trigger_once"@ {
        Some(TriggerKind::Once)
    } else if classname == "trigger_use"@ {
        Some(TriggerKind::Use)
    } else if classname == "trigger_lookat"@ {
        Some(TriggerKind::LookAt)
    } else if classname == "trigger_hurt"@ {
        Some(TriggerKind::Hurt)
    } else if classname == "trigger_damage"@ {
        Some(TriggerKind::Damage)
    } else {
        None
    }
}

/// The trigger kind a classname spawns, `None` for a classname that is not
/// a trigger. Case-sensitive, as retail's `strcmp` is.
pub fn kind_of(classname: &str) -> (r: Option<TriggerKind>)
    ensures
        r == trigger_kind_of(classname@),
{
    if str_eq(classname, "trigger_multiple") {
        Some(TriggerKind::Multiple)
    } else if str_eq(classname, "trigger_once") {
        Some(TriggerKind::Once)
    } else if str_eq(classname, "trigger_use") {
        Some(TriggerKind::Use)
    } else if str_eq(classname, "trigger_lookat") {
        Some(TriggerKind::LookAt)
    } else if str_eq(classname, "trigger_hurt") {
        Some(TriggerKind::Hurt)
    } else if str_eq(classname, "trigger_damage") {
        Some(TriggerKind::Damage)
    } else {
        None
    }
}

/// One trigger's row: its kind, the `wait` and `random` keys in
/// milliseconds (both 0 means no gate), and the level time it may fire
/// again.
#[derive(Clone, Copy, Debug, PartialEq, Eq, Structural)]
pub struct TriggerRow {
    pub kind: TriggerKind,
    pub wait_ms: i32,
    pub random_ms: i32,
    pub next_fire_ms: i32,
}

/// The map's triggers, keyed by entity number, in the order the numbers
/// were handed out.
pub struct Triggers {
    rows: BTreeMap<u32, TriggerRow>,
}

impl View for Triggers {
    type V = Map<u32, TriggerRow>;

    closed spec fn view(&self) -> Map<u32, TriggerRow> {
        self.rows@
    }
}

impl Triggers {
    /// No triggers.
    pub fn new() -> (r: Triggers)
        ensures
            r@ == Map::<u32, TriggerRow>::empty(),
    {
        Triggers { rows: BTreeMap::new() }
    }

    /// A trigger spawned as entity `id`, ready to fire at once. A number
    /// registered again takes the new row.
    pub fn register(&mut self, id: u32, kind: TriggerKind, wait_ms: i32, random_ms: i32)
        ensures
            final(self)@ == old(self)@.insert(
                id,
                TriggerRow { kind, wait_ms, random_ms, next_fire_ms: 0 },
            ),
    {
        self.rows.insert(id, TriggerRow { kind, wait_ms, random_ms, next_fire_ms: 0 });
    }

    /// Entity `id` freed: its row goes with it.
    pub fn remove(&mut self, id: u32)
        ensures
            final(self)@ == old(self)@.remove(id),
    {
        self.rows.remove(&id);
    }

    /// Entity `id`'s row, if it is a trigger.
    pub fn get(&self, id: u32) -> (r: Option<TriggerRow>)
        ensures
            r == (if self@.contains_key(id) {
                Some(self@[id])
            } else {
                None
            }),
    {
        match self.rows.get(&id) {
            Some(row) => Some(*row),
            None => None,
        }
    }

    /// Entity `id` may fire again from `at` on. Nothing changes for a
    /// number that is not a trigger.
    pub fn set_next_fire(&mut self, id: u32, at: i32)
        ensures
            final(self)@ == (if old(self)@.contains_key(id) {
                old(self)@.insert(id, TriggerRow { next_fire_ms: at, ..old(self)@[id] })
            } else {
                old(self)@
            }),
    {
        match self.get(id) {
            Some(row) => {
                self.rows.insert(id, TriggerRow { next_fire_ms: at, ..row });
            },
            None => {},
        }
    }

    /// How many triggers there are.
    pub fn len(&self) -> (r: usize)
        ensures
            r == self@.len(),
    {
        self.rows.len()
    }

    /// Whether there are none.
    pub fn is_empty(&self) -> (r: bool)
        ensures
            r == (self@.len() == 0),
    {
        self.rows.len() == 0
    }
}

/// What a read of the table gives back of a write: a registered trigger
/// is found under its number with the row it was given, a removed one is
/// gone, and no other number is touched by either.
pub proof fn law_a_trigger_row_is_what_was_registered(
    t: Map<u32, TriggerRow>,
    id: u32,
    row: TriggerRow,
    other: u32,
)
    requires
        other != id,
    ensures
        t.insert(id, row).contains_key(id) && t.insert(id, row)[id] == row,
        !t.remove(id).contains_key(id),
        t.insert(id, row).contains_key(other) == t.contains_key(other),
        t.remove(id).contains_key(other) == t.contains_key(other),
        t.contains_key(other) ==> t.insert(id, row)[other] == t[other] && t.remove(id)[other]
            == t[other],
{
}

} // verus!