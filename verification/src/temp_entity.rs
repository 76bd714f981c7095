//! Temp entities: one entity that lives for a single frame to carry an event
//! to clients. Only who may see one is decided here; building the entity
//! state is the wire encoder's business.

use vstd::prelude::*;

verus! {

/// `ET_EVENTS`, the base an event entity's `eType` is offset from: 12 on
/// CoD 1.1 MP.
pub const ET_EVENTS: i32 = 12;

/// `ENTITYNUM_WORLD`, the reserved world entity number.
pub const ENTITYNUM_WORLD: u32 = 1022;

/// How many temp entities one frame can carry.
pub const TEMP_COUNT: u32 = 64;

/// The first entity number a temp entity takes: the block of `TEMP_COUNT`
/// numbers just below `ENTITYNUM_WORLD`.
pub const TEMP_FIRST: u32 = 958;

/// Who a temp entity is sent to: everyone, everyone but one client, or one
/// client only.
#[derive(Clone, Copy, Debug, PartialEq, Eq, Structural)]
pub enum Scope {
    Broadcast,
    AllBut(usize),
    Only(usize),
}

/// Whether client `slot` may be sent an event of this scope.
pub open spec fn reaches(scope: Scope, slot: usize) -> bool {
    match scope {
        Scope::Broadcast => true,
        Scope::AllBut(s) => s != slot,
        Scope::Only(s) => s == slot,
    }
}

/// Whether one client's snapshot may carry a temp entity of this scope at
/// all. A broadcast one still skips the PVS cull; the scoped ones are culled
/// like any other entity once this says yes.
pub fn visible_to(scope: Scope, slot: usize) -> (r: bool)
    ensures
        r == reaches(scope, slot),
{
    match scope {
        Scope::Broadcast => true,
        Scope::AllBut(s) => s != slot,
        Scope::Only(s) => s == slot,
    }
}

/// The temp-entity block sits below `ENTITYNUM_WORLD`.
pub proof fn law_the_temp_block_ends_at_the_world()
    ensures
        TEMP_FIRST + TEMP_COUNT == ENTITYNUM_WORLD,
{
}

} // verus!
