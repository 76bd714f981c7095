//! The scripted test entities that exist only to drive the packet-entity
//! wire path: which entity numbers they take, which of them are on the wire
//! at a given server time, and when their trajectory restarts. Where they
//! are is the wire encoder's business.

use vstd::prelude::*;
use crate::temp_entity::ENTITYNUM_WORLD;

verus! {

/// Test entity numbers start here, clear of the client slots of any run up
/// to 32 clients.
pub const FIRST_TEST_ENT: u32 = 32;

/// The last test entity vanishes for `GONE_MS` out of every `CYCLE_MS`.
pub const CYCLE_MS: i32 = 8000;
pub const GONE_MS: i32 = 2000;

/// The trajectory restarts every lap, so `pos.trTime` changes on the wire
/// while `pos.trBase` stays put.
pub const LAP_MS: i32 = 4000;

/// The highest test entity count that keeps every number below
/// `ENTITYNUM_WORLD`; past it the highest-numbered entity collides with the
/// reserved world slot.
pub const MAX_TEST_ENTITIES: usize = 990;

/// `MAX_TEST_ENTITIES` entities take every number from `FIRST_TEST_ENT` up
/// to `ENTITYNUM_WORLD - 1`, and one more would take `ENTITYNUM_WORLD`.
pub proof fn law_max_test_entities_ends_below_the_world()
    ensures
        FIRST_TEST_ENT + MAX_TEST_ENTITIES - 1 == ENTITYNUM_WORLD - 1,
        FIRST_TEST_ENT + (MAX_TEST_ENTITIES + 1) - 1 == ENTITYNUM_WORLD,
{
}

/// Whether the `--test-entities` count passes the startup check.
pub fn test_entities_fit(count: usize) -> (r: bool)
    ensures
        r == (count <= MAX_TEST_ENTITIES),
{
    count <= MAX_TEST_ENTITIES
}

/// Whether the last test entity is off the wire at `t`: the last `GONE_MS`
/// of each `CYCLE_MS`, counted from zero on the Euclidean remainder.
pub open spec fn cycled_out(t: i32) -> bool {
    t % CYCLE_MS >= CYCLE_MS - GONE_MS
}

/// The numbers of the first `n` test entities, in order.
pub open spec fn numbers_of(n: int) -> Seq<u32> {
    Seq::new(n as nat, |i: int| (FIRST_TEST_ENT + i) as u32)
}

/// The test entities on the wire at `t`: all `count` of them, less the
/// last one while it is cycled out.
pub open spec fn present_numbers(count: int, t: i32) -> Seq<u32> {
    if cycled_out(t) && count > 0 {
        numbers_of(count - 1)
    } else {
        numbers_of(count)
    }
}

fn numbers(n: usize) -> (r: Vec<u32>)
    requires
        FIRST_TEST_ENT + n <= u32::MAX,
    ensures
        r@ == numbers_of(n as int),
{
    let mut out: Vec<u32> = Vec::new();
    let mut i: usize = 0;
    while i < n
        invariant
            i <= n,
            FIRST_TEST_ENT + n <= u32::MAX,
            out@ == numbers_of(i as int),
        decreases n - i,
    {
        out.push(FIRST_TEST_ENT + i as u32);
        assert(out@ =~= numbers_of(i + 1));
        i = i + 1;
    }
    out
}

/// The entity numbers that get a baseline in the gamestate: every test
/// entity's.
pub fn baseline_numbers(count: usize) -> (r: Vec<u32>)
    requires
        FIRST_TEST_ENT + count <= u32::MAX,
    ensures
        r@ == numbers_of(count as int),
{
    numbers(count)
}

/// The test entity numbers on the wire at server time `t`, ascending.
pub fn present_at(count: usize, t: i32) -> (r: Vec<u32>)
    requires
        FIRST_TEST_ENT + count <= u32::MAX,
    ensures
        r@ == present_numbers(count as int, t),
{
    let phase = match t.checked_rem_euclid(CYCLE_MS) {
        Some(p) => p,
        None => 0,
    };
    if phase >= CYCLE_MS - GONE_MS && count > 0 {
        numbers(count - 1)
    } else {
        numbers(count)
    }
}

/// `pos.trTime` at `t`: the start of the current lap, the last multiple of
/// `LAP_MS` at or before `t`, on the wrapping clock.
pub open spec fn lap_start(t: i32) -> i32 {
    vstd::wrapping::i32_specs::wrapping_sub(t, (t % LAP_MS) as i32)
}

/// `pos.trTime` of every test entity at `t`.
pub fn trajectory_start(t: i32) -> (r: i32)
    ensures
        r == lap_start(t),
{
    let phase = match t.checked_rem_euclid(LAP_MS) {
        Some(p) => p,
        None => 0,
    };
    t.wrapping_sub(phase)
}

} // verus!
