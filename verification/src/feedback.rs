//! `P_DamageFeedback`'s bookkeeping, once per frame after the damage ops:
//! the frame's damage as `damageCount`, `damageEvent` counting up, and the
//! debounced `EV_PAIN`. The direction bytes, the view kick and the pain
//! percentage are floating point and live outside this library.

use vstd::prelude::*;

verus! {

/// The shortest gap between two `EV_PAIN` events.
pub const PAIN_DEBOUNCE_MS: i32 = 700;

/// `damageCount` is a 7-bit wire field.
pub const MAX_DAMAGE_COUNT: i32 = 127;

/// What a frame with damage writes.
#[derive(Clone, Copy, Debug, PartialEq, Eq, Structural)]
pub struct Feedback {
    /// `damageCount`: the damage as a percentage of the maximum health,
    /// capped at `MAX_DAMAGE_COUNT`.
    pub count: i32,
    /// `damageEvent`, one past the last, wrapping.
    pub event: i32,
    /// Whether an `EV_PAIN` is raised this frame.
    pub pain: bool,
    /// The time before which no further `EV_PAIN` is raised.
    pub pain_after_ms: i32,
}

/// The feedback of a frame in which `taken` damage landed, or none: a dead
/// player's feedback never runs, and neither does a frame without damage
/// or a player without a maximum health. Pain is raised once the debounce
/// time has passed on the wrapping clock, and starts a new debounce.
pub open spec fn feedback_of(
    dead: bool,
    taken: i32,
    max_health: i32,
    now_ms: i32,
    pain_after_ms: i32,
    event: i32,
) -> Option<Feedback> {
    if dead || taken <= 0 || max_health <= 0 {
        None
    } else {
        let pct = (taken * 100) / (max_health as int);
        let pain = vstd::wrapping::i32_specs::wrapping_sub(now_ms, pain_after_ms) > 0;
        Some(
            Feedback {
                count: if pct < MAX_DAMAGE_COUNT {
                    pct as i32
                } else {
                    MAX_DAMAGE_COUNT
                },
                event: vstd::wrapping::i32_specs::wrapping_add(event, 1),
                pain,
                pain_after_ms: if pain {
                    vstd::wrapping::i32_specs::wrapping_add(now_ms, PAIN_DEBOUNCE_MS)
                } else {
                    pain_after_ms
                },
            },
        )
    }
}

/// `P_DamageFeedback`'s integer half. The percentage is computed in 32
/// bits, so `taken * 100` must fit.
pub fn damage_feedback(
    dead: bool,
    taken: i32,
    max_health: i32,
    now_ms: i32,
    pain_after_ms: i32,
    event: i32,
) -> (r: Option<Feedback>)
    requires
        !dead && taken > 0 && max_health > 0 ==> taken * 100 <= i32::MAX,
    ensures
        r == feedback_of(dead, taken, max_health, now_ms, pain_after_ms, event),
{
    if dead || taken <= 0 || max_health <= 0 {
        return None;
    }
    let pct = taken * 100 / max_health;
    let pain = now_ms.wrapping_sub(pain_after_ms) > 0;
    Some(
        Feedback {
            count: if pct < MAX_DAMAGE_COUNT {
                pct
            } else {
                MAX_DAMAGE_COUNT
            },
            event: event.wrapping_add(1),
            pain,
            pain_after_ms: if pain {
                now_ms.wrapping_add(PAIN_DEBOUNCE_MS)
            } else {
                pain_after_ms
            },
        },
    )
}

/// Two pains are more than `PAIN_DEBOUNCE_MS` apart: a pain at `t` holds
/// back the pain of every damaged frame up to `t + PAIN_DEBOUNCE_MS`, away
/// from the clock's wrap.
pub proof fn law_pain_is_debounced(
    t: i32,
    later: i32,
    pain_after_ms: i32,
    taken: i32,
    max_health: i32,
    event: i32,
)
    requires
        taken > 0,
        max_health > 0,
        taken * 100 <= i32::MAX,
        t <= later <= t + PAIN_DEBOUNCE_MS,
        t + PAIN_DEBOUNCE_MS <= i32::MAX,
    ensures
        ({
            match feedback_of(false, taken, max_health, t, pain_after_ms, event) {
                Some(f) => f.pain ==> !feedback_of(
                    false,
                    taken,
                    max_health,
                    later,
                    f.pain_after_ms,
                    f.event,
                )->0.pain,
                None => true,
            }
        }),
{
}

} // verus!
