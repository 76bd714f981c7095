//! The player animation decisions `update_anims` makes each tick: which
//! movetype the animscript sees, the latched strafe side, the jump and land
//! edges, and whether the continuous selection runs. Speeds are floating
//! point; the caller hands in whether the player moves and climbs. Picking
//! and timing the anims themselves is the animscript's work.

use vstd::prelude::*;
use crate::spectate::PmType;

verus! {

/// The player's stance.
#[derive(Clone, Copy, Debug, PartialEq, Eq, Structural)]
pub enum Stance {
    Stand,
    Crouch,
    Prone,
}

/// The animscript's `movetype` condition.
#[derive(Clone, Copy, Debug, PartialEq, Eq, Structural)]
pub enum Movetype {
    Idle,
    Run,
    RunBk,
    IdleCr,
    RunCr,
    RunCrBk,
    IdleProne,
    WalkProne,
    WalkProneBk,
    ClimbUp,
    ClimbDown,
}

/// The animscript's `strafing` side.
#[derive(Clone, Copy, Debug, PartialEq, Eq, Structural)]
pub enum Side {
    Left,
    Right,
}

/// The movetype: a climber climbs up while it is not sinking and down
/// otherwise; else the stance crossed with moving and the backpedal latch.
/// CoD 1 has no walk key, so prone moves through `walkprone`.
pub open spec fn movetype_of(
    stance: Stance,
    moving: bool,
    backwards: bool,
    on_ladder: bool,
    climbing_up: bool,
) -> Movetype {
    if on_ladder {
        if climbing_up {
            Movetype::ClimbUp
        } else {
            Movetype::ClimbDown
        }
    } else {
        match stance {
            Stance::Prone => if !moving {
                Movetype::IdleProne
            } else if backwards {
                Movetype::WalkProneBk
            } else {
                Movetype::WalkProne
            },
            Stance::Crouch => if !moving {
                Movetype::IdleCr
            } else if backwards {
                Movetype::RunCrBk
            } else {
                Movetype::RunCr
            },
            Stance::Stand => if !moving {
                Movetype::Idle
            } else if backwards {
                Movetype::RunBk
            } else {
                Movetype::Run
            },
        }
    }
}

/// The movetype of this tick. `moving` is the horizontal speed reaching the
/// idle threshold; `climbing_up` is a vertical speed that is not negative.
pub fn movetype(stance: Stance, moving: bool, backwards: bool, on_ladder: bool, climbing_up: bool) -> (r:
    Movetype)
    ensures
        r == movetype_of(stance, moving, backwards, on_ladder, climbing_up),
{
    if on_ladder {
        if climbing_up {
            Movetype::ClimbUp
        } else {
            Movetype::ClimbDown
        }
    } else {
        match stance {
            Stance::Prone => if !moving {
                Movetype::IdleProne
            } else if backwards {
                Movetype::WalkProneBk
            } else {
                Movetype::WalkProne
            },
            Stance::Crouch => if !moving {
                Movetype::IdleCr
            } else if backwards {
                Movetype::RunCrBk
            } else {
                Movetype::RunCr
            },
            Stance::Stand => if !moving {
                Movetype::Idle
            } else if backwards {
                Movetype::RunBk
            } else {
                Movetype::Run
            },
        }
    }
}

/// The strafe latch: any forward component clears it, diagonals included;
/// a cmd that is sideways only sets the side; a cmd asking for neither
/// leaves it as it was.
pub open spec fn strafe_latch_of(prev: Option<Side>, forward: i8, right: i8) -> Option<Side> {
    if forward != 0 {
        None
    } else if right != 0 {
        Some(
            if right < 0 {
                Side::Left
            } else {
                Side::Right
            },
        )
    } else {
        prev
    }
}

/// The `strafing` condition after a cmd.
pub fn strafe_latch(prev: Option<Side>, forward: i8, right: i8) -> (r: Option<Side>)
    ensures
        r == strafe_latch_of(prev, forward, right),
{
    if forward != 0 {
        None
    } else if right != 0 {
        Some(
            if right < 0 {
                Side::Left
            } else {
                Side::Right
            },
        )
    } else {
        prev
    }
}

/// The ground edge event a tick raises.
#[derive(Clone, Copy, Debug, PartialEq, Eq, Structural)]
pub enum GroundEvent {
    /// Back on the ground after a tick in the air; the legs alone.
    Land,
    /// A jump impulse taken while running forward or standing.
    Jump,
    /// A jump impulse taken while backpedalling.
    JumpBk,
}

/// The edges: a landing when on the ground after being airborne; a jump
/// when a jump impulse was taken, the player is still counted as on the
/// ground from the tick before and not on a ladder. Leaving the ground
/// without a jump (a ledge, a ladder) raises nothing.
pub open spec fn ground_event_of(
    on_ground: bool,
    was_airborne: bool,
    jumped: bool,
    on_ladder: bool,
    backwards: bool,
) -> Option<GroundEvent> {
    if on_ground && was_airborne {
        Some(GroundEvent::Land)
    } else if !on_ground && !was_airborne && jumped && !on_ladder {
        Some(
            if backwards {
                GroundEvent::JumpBk
            } else {
                GroundEvent::Jump
            },
        )
    } else {
        None
    }
}

/// Everything one tick decides about a client's animation.
#[derive(Clone, Copy, Debug, PartialEq, Eq, Structural)]
pub struct AnimPlan {
    /// The `strafing` condition to keep.
    pub strafing: Option<Side>,
    pub movetype: Movetype,
    /// The edge event to play first, if any.
    pub ground_event: Option<GroundEvent>,
    /// Whether the continuous selection runs: only on the ground or a
    /// ladder, so a jump owns the legs until the landing.
    pub select: bool,
    /// Whether the client counts as airborne on the next tick.
    pub airborne_next: bool,
}

/// `update_anims`' plan, or none for a client that is not a live player:
/// its channels keep what they hold, and its jump impulse stays pending.
pub open spec fn anim_plan_of(
    pm_type: PmType,
    dead: bool,
    stance: Stance,
    moving: bool,
    backwards: bool,
    on_ladder: bool,
    climbing_up: bool,
    on_ground: bool,
    was_airborne: bool,
    jumped: bool,
    prev_strafe: Option<Side>,
    forward: i8,
    right: i8,
) -> Option<AnimPlan> {
    if pm_type != PmType::Normal || dead {
        None
    } else {
        Some(
            AnimPlan {
                strafing: strafe_latch_of(prev_strafe, forward, right),
                movetype: movetype_of(stance, moving, backwards, on_ladder, climbing_up),
                ground_event: ground_event_of(on_ground, was_airborne, jumped, on_ladder, backwards),
                select: on_ground || on_ladder,
                airborne_next: !on_ground,
            },
        )
    }
}

/// The decisions of `update_anims` for one tick.
pub fn anim_plan(
    pm_type: PmType,
    dead: bool,
    stance: Stance,
    moving: bool,
    backwards: bool,
    on_ladder: bool,
    climbing_up: bool,
    on_ground: bool,
    was_airborne: bool,
    jumped: bool,
    prev_strafe: Option<Side>,
    forward: i8,
    right: i8,
) -> (r: Option<AnimPlan>)
    ensures
        r == anim_plan_of(
            pm_type,
            dead,
            stance,
            moving,
            backwards,
            on_ladder,
            climbing_up,
            on_ground,
            was_airborne,
            jumped,
            prev_strafe,
            forward,
            right,
        ),
{
    if pm_type != PmType::Normal || dead {
        return None;
    }
    let ground_event = if on_ground && was_airborne {
        Some(GroundEvent::Land)
    } else if !on_ground && !was_airborne && jumped && !on_ladder {
        Some(
            if backwards {
                GroundEvent::JumpBk
            } else {
                GroundEvent::Jump
            },
        )
    } else {
        None
    };
    Some(
        AnimPlan {
            strafing: strafe_latch(prev_strafe, forward, right),
            movetype: movetype(stance, moving, backwards, on_ladder, climbing_up),
            ground_event,
            select: on_ground || on_ladder,
            airborne_next: !on_ground,
        },
    )
}

/// A jump owns the legs until the landing: from the tick a jump is raised,
/// ticks spent in the air off a ladder raise no edge and run no selection,
/// and the first tick back on the ground raises the landing.
pub proof fn law_a_jump_owns_the_legs_until_the_landing(
    stance: Stance,
    moving: bool,
    backwards: bool,
    climbing_up: bool,
    jumped: bool,
    prev_strafe: Option<Side>,
    forward: i8,
    right: i8,
)
    ensures
        ({
            let air = anim_plan_of(
                PmType::Normal,
                false,
                stance,
                moving,
                backwards,
                false,
                climbing_up,
                false,
                true,
                jumped,
                prev_strafe,
                forward,
                right,
            )->0;
            let land = anim_plan_of(
                PmType::Normal,
                false,
                stance,
                moving,
                backwards,
                false,
                climbing_up,
                true,
                true,
                jumped,
                prev_strafe,
                forward,
                right,
            )->0;
            &&& air.ground_event is None && !air.select && air.airborne_next
            &&& land.ground_event == Some(GroundEvent::Land) && land.select && !land.airborne_next
        }),
{
}


/// A player who is not moving and not on a ladder plays its stance's idle,
/// whatever the backpedal latch says: the backpedal only picks the
/// backwards loop of a player that moves.
pub proof fn law_a_still_player_idles_in_its_stance(stance: Stance, backwards: bool, climbing_up: bool)
    ensures
        movetype_of(stance, false, backwards, false, climbing_up) == (match stance {
            Stance::Stand => Movetype::Idle,
            Stance::Crouch => Movetype::IdleCr,
            Stance::Prone => Movetype::IdleProne,
        }),
        movetype_of(stance, true, true, false, climbing_up) == (match stance {
            Stance::Stand => Movetype::RunBk,
            Stance::Crouch => Movetype::RunCrBk,
            Stance::Prone => Movetype::WalkProneBk,
        }),
        movetype_of(stance, true, false, false, climbing_up) == (match stance {
            Stance::Stand => Movetype::Run,
            Stance::Crouch => Movetype::RunCr,
            Stance::Prone => Movetype::WalkProne,
        }),
{
}

} // verus!
