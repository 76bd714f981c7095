//! What the combat pass makes of a replayed move's weapon events: which
//! attack an event queues, and when a clip-only weapon is taken away.

use vstd::prelude::*;
use crate::text::str_eq;

verus! {

/// The weapon events of a replayed move that reach the combat pass.
#[derive(Clone, Copy, Debug, PartialEq, Eq, Structural)]
pub enum WeaponEvent {
    /// `EV_FIRE_WEAPON`.
    Fire,
    /// `EV_FIRE_WEAPON_LASTSHOT`.
    FireLastShot,
    /// `EV_FIRE_MELEE`, the swing's damage frame.
    FireMelee,
    /// Any other event.
    Other,
}

/// What the combat pass does with a weapon event.
#[derive(Clone, Copy, Debug, PartialEq, Eq, Structural)]
pub enum AttackKind {
    /// A bullet trace.
    Shot,
    /// A melee trace.
    Swing,
    /// A grenade leaving the hand; the event's parm is the fuse left.
    Throw,
}

/// A fire event is a throw for a weapon whose file says `grenade` and a
/// shot for any other (a weapon with no file included); the melee event is
/// a swing; nothing else attacks.
pub open spec fn attack_of(event: WeaponEvent, weapon_type: Option<Seq<char>>) -> Option<AttackKind> {
    match event {
        WeaponEvent::Fire | WeaponEvent::FireLastShot => if weapon_type == Some("grenade"@) {
            Some(AttackKind::Throw)
        } else {
            Some(AttackKind::Shot)
        },
        WeaponEvent::FireMelee => Some(AttackKind::Swing),
        WeaponEvent::Other => None,
    }
}

/// The attack a replayed weapon event queues, given the held weapon's
/// `weaponType` (none when the weapon has no file).
pub fn attack_kind(event: WeaponEvent, weapon_type: Option<&str>) -> (r: Option<AttackKind>)
    ensures
        r == attack_of(
            event,
            match weapon_type {
                Some(t) => Some(t@),
                None => None,
            },
        ),
{
    match event {
        WeaponEvent::Fire | WeaponEvent::FireLastShot => {
            let grenade = match weapon_type {
                Some(t) => str_eq(t, "grenade"),
                None => false,
            };
            if grenade {
                Some(AttackKind::Throw)
            } else {
                Some(AttackKind::Shot)
            }
        },
        WeaponEvent::FireMelee => Some(AttackKind::Swing),
        WeaponEvent::Other => None,
    }
}

/// A `clipOnly` weapon with nothing left is taken away on its last shot;
/// a dry trigger's `EV_NOAMMO` keeps it. `clip_only_ammo_left` is the
/// reserve left when the weapon's file says `clipOnly`, none otherwise or
/// without a file.
pub open spec fn takes_empty_weapon_of(event: WeaponEvent, clip_only_ammo_left: Option<i32>) -> bool {
    event == WeaponEvent::FireLastShot && clip_only_ammo_left == Some(0i32)
}

/// Whether this event takes the held weapon away.
pub fn takes_empty_weapon(event: WeaponEvent, clip_only_ammo_left: Option<i32>) -> (r: bool)
    ensures
        r == takes_empty_weapon_of(event, clip_only_ammo_left),
{
    match (event, clip_only_ammo_left) {
        (WeaponEvent::FireLastShot, Some(left)) => left == 0,
        _ => false,
    }
}

} // verus!