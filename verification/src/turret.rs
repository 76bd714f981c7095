//! The turret record's stance: `rec+0x20`, 0 stand, 1 duck, 2 prone, from
//! the weapon file's `stance` key. The arcs and the barrel sweep are
//! floating point and live outside this library.

use vstd::prelude::*;
use crate::text::str_eq;

verus! {

/// The stance a turret's gunner takes.
#[derive(Clone, Copy, Debug, PartialEq, Eq, Structural)]
pub enum TurretStance {
    Stand,
    Duck,
    Prone,
}

/// The stance a weapon file's `stance` value names: `prone`, `duck` or its
/// synonym `crouch`, and standing for anything else or no key at all.
pub open spec fn stance_of(key: Option<Seq<char>>) -> TurretStance {
    match key {
        Some(v) => if v == "prone"@ {
            TurretStance::Prone
        } else if v == "duck"@ || v == "crouch"@ {
            TurretStance::Duck
        } else {
            TurretStance::Stand
        },
        None => TurretStance::Stand,
    }
}

/// The wire number of a stance.
pub open spec fn stance_number_of(s: TurretStance) -> u8 {
    match s {
        TurretStance::Stand => 0,
        TurretStance::Duck => 1,
        TurretStance::Prone => 2,
    }
}

impl TurretStance {
    /// The stance the weapon file's `stance` key names.
    pub fn from_key(key: Option<&str>) -> (r: TurretStance)
        ensures
            r == stance_of(
                match key {
                    Some(v) => Some(v@),
                    None => None,
                },
            ),
    {
        match key {
            Some(v) => if str_eq(v, "prone") {
                TurretStance::Prone
            } else if str_eq(v, "duck") || str_eq(v, "crouch") {
                TurretStance::Duck
            } else {
                TurretStance::Stand
            },
            None => TurretStance::Stand,
        }
    }

    /// `rec+0x20`: 0 stand, 1 duck, 2 prone.
    pub fn number(&self) -> (r: u8)
        ensures
            r == stance_number_of(*self),
    {
        match self {
            TurretStance::Stand => 0,
            TurretStance::Duck => 1,
            TurretStance::Prone => 2,
        }
    }
}

} // verus!
