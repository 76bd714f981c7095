use vcod_server::anim::{
    anim_plan, movetype, strafe_latch, AnimPlan, GroundEvent, Movetype, Side, Stance,
};
use vcod_server::spectate::PmType;

/// One tick of a live player standing still, with the ground flags given.
fn tick(on_ground: bool, was_airborne: bool, jumped: bool, on_ladder: bool) -> AnimPlan {
    anim_plan(
        PmType::Normal,
        false,
        Stance::Stand,
        false,
        false,
        on_ladder,
        false,
        on_ground,
        was_airborne,
        jumped,
        None,
        0,
        0,
    )
    .unwrap()
}

#[test]
fn the_movetype_crosses_the_stance_with_moving_and_the_backpedal() {
    assert_eq!(movetype(Stance::Stand, false, false, false, false), Movetype::Idle);
    assert_eq!(movetype(Stance::Stand, true, false, false, false), Movetype::Run);
    assert_eq!(movetype(Stance::Stand, true, true, false, false), Movetype::RunBk);
    assert_eq!(movetype(Stance::Crouch, false, true, false, false), Movetype::IdleCr);
    assert_eq!(movetype(Stance::Crouch, true, false, false, false), Movetype::RunCr);
    assert_eq!(movetype(Stance::Crouch, true, true, false, false), Movetype::RunCrBk);
    assert_eq!(movetype(Stance::Prone, false, false, false, false), Movetype::IdleProne);
    assert_eq!(movetype(Stance::Prone, true, false, false, false), Movetype::WalkProne);
    assert_eq!(movetype(Stance::Prone, true, true, false, false), Movetype::WalkProneBk);
}

#[test]
fn a_ladder_climbs_rather_than_freezing() {
    let start = tick(true, false, false, false);
    assert!(start.select);
    // Off the ground onto a ladder, rising: the selection still runs, and
    // it climbs up.
    let up = anim_plan(
        PmType::Normal, false, Stance::Stand, false, false, true, true, false, false, false, None, 0, 0,
    )
    .unwrap();
    assert!(up.select);
    assert_eq!(up.movetype, Movetype::ClimbUp);
    assert_eq!(up.ground_event, None);
    // Sinking: down.
    let down = anim_plan(
        PmType::Normal, false, Stance::Stand, false, false, true, false, false, true, false, None, 0, 0,
    )
    .unwrap();
    assert_eq!(down.movetype, Movetype::ClimbDown);
}

#[test]
fn a_jump_owns_the_legs_until_the_landing() {
    let standing = tick(true, false, false, false);
    assert_eq!(standing.ground_event, None);
    assert!(standing.select);
    assert_eq!(standing.movetype, Movetype::Idle);

    let takeoff = tick(false, standing.airborne_next, true, false);
    assert_eq!(takeoff.ground_event, Some(GroundEvent::Jump));
    let mut airborne = takeoff.airborne_next;
    for _ in 0..4 {
        let flight = tick(false, airborne, true, false);
        assert_eq!(flight.ground_event, None, "the flight raised an edge");
        assert!(!flight.select, "the flight kept selecting");
        airborne = flight.airborne_next;
    }
    let land = tick(true, airborne, false, false);
    assert_eq!(land.ground_event, Some(GroundEvent::Land));
    assert!(land.select);
    assert!(!land.airborne_next);
}

#[test]
fn running_off_a_ledge_keeps_the_run_loop() {
    let run = anim_plan(
        PmType::Normal, false, Stance::Stand, true, false, false, false, true, false, false, None, 127, 0,
    )
    .unwrap();
    assert_eq!(run.movetype, Movetype::Run);
    let mut airborne = run.airborne_next;
    for _ in 0..4 {
        let fall = anim_plan(
            PmType::Normal, false, Stance::Stand, true, false, false, false, false, airborne, false, None,
            127, 0,
        )
        .unwrap();
        assert_eq!(fall.ground_event, None, "a fall raised an edge");
        assert!(!fall.select, "the fall changed the anim");
        airborne = fall.airborne_next;
    }
}

#[test]
fn a_backwards_crouched_jump_raises_jumpbk() {
    let back = anim_plan(
        PmType::Normal, false, Stance::Crouch, true, true, false, false, true, false, false, None, -127, 0,
    )
    .unwrap();
    assert_eq!(back.movetype, Movetype::RunCrBk);
    let jump = anim_plan(
        PmType::Normal, false, Stance::Crouch, true, true, false, false, false, false, true, None, -127, 0,
    )
    .unwrap();
    assert_eq!(
        jump.ground_event,
        Some(GroundEvent::JumpBk),
        "`jump` would have given the standing takeoff"
    );
}

#[test]
fn a_cmd_asking_for_nothing_leaves_the_strafe_condition_alone() {
    let s = strafe_latch(None, 0, 127);
    assert_eq!(s, Some(Side::Right));
    let s = strafe_latch(s, 0, 0);
    assert_eq!(s, Some(Side::Right));
    // Any forward component clears it, a diagonal included.
    assert_eq!(strafe_latch(s, 127, 127), None);
    assert_eq!(strafe_latch(Some(Side::Right), 0, -127), Some(Side::Left));
}

#[test]
fn a_player_not_in_the_world_gets_no_plan() {
    let none = |mode: PmType, dead: bool| {
        anim_plan(mode, dead, Stance::Stand, false, false, false, false, true, false, true, None, 0, 0)
    };
    assert_eq!(none(PmType::Spectator, false), None);
    assert_eq!(none(PmType::Intermission, false), None);
    assert_eq!(none(PmType::Normal, true), None);
    assert!(none(PmType::Normal, false).is_some());
}
