use vcod_server::level::{
    loading_notice_slots, reentry_slots, restart_action, spawn_precheck, ChangedCvar, ClientState,
    KeptReason, RestartAction,
};

/// A restart on a frame no spawn or restart has run, with the level loaded
/// as dm for 4 clients.
fn restart_with(pending_gametype: &str, pending_max_clients: &str) -> RestartAction {
    restart_action(Some(950), 1000, true, true, false, Some(("dm", "4")), pending_gametype, pending_max_clients)
}

#[test]
fn a_second_restart_in_one_frame_is_a_no_op() {
    // The first restart of the frame goes through in place ...
    assert_eq!(restart_with("dm", "4"), RestartAction::InPlace);
    // ... and stamps the frame, so the second one queued behind it does
    // nothing, however the cvars stand.
    let second = restart_action(Some(1000), 1000, true, true, false, Some(("dm", "4")), "tdm", "8");
    assert_eq!(second, RestartAction::NoOp, "the second restart in the frame was not a no-op");
}

#[test]
fn a_restart_straight_after_a_spawn_is_a_no_op() {
    assert_eq!(
        restart_action(Some(2000), 2000, true, true, false, None, "dm", "4"),
        RestartAction::NoOp
    );
}

#[test]
fn a_gametype_change_escalates_a_restart_to_a_spawn() {
    // No change yet: the plain restart path.
    assert_eq!(restart_with("dm", "4"), RestartAction::InPlace);
    // The rotation's `gametype` token, then a restart: the level is still
    // running dm, so this escalates.
    assert_eq!(
        restart_with("tdm", "4"),
        RestartAction::Escalate(ChangedCvar::Gametype),
        "a gametype change did not escalate to a spawn"
    );
}

#[test]
fn a_max_clients_change_escalates_a_restart_to_a_spawn() {
    assert_eq!(restart_with("dm", "8"), RestartAction::Escalate(ChangedCvar::MaxClients));
    // The gametype is checked first.
    assert_eq!(restart_with("sd", "8"), RestartAction::Escalate(ChangedCvar::Gametype));
}

#[test]
fn a_set_override_of_sv_maxclients_is_not_a_gametype_change() {
    // `--max-clients 4 --set sv_maxclients=8`: the level loaded with 8 and
    // the next load stamps 8 again, so the restart stays in place.
    let r = restart_action(Some(950), 1000, true, true, false, Some(("dm", "8")), "dm", "8");
    assert_eq!(r, RestartAction::InPlace, "the override escalated a restart to a spawn");
}

#[test]
fn a_level_that_keeps_its_persistence_restarts_in_place() {
    let r = restart_action(Some(950), 1000, true, true, true, Some(("dm", "4")), "tdm", "8");
    assert_eq!(r, RestartAction::InPlace);
}

#[test]
fn a_restart_with_no_level_or_no_paks_does_nothing() {
    assert_eq!(
        restart_action(None, 1000, false, true, false, None, "dm", "4"),
        RestartAction::NotRunning
    );
    assert_eq!(
        restart_action(None, 1000, true, false, false, Some(("dm", "4")), "tdm", "4"),
        RestartAction::NoPaks
    );
}

#[test]
fn a_primed_client_is_not_re_entered_by_a_restart() {
    let states = vec![
        Some(ClientState::Primed),
        None,
        Some(ClientState::Active),
        Some(ClientState::Connected),
        Some(ClientState::Active),
    ];
    assert_eq!(reentry_slots(&states), vec![2, 4], "the restart entered a primed client");
}

#[test]
fn a_spawn_tells_every_client_with_a_gamestate() {
    let states = vec![
        Some(ClientState::Connected),
        Some(ClientState::Primed),
        None,
        Some(ClientState::Active),
    ];
    assert_eq!(loading_notice_slots(&states), vec![1, 3]);
    assert_eq!(loading_notice_slots(&vec![None, None]), Vec::<usize>::new());
}

#[test]
fn a_load_that_fails_before_the_teardown_keeps_the_level() {
    assert_eq!(spawn_precheck(true, true, true, true), Ok(()));
    assert_eq!(spawn_precheck(false, false, false, false), Err(KeptReason::NoPaks));
    // A map the paks do not have.
    assert_eq!(spawn_precheck(true, false, true, true), Err(KeptReason::MapNotFound));
    assert_eq!(spawn_precheck(true, true, false, false), Err(KeptReason::Unreadable));
    assert_eq!(spawn_precheck(true, true, true, false), Err(KeptReason::Unparsable));
}
