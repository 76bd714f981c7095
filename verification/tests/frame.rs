use vcod_server::configstrings::changed_configstrings;
use vcod_server::frame::{
    configstring_command, configstring_updates, frame_commands, intermission_watchers,
};
use vcod_server::level::ClientState;
use vcod_server::spectate::PmType;

fn table(n: usize) -> Vec<String> {
    vec![String::new(); n]
}

#[test]
fn a_configstring_update_names_the_index_and_the_text() {
    assert_eq!(configstring_command(525, "MP_announcer_allies_win"), "d 525 MP_announcer_allies_win");
    assert_eq!(configstring_command(0, ""), "d 0 ");
}

#[test]
fn the_configstring_broadcast_skips_a_client_with_no_gamestate() {
    let sent = table(600);
    let mut current = table(600);
    current[524] = "MP_announcer_allies_win".to_string();
    let changed = changed_configstrings(&sent, &current);
    assert_eq!(changed, vec![524]);
    let states = vec![Some(ClientState::Connected)];
    assert!(
        configstring_updates(&states, &changed, &current).is_empty(),
        "a client with no gamestate was sent a `d`"
    );

    // The same slot moving again once the gamestate has gone out does reach
    // it, so the skip above is the state and not the diff.
    let sent = current.clone();
    current[524] = "MP_announcer_axis_win".to_string();
    let changed = changed_configstrings(&sent, &current);
    let states = vec![Some(ClientState::Primed)];
    let out = configstring_updates(&states, &changed, &current);
    assert_eq!(out, vec![(0, "d 524 MP_announcer_axis_win".to_string())]);
}

#[test]
fn a_configstring_allocated_mid_level_reaches_a_connected_client() {
    let sent = table(600);
    let mut current = table(600);
    current[525] = "MP_announcer_allies_win".to_string();
    let changed = changed_configstrings(&sent, &current);
    let states = vec![Some(ClientState::Active)];
    let client_commands = vec![(0, "s 1".to_string())];
    let seen = frame_commands(&states, &changed, &current, &client_commands, false, &vec![], "");
    let d = seen
        .iter()
        .position(|c| c.1 == "d 525 MP_announcer_allies_win")
        .unwrap_or_else(|| panic!("no `d 525` in {seen:?}"));
    let s = seen
        .iter()
        .position(|c| c.1 == "s 1")
        .unwrap_or_else(|| panic!("no `s 1` in {seen:?}"));
    assert!(d < s, "the announcer's `s 1` came before its `d 525`: {seen:?}");
}

#[test]
fn every_client_with_a_table_gets_every_change_in_order() {
    let mut t = table(10);
    t[3] = "a".to_string();
    t[7] = "b".to_string();
    let states = vec![
        Some(ClientState::Active),
        None,
        Some(ClientState::Connected),
        Some(ClientState::Primed),
    ];
    let out = configstring_updates(&states, &vec![3, 7, 12], &t);
    let want: Vec<(usize, String)> = vec![
        (0, "d 3 a".to_string()),
        (0, "d 7 b".to_string()),
        (0, "d 12 ".to_string()),
        (3, "d 3 a".to_string()),
        (3, "d 7 b".to_string()),
        (3, "d 12 ".to_string()),
    ];
    assert_eq!(out, want);
}

#[test]
fn the_scoreboard_goes_to_intermission_watchers_only_when_a_score_moved() {
    let modes = vec![
        Some(PmType::Intermission),
        Some(PmType::Normal),
        None,
        Some(PmType::Intermission),
        Some(PmType::Spectator),
    ];
    assert_eq!(intermission_watchers(true, &modes), vec![0, 3]);
    assert_eq!(intermission_watchers(false, &modes), Vec::<usize>::new());

    let states = vec![Some(ClientState::Active); 5];
    let out = frame_commands(&states, &vec![], &table(4), &vec![(1, "s 2".to_string())], true, &modes, "b 0 0 0");
    assert_eq!(
        out,
        vec![(1, "s 2".to_string()), (0, "b 0 0 0".to_string()), (3, "b 0 0 0".to_string())]
    );
    let quiet = frame_commands(&states, &vec![], &table(4), &vec![], false, &modes, "b 0 0 0");
    assert!(quiet.is_empty());
}
