use vcod_server::session::{
    acks_in_range, command_gate, command_kind, delta_base_usable, flood_exempt, flood_gate,
    plan_client_command, queue_moves, server_id_action, split_command, userinfo_arg,
    CommandGate, CommandKind, ServerIdAction, FLOOD_WINDOW_MS, MAX_PENDING_CMDS,
};

/// `messageAcknowledge` must name a message the server sent, and
/// `reliableAcknowledge` must be within one ring of the last command.
#[test]
fn a_message_with_an_out_of_range_reliable_acknowledge_is_ignored() {
    assert!(acks_in_range(3, 4, 10, 10));
    assert!(acks_in_range(0, 1, 0, 0));
    assert!(!acks_in_range(-1, 4, 0, 0), "negative messageAcknowledge");
    assert!(!acks_in_range(4, 4, 0, 0), "a message never sent");
    assert!(!acks_in_range(0, 4, -1, 0), "negative reliableAcknowledge");
    assert!(!acks_in_range(0, 4, 11, 10), "ahead of the last command");
    assert!(acks_in_range(0, 4, 37, 100), "63 behind is still inside the ring");
    assert!(!acks_in_range(0, 4, 36, 100), "64 behind is a whole ring");
    assert!(!acks_in_range(0, 4, i32::MIN, i32::MAX));
}

/// The high nibble of the serverId counts map loads, the low one restarts.
#[test]
fn a_stale_server_id_resends_the_gamestate_or_enters_the_world() {
    assert_eq!(server_id_action(0x21, 0x21, 5, 3, false), ServerIdAction::Current);
    // Another map load: a gamestate once the ack is past the last one.
    assert_eq!(
        server_id_action(0x10, 0x21, 5, 3, false),
        ServerIdAction::ResendGamestate
    );
    assert_eq!(server_id_action(0x10, 0x21, 3, 3, true), ServerIdAction::Ignore);
    // A fresh client sends serverId 0, which is another map load.
    assert_eq!(server_id_action(0, 0x21, 1, 0, false), ServerIdAction::ResendGamestate);
    // Another restart of the same load: a primed client enters the world.
    assert_eq!(server_id_action(0x20, 0x21, 0, 9, true), ServerIdAction::EnterWorld);
    assert_eq!(server_id_action(0x20, 0x21, 0, 9, false), ServerIdAction::Ignore);
}

#[test]
fn a_gap_in_the_client_command_sequence_drops_the_client() {
    assert_eq!(command_gate(5, 4), CommandGate::Next);
    assert_eq!(command_gate(4, 4), CommandGate::Seen);
    assert_eq!(command_gate(1, 4), CommandGate::Seen);
    assert_eq!(command_gate(6, 4), CommandGate::Lost);
    assert_eq!(command_gate(i32::MAX, i32::MAX), CommandGate::Seen);
    assert_eq!(command_gate(i32::MIN + 1, i32::MIN), CommandGate::Next);
}

/// The exemptions are prefix compares with the space: a bare `score` is not
/// one of them.
#[test]
fn team_score_and_mr_with_arguments_skip_the_flood_window() {
    assert!(flood_exempt("team allies"));
    assert!(flood_exempt("score "));
    assert!(flood_exempt("mr 7 3 allies"));
    assert!(!flood_exempt("score"));
    assert!(!flood_exempt("kill"));
    assert!(!flood_exempt("teams"));
}

#[test]
fn a_non_exempt_command_opens_an_800_ms_window() {
    // Outside the window: passes, and a new window opens.
    assert_eq!(flood_gate(false, true, 1000, 900), (true, 1000 + FLOOD_WINDOW_MS));
    // Inside it, an active client's command is held back, and the window
    // still moves on.
    assert_eq!(flood_gate(false, true, 1000, 1500), (false, 1800));
    // A client not yet active is never held back.
    assert_eq!(flood_gate(false, false, 1000, 1500), (true, 1800));
    // An exempt command neither waits nor moves the window.
    assert_eq!(flood_gate(true, true, 1000, 1500), (true, 1500));
    // The window end wraps with the server clock.
    assert_eq!(flood_gate(false, false, i32::MAX, 0), (true, i32::MIN + 799));
}

#[test]
fn a_command_splits_at_its_first_whitespace() {
    assert_eq!(
        split_command("  userinfo \"\\name\\x\""),
        ("userinfo".to_string(), "\"\\name\\x\"".to_string())
    );
    assert_eq!(split_command("score"), ("score".to_string(), String::new()));
    assert_eq!(split_command("mr\t7 3"), ("mr".to_string(), "7 3".to_string()));
    assert_eq!(split_command("kill  "), ("kill".to_string(), " ".to_string()));
    assert_eq!(split_command(""), (String::new(), String::new()));
    assert_eq!(split_command("   "), (String::new(), String::new()));
}

#[test]
fn the_command_words_the_server_acts_on() {
    assert_eq!(command_kind("disconnect"), CommandKind::Disconnect);
    assert_eq!(command_kind("userinfo"), CommandKind::Userinfo);
    assert_eq!(command_kind("score"), CommandKind::Score);
    assert_eq!(command_kind("kill"), CommandKind::Kill);
    assert_eq!(command_kind("mr"), CommandKind::MenuResponse);
    assert_eq!(command_kind("say"), CommandKind::Other);
    assert_eq!(command_kind("Kill"), CommandKind::Other);
}

/// A held-back command is still recorded as executed; the engine's own two
/// commands run inside the window all the same.
#[test]
fn the_engine_commands_run_inside_the_flood_window() {
    let p = plan_client_command(5, 4, "kill", true, 1000, 1500);
    assert_eq!(p.gate, CommandGate::Next);
    assert!(!p.run);
    assert_eq!(p.kind, CommandKind::Kill);
    assert_eq!(p.window_end_ms, 1800);

    let p = plan_client_command(5, 4, "disconnect", true, 1000, 1500);
    assert!(p.run);
    assert_eq!(p.kind, CommandKind::Disconnect);

    let p = plan_client_command(5, 4, " score 1", true, 1000, 1500);
    assert!(p.run, "an exempt score runs");
    assert_eq!(p.window_end_ms, 1500);

    let p = plan_client_command(4, 4, "kill", true, 1000, 1500);
    assert_eq!(p.gate, CommandGate::Seen);
    assert!(!p.run);
    assert_eq!(p.window_end_ms, 1500);

    let p = plan_client_command(9, 4, "kill", true, 1000, 0);
    assert_eq!(p.gate, CommandGate::Lost);
    assert!(!p.run);
}

#[test]
fn a_userinfo_loses_its_whitespace_and_quotes() {
    assert_eq!(userinfo_arg(" \"\\name\\vcod\" \n"), "\\name\\vcod");
    assert_eq!(userinfo_arg("\"\"\\name\\x\"\""), "\\name\\x");
    assert_eq!(userinfo_arg("\" spaced \""), " spaced ");
    assert_eq!(userinfo_arg("\"\"\""), "");
    assert_eq!(userinfo_arg(""), "");
}

/// A flood past the cap drops the oldest cmds, not the newest.
#[test]
fn a_move_flood_keeps_the_newest_cmds() {
    let mut pending: Vec<i32> = (0..60).collect();
    queue_moves(&mut pending, vec![60, 61, 62]);
    assert_eq!(pending.len(), 63);
    queue_moves(&mut pending, (63..70).collect());
    assert_eq!(pending.len(), MAX_PENDING_CMDS);
    assert_eq!(pending[0], 6);
    assert_eq!(*pending.last().unwrap(), 69);
    let mut empty: Vec<i32> = Vec::new();
    queue_moves(&mut empty, Vec::new());
    assert!(empty.is_empty());
}

/// A delta base must be 1 to 255 messages back.
#[test]
fn only_a_base_within_a_byte_of_deltas_is_used() {
    assert!(delta_base_usable(10, 9));
    assert!(delta_base_usable(300, 45));
    assert!(!delta_base_usable(300, 44));
    assert!(!delta_base_usable(10, 10));
    assert!(!delta_base_usable(10, 11));
}
