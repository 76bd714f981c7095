use vcod_server::server::{
    absorb_load, challenge_arg, oob_arg, parse_menu_response, LoadFailure, ServerConfig,
    MAX_CLIENTS,
};

/// `mr <serverId> <menuIndex> <response>`, exactly four arguments. The
/// response comes back verbatim.
#[test]
fn mr_needs_four_args_a_live_serverid_and_a_bounded_index() {
    assert_eq!(
        parse_menu_response("mr 7 3 allies", 7),
        Some((3, "allies".to_string()))
    );
    assert_eq!(
        parse_menu_response("mr 7 0 mosin_nagant_mp", 7),
        Some((0, "mosin_nagant_mp".to_string())),
        "a weapon response is a string, not a token the server knows"
    );
    assert!(parse_menu_response("mr 6 3 allies", 7).is_none(), "stale serverId");
    assert!(parse_menu_response("mr 7 32 allies", 7).is_none(), "index out of range");
    assert!(parse_menu_response("mr 7 3", 7).is_none(), "three args");
    assert!(
        parse_menu_response("mr 7 3 allies extra", 7).is_none(),
        "five args"
    );
}

#[test]
fn a_menu_response_takes_any_whitespace_and_the_last_menu() {
    assert_eq!(
        parse_menu_response("  mr\t7  31 axis ", 7),
        Some((31, "axis".to_string()))
    );
    assert!(parse_menu_response("mr 7 -1 axis", 7).is_none());
    assert!(parse_menu_response("score 7 3 axis", 7).is_none());
    assert!(parse_menu_response("mr x 3 axis", 7).is_none());
    assert!(parse_menu_response("", 7).is_none());
}

/// The challenge token loses the info separators and is cut at 32 bytes.
#[test]
fn getinfo_sanitizes_the_challenge_argument() {
    assert_eq!(challenge_arg("a\\pure\\1 extra"), "apure1");
    assert_eq!(challenge_arg("4242"), "4242");
    assert_eq!(challenge_arg("\"quoted\""), "quoted");
    assert_eq!(challenge_arg(""), "");
    assert_eq!(challenge_arg("   "), "");
    let long = "x".repeat(40);
    assert_eq!(challenge_arg(&long), "x".repeat(32));
    // A character that would straddle the cap is dropped whole.
    let wide = format!("{}é", "y".repeat(31));
    assert_eq!(challenge_arg(&wide), "y".repeat(31));
}

/// An OOB argument loses its trailing line terminators and NULs only.
#[test]
fn an_oob_argument_loses_its_line_terminator() {
    assert_eq!(oob_arg(b"4242\n"), "4242");
    assert_eq!(oob_arg(b"4242\n\0"), "4242");
    assert_eq!(oob_arg(b"a\nb"), "a\nb");
    assert_eq!(oob_arg(b"x\n\0\n"), "x");
    assert_eq!(oob_arg(b" x \n"), " x ");
    assert_eq!(oob_arg(b"\nx"), "\nx");
    assert_eq!(oob_arg(b""), "");
    assert_eq!(oob_arg(&[0x66, 0xff]), "f\u{fffd}");
}

fn cfg(max_clients: usize) -> ServerConfig {
    ServerConfig {
        map: "mp_carentan".into(),
        hostname: "vcod test".into(),
        max_clients,
        gametype: "dm".into(),
        test_entities: 0,
        trace: false,
        bots: 0,
        bots_shoot: false,
    }
}

#[test]
fn a_server_opens_at_most_max_clients_slots() {
    assert_eq!(cfg(4).client_slots(), 4);
    assert_eq!(cfg(64).client_slots(), 64);
    assert_eq!(cfg(200).client_slots(), MAX_CLIENTS);
}

/// A refused load leaves the level serving; a fatal one hands back the
/// error that ends the process; a load that worked changes nothing.
#[test]
fn a_failed_load_is_fatal_only_once_the_level_is_gone() {
    let (go_on, err) = absorb_load("map", Ok(()));
    assert!(go_on && err.is_none());

    let kept = LoadFailure::KeptLevel(anyhow::Error::msg("no such map"));
    assert!(kept.kept_level());
    let (go_on, err) = absorb_load("map mp_nowhere", Err(kept));
    assert!(go_on && err.is_none());

    let fatal = LoadFailure::Fatal(anyhow::Error::msg("script error"));
    assert!(!fatal.kept_level());
    let (go_on, err) = absorb_load("map_restart", Err(fatal));
    assert!(!go_on);
    let err = err.unwrap();
    assert_eq!(err.to_string(), "map_restart");
    assert_eq!(err.root_cause().to_string(), "script error");
}
