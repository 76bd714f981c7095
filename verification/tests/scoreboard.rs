use vcod_server::scoreboard::{
    field_number, push_decimal, scoreboard_text, status_icon_index, ScoreRow,
};

/// Tokens 2 and 3 are the team scores, axis before allies.
#[test]
fn the_scoreboard_carries_the_team_scores_axis_first() {
    assert_eq!(scoreboard_text(3, -9999, &vec![]), "b 0 3 -9999");
}

/// One client with nothing set: row count 1, both team scores 0, then the
/// row `0 0 0 0 0`.
#[test]
fn a_score_request_gets_a_deathmatch_scoreboard() {
    let rows = vec![ScoreRow { slot: 0, score: 0, deaths: 0, icon: 0 }];
    assert!(scoreboard_text(0, 0, &rows).starts_with("b 1 0 0 0 0 0 0 0"));
}

#[test]
fn each_row_is_slot_score_ping_deaths_icon() {
    let rows = vec![
        ScoreRow { slot: 2, score: 15, deaths: 3, icon: 1 },
        ScoreRow { slot: 10, score: -2, deaths: 120, icon: 0 },
    ];
    assert_eq!(scoreboard_text(7, 12, &rows), "b 2 7 12 2 15 0 3 1 10 -2 0 120 0");
}

#[test]
fn integers_render_as_format_does() {
    for n in [0i64, 7, 10, 99, 100, -1, -10, 1234567890, i64::MAX, i64::MIN] {
        let mut s = String::from("x");
        push_decimal(&mut s, n);
        assert_eq!(s, format!("x{n}"));
    }
}

/// A field that is missing or not a number counts as 0.
#[test]
fn a_field_that_is_not_a_number_scores_zero() {
    assert_eq!(field_number(Some("42")), 42);
    assert_eq!(field_number(Some("-7")), -7);
    assert_eq!(field_number(Some("+3")), 3);
    assert_eq!(field_number(Some("")), 0);
    assert_eq!(field_number(Some("4 2")), 0);
    assert_eq!(field_number(Some("9223372036854775807")), i64::MAX);
    assert_eq!(field_number(Some("9223372036854775808")), 0);
    assert_eq!(field_number(Some("-9223372036854775808")), i64::MIN);
    assert_eq!(field_number(None), 0);
}

/// The icon is the 1-based index of the precached status icon the field
/// names; an empty or unknown name is 0.
#[test]
fn the_status_icon_is_its_one_based_precache_index() {
    let icons = vec![
        "hudStopwatch".to_string(),
        "gfx/hud/headicon@re_objcarrier".to_string(),
        String::new(),
    ];
    assert_eq!(status_icon_index(&icons, Some("gfx/hud/headicon@re_objcarrier")), 2);
    assert_eq!(status_icon_index(&icons, Some("hudStopwatch")), 1);
    assert_eq!(status_icon_index(&icons, Some("nothing")), 0);
    assert_eq!(status_icon_index(&icons, Some("")), 0);
    assert_eq!(status_icon_index(&icons, None), 0);
}
