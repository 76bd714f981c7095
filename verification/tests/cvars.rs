use vcod_server::cvars::CvarOverrides;

/// The last write to a name wins, in place, so a rotation running for days
/// does not grow the list a map at a time.
#[test]
fn the_last_write_to_a_cvar_wins_in_place() {
    let mut o = CvarOverrides::new();
    assert_eq!(o.pending("g_gametype", "dm"), "dm");
    o.set("g_gametype", "tdm");
    o.set("sv_mapRotation", "gametype sd map mp_carentan");
    assert_eq!(o.pending("g_gametype", "dm"), "tdm");
    o.set("g_gametype", "sd");
    assert_eq!(o.pending("g_gametype", "dm"), "sd");
    assert_eq!(o.len(), 2);
    assert_eq!(o.pending("sv_mapRotation", ""), "gametype sd map mp_carentan");
    assert_eq!(o.pending("G_GAMETYPE", "dm"), "dm", "names compare exactly");
}
