use vcod_server::script::{BEGIN_NOTIFY, MENURESPONSE_NOTIFY};

/// The engine's side of the connect handshake is one notify and its exact
/// spelling. A miss does not error, it hangs the thread.
#[test]
fn the_begin_notify_is_spelled_begin() {
    assert_eq!(BEGIN_NOTIFY, "begin");
}

/// The whole team-join state machine wakes on this one notify.
#[test]
fn the_menu_notify_is_spelled_menuresponse() {
    assert_eq!(MENURESPONSE_NOTIFY, "menuresponse");
}
