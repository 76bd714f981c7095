//! The notifies the engine raises on a player's script entity. A misspelt
//! notify does not error, it leaves the thread parked on it forever, so
//! the spellings live here, each pinned by a test.

use vstd::prelude::*;

verus! {

/// The event `Callback_PlayerConnect` parks on before it lets the client
/// into the world.
pub const BEGIN_NOTIFY: &'static str = "begin";

/// The event every gametype's team-join loop parks on, once the connect
/// callback has opened the first menu; it carries the menu's name and the
/// response.
pub const MENURESPONSE_NOTIFY: &'static str = "menuresponse";

} // verus!
