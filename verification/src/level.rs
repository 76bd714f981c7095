//! The level boundaries: `map` (`SV_SpawnServer`) and `map_restart`
//! (`SV_MapRestart_f`). What each decides before it touches anything, and
//! which clients each step reaches. Loading the map, the scripts and the
//! settle frames is the engine's work.

use vstd::prelude::*;
use crate::text::str_eq;

verus! {

/// Where a client is in the handshake.
#[derive(Clone, Copy, Debug, PartialEq, Eq, Structural)]
pub enum ClientState {
    /// On a netchan, without a gamestate yet.
    Connected,
    /// Sent a gamestate, not yet in the world.
    Primed,
    /// In the world.
    Active,
}

/// The cvar whose change turns a restart into a spawn.
#[derive(Clone, Copy, Debug, PartialEq, Eq, Structural)]
pub enum ChangedCvar {
    Gametype,
    MaxClients,
}

/// What `map_restart` does.
#[derive(Clone, Copy, Debug, PartialEq, Eq, Structural)]
pub enum RestartAction {
    /// A second restart in one frame, or one straight after a spawn:
    /// nothing.
    NoOp,
    /// No level is running: nothing, with a note on the console.
    NotRunning,
    /// No paks are mounted: the load is refused and the level kept.
    NoPaks,
    /// `g_gametype` or `sv_maxclients` changed since the level loaded: the
    /// restart becomes a full spawn of the same map.
    Escalate(ChangedCvar),
    /// The level is re-inited in place.
    InPlace,
}

/// `map_restart`'s decision, in its order: the same-frame no-op, the
/// running check, the paks, then the escalation, which a level that asked
/// to keep its persistence (`savePersist`) never takes. `loaded` is the
/// gametype and client count the running level loaded with, `pending_*`
/// what the next load would stamp.
pub open spec fn restart_action_of(
    last_spawn_tick: Option<i32>,
    sv_time_ms: i32,
    running: bool,
    paks: bool,
    save_persist: bool,
    loaded: Option<(Seq<char>, Seq<char>)>,
    pending_gametype: Seq<char>,
    pending_max_clients: Seq<char>,
) -> RestartAction {
    if last_spawn_tick == Some(sv_time_ms) {
        RestartAction::NoOp
    } else if !running {
        RestartAction::NotRunning
    } else if !paks {
        RestartAction::NoPaks
    } else if save_persist {
        RestartAction::InPlace
    } else {
        match loaded {
            Some((gametype, max_clients)) => if gametype != pending_gametype {
                RestartAction::Escalate(ChangedCvar::Gametype)
            } else if max_clients != pending_max_clients {
                RestartAction::Escalate(ChangedCvar::MaxClients)
            } else {
                RestartAction::InPlace
            },
            None => RestartAction::InPlace,
        }
    }
}

/// `map_restart`'s decision before anything is torn down.
pub fn restart_action(
    last_spawn_tick: Option<i32>,
    sv_time_ms: i32,
    running: bool,
    paks: bool,
    save_persist: bool,
    loaded: Option<(&str, &str)>,
    pending_gametype: &str,
    pending_max_clients: &str,
) -> (r: RestartAction)
    ensures
        r == restart_action_of(
            last_spawn_tick,
            sv_time_ms,
            running,
            paks,
            save_persist,
            match loaded {
                Some((g, m)) => Some((g@, m@)),
                None => None,
            },
            pending_gametype@,
            pending_max_clients@,
        ),
{
    if let Some(t) = last_spawn_tick {
        if t == sv_time_ms {
            return RestartAction::NoOp;
        }
    }
    if !running {
        return RestartAction::NotRunning;
    }
    if !paks {
        return RestartAction::NoPaks;
    }
    if save_persist {
        return RestartAction::InPlace;
    }
    match loaded {
        Some((gametype, max_clients)) => {
            if !str_eq(gametype, pending_gametype) {
                RestartAction::Escalate(ChangedCvar::Gametype)
            } else if !str_eq(max_clients, pending_max_clients) {
                RestartAction::Escalate(ChangedCvar::MaxClients)
            } else {
                RestartAction::InPlace
            }
        },
        None => RestartAction::InPlace,
    }
}

/// Whether the client in a slot is at `state`.
pub open spec fn slot_is(s: Option<ClientState>, state: ClientState) -> bool {
    s == Some(state)
}

/// Whether the client in a slot has a gamestate: `CS_PRIMED` or above.
pub open spec fn has_gamestate(s: Option<ClientState>) -> bool {
    match s {
        Some(st) => st != ClientState::Connected,
        None => false,
    }
}

/// The slots among the first `n` holding an active client, in order.
pub open spec fn active_slots_of(states: Seq<Option<ClientState>>, n: int) -> Seq<usize>
    decreases n,
{
    if n <= 0 {
        Seq::empty()
    } else if slot_is(states[n - 1], ClientState::Active) {
        active_slots_of(states, n - 1).push((n - 1) as usize)
    } else {
        active_slots_of(states, n - 1)
    }
}

/// The slots among the first `n` whose client has a gamestate, in order.
pub open spec fn primed_or_above_of(states: Seq<Option<ClientState>>, n: int) -> Seq<usize>
    decreases n,
{
    if n <= 0 {
        Seq::empty()
    } else if has_gamestate(states[n - 1]) {
        primed_or_above_of(states, n - 1).push((n - 1) as usize)
    } else {
        primed_or_above_of(states, n - 1)
    }
}

/// The slots whose client re-enters the world after an in-place restart:
/// only one that was already active; a primed one is promoted later by its
/// own next message.
pub fn reentry_slots(states: &Vec<Option<ClientState>>) -> (r: Vec<usize>)
    ensures
        r@ == active_slots_of(states@, states@.len() as int),
{
    let mut out: Vec<usize> = Vec::new();
    let mut i: usize = 0;
    while i < states.len()
        invariant
            i <= states@.len(),
            out@ == active_slots_of(states@, i as int),
        decreases states@.len() - i,
    {
        match states[i] {
            Some(ClientState::Active) => out.push(i),
            _ => {},
        }
        i = i + 1;
    }
    out
}

/// The slots a spawn tells `loadingnewmap`: every client with a gamestate
/// to be told is stale. The same slots are the ones the per-frame
/// configstring diff reaches.
pub fn loading_notice_slots(states: &Vec<Option<ClientState>>) -> (r: Vec<usize>)
    ensures
        r@ == primed_or_above_of(states@, states@.len() as int),
{
    let mut out: Vec<usize> = Vec::new();
    let mut i: usize = 0;
    while i < states.len()
        invariant
            i <= states@.len(),
            out@ == primed_or_above_of(states@, i as int),
        decreases states@.len() - i,
    {
        match states[i] {
            Some(ClientState::Primed) => out.push(i),
            Some(ClientState::Active) => out.push(i),
            _ => {},
        }
        i = i + 1;
    }
    out
}

/// Why a spawn refuses a map before anything is torn down, keeping the
/// level that is serving.
#[derive(Clone, Copy, Debug, PartialEq, Eq, Structural)]
pub enum KeptReason {
    /// No paks are mounted.
    NoPaks,
    /// The mounted paks do not have the map.
    MapNotFound,
    /// The bsp could not be read.
    Unreadable,
    /// The bsp did not parse.
    Unparsable,
}

/// `SV_SpawnServer`'s checks ahead of the teardown, in their order: each
/// step runs only when the one before it succeeded.
pub open spec fn spawn_precheck_of(paks: bool, map_resolved: bool, bsp_read: bool, bsp_parsed: bool) -> Result<
    (),
    KeptReason,
> {
    if !paks {
        Err(KeptReason::NoPaks)
    } else if !map_resolved {
        Err(KeptReason::MapNotFound)
    } else if !bsp_read {
        Err(KeptReason::Unreadable)
    } else if !bsp_parsed {
        Err(KeptReason::Unparsable)
    } else {
        Ok(())
    }
}

/// The outcome of the checks a spawn makes before the teardown.
pub fn spawn_precheck(paks: bool, map_resolved: bool, bsp_read: bool, bsp_parsed: bool) -> (r:
    Result<(), KeptReason>)
    ensures
        r == spawn_precheck_of(paks, map_resolved, bsp_read, bsp_parsed),
{
    if !paks {
        Err(KeptReason::NoPaks)
    } else if !map_resolved {
        Err(KeptReason::MapNotFound)
    } else if !bsp_read {
        Err(KeptReason::Unreadable)
    } else if !bsp_parsed {
        Err(KeptReason::Unparsable)
    } else {
        Ok(())
    }
}

/// A second restart in the frame of a restart or a spawn does nothing,
/// whatever else holds, and a level that asked to keep its persistence is
/// never escalated to a spawn.
pub proof fn law_a_second_restart_in_one_frame_is_a_no_op(
    t: i32,
    running: bool,
    paks: bool,
    save_persist: bool,
    loaded: Option<(Seq<char>, Seq<char>)>,
    pending_gametype: Seq<char>,
    pending_max_clients: Seq<char>,
)
    ensures
        restart_action_of(
            Some(t),
            t,
            running,
            paks,
            save_persist,
            loaded,
            pending_gametype,
            pending_max_clients,
        ) == RestartAction::NoOp,
        forall|last: Option<i32>, now: i32|
            !(#[trigger] restart_action_of(
                last,
                now,
                running,
                paks,
                true,
                loaded,
                pending_gametype,
                pending_max_clients,
            ) is Escalate),
{
}

/// A spawn that refuses the map refuses it before the teardown, so the
/// level keeps serving: every refusal is one of the checks, and a spawn
/// goes on only when all four passed.
pub proof fn law_a_refused_load_keeps_the_level(paks: bool, map_resolved: bool, bsp_read: bool, bsp_parsed: bool)
    ensures
        spawn_precheck_of(paks, map_resolved, bsp_read, bsp_parsed) is Ok <==> (paks
            && map_resolved && bsp_read && bsp_parsed),
{
}

} // verus!
