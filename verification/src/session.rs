//! The gates a connected client's packets and commands pass before any of
//! them runs: the acknowledge window, the serverId check, the reliable
//! command sequence, the flood window, and the queue of moves waiting for
//! the next tick.

use vstd::prelude::*;
use crate::text::{
    has_prefix, is_whitespace, lemma_word_len, str_eq, starts_with, substring, trim_start_by,
    word_len, ws_pred,
};

verus! {

/// The reliable command ring's size on both ends of the netchan.
pub const MAX_RELIABLE_COMMANDS: i32 = 64;

/// `SV_ClientCommand`'s flood window: a non-exempt client command opens
/// 800 ms during which every further non-exempt one from an active client
/// is dropped before the game sees it.
pub const FLOOD_WINDOW_MS: i32 = 800;

/// Queued-but-unreplayed usercmds per client; past this a flood drops the
/// oldest rather than building latency.
pub const MAX_PENDING_CMDS: usize = 64;

/// Whether a client message's two acknowledges are believable:
/// `messageAcknowledge` names a message the server sent (below its
/// outgoing sequence, and not negative), and `reliableAcknowledge` is
/// neither negative, nor ahead of the last reliable command the server
/// queued, nor a whole ring behind it.
pub open spec fn acks_valid(
    message_ack: i32,
    outgoing_sequence: i32,
    reliable_ack: i32,
    reliable_sequence: i32,
) -> bool {
    &&& 0 <= message_ack < outgoing_sequence
    &&& 0 <= reliable_ack <= reliable_sequence
    &&& reliable_sequence - reliable_ack <= MAX_RELIABLE_COMMANDS - 1
}

/// The acknowledge check `handle_client_packet` applies before the
/// message may change anything; a message that fails it is ignored.
pub fn acks_in_range(
    message_ack: i32,
    outgoing_sequence: i32,
    reliable_ack: i32,
    reliable_sequence: i32,
) -> (r: bool)
    ensures
        r == acks_valid(message_ack, outgoing_sequence, reliable_ack, reliable_sequence),
{
    if message_ack < 0 || message_ack >= outgoing_sequence {
        return false;
    }
    if reliable_ack < 0 || reliable_ack > reliable_sequence {
        return false;
    }
    reliable_sequence - reliable_ack <= MAX_RELIABLE_COMMANDS - 1
}

/// What a message carrying `msg_id` does to a client whose server is at
/// `server_id`.
#[derive(Clone, Copy, Debug, PartialEq, Eq, Structural)]
pub enum ServerIdAction {
    /// The ids agree: the message's ops run.
    Current,
    /// The client is on another map load and has acknowledged the last
    /// gamestate: it gets a new one.
    ResendGamestate,
    /// A restart the primed client has caught up with: it enters the world.
    EnterWorld,
    /// Nothing happens.
    Ignore,
}

/// The serverId rule. The high nibble counts map loads, the low one
/// restarts: a different map load resends the gamestate once the message
/// acknowledges past the last one sent, a different restart of the same
/// load puts a primed client in the world, and anything else is ignored.
pub open spec fn server_id_action_of(
    msg_id: u8,
    server_id: u8,
    message_ack: i32,
    gamestate_message_num: i64,
    primed: bool,
) -> ServerIdAction {
    if msg_id == server_id {
        ServerIdAction::Current
    } else if msg_id / 16 != server_id / 16 {
        if message_ack > gamestate_message_num {
            ServerIdAction::ResendGamestate
        } else {
            ServerIdAction::Ignore
        }
    } else if primed {
        ServerIdAction::EnterWorld
    } else {
        ServerIdAction::Ignore
    }
}

/// The serverId branch of `handle_client_packet`.
pub fn server_id_action(
    msg_id: u8,
    server_id: u8,
    message_ack: i32,
    gamestate_message_num: i64,
    primed: bool,
) -> (r: ServerIdAction)
    ensures
        r == server_id_action_of(msg_id, server_id, message_ack, gamestate_message_num, primed),
{
    if msg_id == server_id {
        return ServerIdAction::Current;
    }
    let same_load = msg_id & 0xf0 == server_id & 0xf0;
    assert(same_load == (msg_id / 16 == server_id / 16)) by (bit_vector)
        requires
            same_load == (msg_id & 0xf0 == server_id & 0xf0),
    ;
    if !same_load {
        if message_ack as i64 > gamestate_message_num {
            ServerIdAction::ResendGamestate
        } else {
            ServerIdAction::Ignore
        }
    } else if primed {
        ServerIdAction::EnterWorld
    } else {
        ServerIdAction::Ignore
    }
}

/// Where a reliable client command stands against the last one executed.
#[derive(Clone, Copy, Debug, PartialEq, Eq, Structural)]
pub enum CommandGate {
    /// Already executed: skipped, the client stays.
    Seen,
    /// One or more commands in between never arrived: the client is
    /// dropped (`EXE_LOSTRELIABLECOMMANDS`).
    Lost,
    /// The next one in order: it runs.
    Next,
}

pub open spec fn command_gate_of(seq: i32, last: i32) -> CommandGate {
    if seq <= last {
        CommandGate::Seen
    } else if seq > last + 1 {
        CommandGate::Lost
    } else {
        CommandGate::Next
    }
}

/// The sequence check at the head of `SV_ClientCommand`.
pub fn command_gate(seq: i32, last: i32) -> (r: CommandGate)
    ensures
        r == command_gate_of(seq, last),
{
    if seq <= last {
        CommandGate::Seen
    } else if seq - 1 > last {
        CommandGate::Lost
    } else {
        CommandGate::Next
    }
}

/// The three commands the flood window never holds back, compared as
/// prefixes with their space, so a bare `score` is not one of them.
pub open spec fn flood_exempt_of(cmd: Seq<char>) -> bool {
    has_prefix(cmd, "team "@) || has_prefix(cmd, "score "@) || has_prefix(cmd, "mr "@)
}

/// Whether the (leading-whitespace-trimmed) command is flood exempt.
pub fn flood_exempt(cmd: &str) -> (r: bool)
    ensures
        r == flood_exempt_of(cmd@),
{
    starts_with(cmd, "team ") || starts_with(cmd, "score ") || starts_with(cmd, "mr ")
}

/// The flood window: whether the game may see the command, and the new
/// end of the window. An exempt command passes and leaves the window as it
/// was; any other one opens a new window from `now_ms`, and is held back
/// when an active client sends it before the last window closed.
pub open spec fn flood_gate_of(exempt: bool, active: bool, now_ms: i32, window_end_ms: i32) -> (
    bool,
    i32,
) {
    if exempt {
        (true, window_end_ms)
    } else {
        (
            !(active && now_ms < window_end_ms),
            vstd::wrapping::i32_specs::wrapping_add(now_ms, FLOOD_WINDOW_MS),
        )
    }
}

/// `sv_floodProtect` as `SV_ClientCommand` applies it.
pub fn flood_gate(exempt: bool, active: bool, now_ms: i32, window_end_ms: i32) -> (r: (bool, i32))
    ensures
        r == flood_gate_of(exempt, active, now_ms, window_end_ms),
{
    if exempt {
        (true, window_end_ms)
    } else {
        (!(active && now_ms < window_end_ms), now_ms.wrapping_add(FLOOD_WINDOW_MS))
    }
}

/// A client command split the way `SV_ClientCommand` splits it: leading
/// whitespace dropped, the word up to the first whitespace character, and
/// everything after that one character as the arguments (none when the
/// word runs to the end).
pub open spec fn command_split_of(s: Seq<char>) -> (Seq<char>, Seq<char>) {
    let t = trim_start_by(s, ws_pred());
    let w = word_len(t);
    if w < t.len() {
        (t.take(w as int), t.skip(w + 1int))
    } else {
        (t, Seq::empty())
    }
}

/// `s.trim_start().split_once(char::is_whitespace)`, with the whole
/// trimmed text as the word when there is no whitespace in it.
pub fn split_command(s: &str) -> (r: (String, String))
    ensures
        (r.0@, r.1@) == command_split_of(s@),
{
    let n = s.unicode_len();
    let mut a: usize = 0;
    while a < n && is_whitespace(s.get_char(a))
        invariant
            a <= n,
            n == s@.len(),
            forall|j: int| 0 <= j < a ==> #[trigger] ws_pred()(s@[j]),
        decreases n - a,
    {
        a = a + 1;
    }
    proof {
        crate::text::lemma_lead_run(s@, ws_pred(), a as int);
    }
    let mut b: usize = a;
    while b < n && !is_whitespace(s.get_char(b))
        invariant
            a <= b <= n,
            n == s@.len(),
            forall|j: int| a <= j < b ==> !crate::text::is_ws(#[trigger] s@[j]),
        decreases n - b,
    {
        b = b + 1;
    }
    let ghost t = s@.skip(a as int);
    proof {
        assert forall|j: int| 0 <= j < b - a implies !crate::text::is_ws(#[trigger] t[j]) by {
            assert(t[j] == s@[a + j]);
        }
        if b < n {
            assert(t[b - a] == s@[b as int]);
        }
        lemma_word_len(t, b - a);
    }
    let word = substring(s, a, b);
    if b < n {
        let args = substring(s, b + 1, n);
        assert(word@ =~= t.take(b - a));
        assert(args@ =~= t.skip(b - a + 1));
        (word, args)
    } else {
        assert(word@ =~= t);
        (word, String::new())
    }
}

/// The command words `client_command` acts on.
#[derive(Clone, Copy, Debug, PartialEq, Eq, Structural)]
pub enum CommandKind {
    /// `disconnect`: the client leaves.
    Disconnect,
    /// `userinfo`: the client's info string is replaced.
    Userinfo,
    /// `score`: a scoreboard goes back.
    Score,
    /// `kill`: the client dies by its own hand.
    Kill,
    /// `mr`: an answer to a script menu.
    MenuResponse,
    /// Anything else, which is logged and ignored.
    Other,
}

pub open spec fn command_kind_of(word: Seq<char>) -> CommandKind {
    if word == "disconnect"@ {
        CommandKind::Disconnect
    } else if word == "userinfo"@ {
        CommandKind::Userinfo
    } else if word == "score"@ {
        CommandKind::Score
    } else if word == "kill"@ {
        CommandKind::Kill
    } else if word == "mr"@ {
        CommandKind::MenuResponse
    } else {
        CommandKind::Other
    }
}

/// Which command a word names.
pub fn command_kind(word: &str) -> (r: CommandKind)
    ensures
        r == command_kind_of(word@),
{
    if str_eq(word, "disconnect") {
        CommandKind::Disconnect
    } else if str_eq(word, "userinfo") {
        CommandKind::Userinfo
    } else if str_eq(word, "score") {
        CommandKind::Score
    } else if str_eq(word, "kill") {
        CommandKind::Kill
    } else if str_eq(word, "mr") {
        CommandKind::MenuResponse
    } else {
        CommandKind::Other
    }
}

/// What `SV_ClientCommand` does with one reliable command.
#[derive(Clone, Copy, Debug, PartialEq, Eq, Structural)]
pub struct CommandPlan {
    /// The sequence check's verdict; only `Next` goes further.
    pub gate: CommandGate,
    /// Whether the command is acted on. The engine's own two commands,
    /// `disconnect` and `userinfo`, are acted on even inside the flood
    /// window; a held-back one is recorded as executed all the same.
    pub run: bool,
    /// The command word's meaning.
    pub kind: CommandKind,
    /// The flood window's end after this command.
    pub window_end_ms: i32,
}

pub open spec fn command_plan_of(
    seq: i32,
    last: i32,
    text: Seq<char>,
    active: bool,
    now_ms: i32,
    window_end_ms: i32,
) -> CommandPlan {
    let gate = command_gate_of(seq, last);
    let kind = command_kind_of(command_split_of(text).0);
    if gate != CommandGate::Next {
        CommandPlan { gate, run: false, kind, window_end_ms }
    } else {
        let flood = flood_gate_of(
            flood_exempt_of(trim_start_by(text, ws_pred())),
            active,
            now_ms,
            window_end_ms,
        );
        CommandPlan {
            gate,
            run: flood.0 || kind == CommandKind::Disconnect || kind == CommandKind::Userinfo,
            kind,
            window_end_ms: flood.1,
        }
    }
}

/// `SV_ClientCommand`'s decisions for the command `text` numbered `seq`,
/// from a client whose last executed command is `last` and whose flood
/// window ends at `window_end_ms`, at server time `now_ms`.
pub fn plan_client_command(
    seq: i32,
    last: i32,
    text: &str,
    active: bool,
    now_ms: i32,
    window_end_ms: i32,
) -> (r: CommandPlan)
    ensures
        r == command_plan_of(seq, last, text@, active, now_ms, window_end_ms),
{
    let gate = command_gate(seq, last);
    let (word, _args) = split_command(text);
    let kind = command_kind(word.as_str());
    if gate != CommandGate::Next {
        return CommandPlan { gate, run: false, kind, window_end_ms };
    }
    let trimmed = crate::text::trim_start(text);
    let exempt = flood_exempt(trimmed.as_str());
    let (ok, end) = flood_gate(exempt, active, now_ms, window_end_ms);
    CommandPlan {
        gate,
        run: ok || kind == CommandKind::Disconnect || kind == CommandKind::Userinfo,
        kind,
        window_end_ms: end,
    }
}

/// The info string a `userinfo` command carries: its arguments trimmed of
/// whitespace and then of double quotes at both ends.
pub open spec fn userinfo_arg_of(args: Seq<char>) -> Seq<char> {
    crate::text::trim_by(crate::text::trim_by(args, ws_pred()), crate::text::quote_pred())
}

/// `args.trim().trim_matches('"')`.
pub fn userinfo_arg(args: &str) -> (r: String)
    ensures
        r@ == userinfo_arg_of(args@),
{
    let t = crate::text::trim(args);
    crate::text::trim_quotes(t.as_str())
}

/// The replay queue after a move block arrives: the block after what was
/// queued, less the oldest entries past `MAX_PENDING_CMDS`.
pub open spec fn queued_moves<T>(pending: Seq<T>, cmds: Seq<T>) -> Seq<T> {
    let all = pending + cmds;
    if all.len() > MAX_PENDING_CMDS {
        all.skip(all.len() - MAX_PENDING_CMDS)
    } else {
        all
    }
}

/// `SV_UserMove` past the parse: the block is queued for the next tick's
/// replay, and a flood past the cap drops the oldest cmds, not the newest.
pub fn queue_moves<T: Copy>(pending: &mut Vec<T>, cmds: Vec<T>)
    requires
        old(pending)@.len() + cmds@.len() <= usize::MAX,
    ensures
        final(pending)@ == queued_moves(old(pending)@, cmds@),
{
    let ghost all = pending@ + cmds@;
    let plen = pending.len();
    let total = plen + cmds.len();
    let excess = if total > MAX_PENDING_CMDS {
        total - MAX_PENDING_CMDS
    } else {
        0
    };
    let mut out: Vec<T> = Vec::new();
    let mut k: usize = excess;
    while k < total
        invariant
            all == pending@ + cmds@,
            plen == pending@.len(),
            total == all.len(),
            excess <= k <= total,
            out@ == all.subrange(excess as int, k as int),
        decreases total - k,
    {
        let x: T = if k < plen {
            pending[k]
        } else {
            cmds[k - plen]
        };
        out.push(x);
        assert(out@ =~= all.subrange(excess as int, k + 1));
        k = k + 1;
    }
    assert(out@ =~= queued_moves(pending@, cmds@));
    *pending = out;
}

/// Whether the frame numbered `base_num` can be the delta base of the
/// snapshot numbered `message_num`: between 1 and 255 messages back, the
/// reach of the byte-wide deltaNum offset. A base numbered at or after the
/// snapshot counts as 0 back.
pub open spec fn delta_base_ok(message_num: u32, base_num: u32) -> bool {
    let back: int = if message_num >= base_num {
        message_num - base_num
    } else {
        0
    };
    1 <= back <= 255
}

/// The delta base check of `send_snapshots`; a snapshot without a usable
/// base goes out uncompressed.
pub fn delta_base_usable(message_num: u32, base_num: u32) -> (r: bool)
    ensures
        r == delta_base_ok(message_num, base_num),
{
    let back = message_num.saturating_sub(base_num);
    1 <= back && back <= 255
}


/// Only the next command in sequence is ever acted on, and the engine's own
/// two commands, `disconnect` and `userinfo`, always are once they pass the
/// sequence check, inside the flood window or not.
pub proof fn law_the_engine_commands_ignore_the_flood_window(
    seq: i32,
    last: i32,
    text: Seq<char>,
    active: bool,
    now_ms: i32,
    window_end_ms: i32,
)
    ensures
        ({
            let p = command_plan_of(seq, last, text, active, now_ms, window_end_ms);
            let word = command_split_of(text).0;
            &&& p.run ==> seq == last + 1
            &&& (seq == last + 1) == (p.gate == CommandGate::Next)
            &&& word == "disconnect"@ ==> p.kind == CommandKind::Disconnect
            &&& word == "userinfo"@ ==> p.kind == CommandKind::Userinfo
            &&& (word == "disconnect"@ || word == "userinfo"@) && seq == last + 1 ==> p.run
        }),
{
    reveal_strlit("disconnect");
    reveal_strlit("userinfo");
    assert("disconnect"@.len() == 10);
    assert("userinfo"@.len() == 8);
}

} // verus!