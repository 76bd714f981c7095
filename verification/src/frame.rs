//! The reliable commands the end of a server frame queues, in the order the
//! frame sends them: the configstring updates the frame's script work made,
//! then the commands the script queued for single clients, then the
//! scoreboard to every client watching the intermission when a score moved.

use vstd::prelude::*;
use vstd::string::*;
use crate::configstrings::table_views;
use crate::level::{ClientState, has_gamestate, loading_notice_slots, primed_or_above_of};
use crate::scoreboard::{digits_of, push_digits};
use crate::spectate::PmType;

verus! {

/// A queue of reliable commands by their text: each the slot it goes to
/// and the command.
pub open spec fn commands_view(v: Seq<(usize, String)>) -> Seq<(usize, Seq<char>)> {
    Seq::new(v.len(), |k: int| (v[k].0, v[k].1@))
}

/// Configstring `i` of the table, empty past its end.
pub open spec fn cs_text(table: Seq<Seq<char>>, i: int) -> Seq<char> {
    if 0 <= i < table.len() {
        table[i]
    } else {
        Seq::empty()
    }
}

/// `d <index> <text>`, the command that patches one configstring.
pub open spec fn cs_command_of(index: usize, text: Seq<char>) -> Seq<char> {
    seq!['d', ' '] + digits_of(index as nat) + seq![' '] + text
}

/// The updates one client gets: one per changed index, in the order given.
pub open spec fn slot_updates(slot: usize, changed: Seq<usize>, table: Seq<Seq<char>>) -> Seq<
    (usize, Seq<char>),
> {
    Seq::new(
        changed.len(),
        |j: int| (slot, cs_command_of(changed[j], cs_text(table, changed[j] as int))),
    )
}

/// The updates for every slot in `slots`, slot by slot.
pub open spec fn updates_of(slots: Seq<usize>, changed: Seq<usize>, table: Seq<Seq<char>>) -> Seq<
    (usize, Seq<char>),
>
    decreases slots.len(),
{
    if slots.len() == 0 {
        Seq::empty()
    } else {
        updates_of(slots.drop_last(), changed, table) + slot_updates(slots.last(), changed, table)
    }
}

/// The configstring patch for index `index`, whose text is `text`.
pub fn configstring_command(index: usize, text: &str) -> (r: String)
    ensures
        r@ == cs_command_of(index, text@),
{
    let mut s = String::new();
    crate::text::push_char(&mut s, 'd');
    crate::text::push_char(&mut s, ' ');
    push_digits(&mut s, index as u64);
    crate::text::push_char(&mut s, ' ');
    s.append(text);
    assert(s@ =~= cs_command_of(index, text@));
    s
}

/// The configstring half of a frame's reliable traffic: every changed index
/// goes out to every client that has a gamestate, slot by slot, each slot
/// getting the indices in the order given. A client still waiting for its
/// gamestate is skipped: the gamestate it pulls carries the whole table.
pub fn configstring_updates(
    states: &Vec<Option<ClientState>>,
    changed: &Vec<usize>,
    table: &Vec<String>,
) -> (r: Vec<(usize, String)>)
    ensures
        commands_view(r@) == updates_of(
            primed_or_above_of(states@, states@.len() as int),
            changed@,
            table_views(table@),
        ),
{
    let slots = loading_notice_slots(states);
    let ghost tv = table_views(table@);
    let mut out: Vec<(usize, String)> = Vec::new();
    let mut k: usize = 0;
    while k < slots.len()
        invariant
            k <= slots@.len(),
            tv == table_views(table@),
            commands_view(out@) == updates_of(slots@.take(k as int), changed@, tv),
        decreases slots@.len() - k,
    {
        let slot = slots[k];
        let ghost base = commands_view(out@);
        let mut j: usize = 0;
        while j < changed.len()
            invariant
                j <= changed@.len(),
                k < slots@.len(),
                slot == slots@[k as int],
                tv == table_views(table@),
                base == updates_of(slots@.take(k as int), changed@, tv),
                commands_view(out@) == base + slot_updates(slot, changed@, tv).take(j as int),
            decreases changed@.len() - j,
        {
            let i = changed[j];
            let cmd = if i < table.len() {
                configstring_command(i, table[i].as_str())
            } else {
                let empty = String::new();
                configstring_command(i, empty.as_str())
            };
            let ghost before = out@;
            out.push((slot, cmd));
            assert(commands_view(out@) =~= commands_view(before).push((slot, cmd@)));
            assert(slot_updates(slot, changed@, tv).take(j as int + 1) =~= slot_updates(
                slot,
                changed@,
                tv,
            ).take(j as int).push((slot, cmd@)));
            j = j + 1;
        }
        assert(slot_updates(slot, changed@, tv).take(j as int) =~= slot_updates(slot, changed@, tv));
        assert(slots@.take(k as int + 1).drop_last() =~= slots@.take(k as int));
        k = k + 1;
    }
    assert(slots@.take(k as int) =~= slots@);
    out
}

proof fn lemma_notice_slots_have_gamestates(states: Seq<Option<ClientState>>, n: int)
    requires
        n <= states.len() <= usize::MAX,
    ensures
        forall|k: int|
            0 <= k < primed_or_above_of(states, n).len() ==> {
                let slot = #[trigger] primed_or_above_of(states, n)[k];
                slot < n && has_gamestate(states[slot as int])
            },
    decreases n,
{
    if n > 0 {
        lemma_notice_slots_have_gamestates(states, n - 1);
        let prev = primed_or_above_of(states, n - 1);
        assert forall|k: int| 0 <= k < primed_or_above_of(states, n).len() implies {
            let slot = #[trigger] primed_or_above_of(states, n)[k];
            slot < n && has_gamestate(states[slot as int])
        } by {
            if k < prev.len() {
                assert(primed_or_above_of(states, n)[k] == prev[k]);
            }
        }
    }
}

proof fn lemma_updates_go_to_the_slots(slots: Seq<usize>, changed: Seq<usize>, table: Seq<Seq<char>>)
    ensures
        forall|k: int|
            0 <= k < updates_of(slots, changed, table).len() ==> slots.contains(
                (#[trigger] updates_of(slots, changed, table)[k]).0,
            ),
    decreases slots.len(),
{
    if slots.len() > 0 {
        let init = slots.drop_last();
        lemma_updates_go_to_the_slots(init, changed, table);
        let head = updates_of(init, changed, table);
        let tail = slot_updates(slots.last(), changed, table);
        assert forall|k: int|
            0 <= k < updates_of(slots, changed, table).len() implies slots.contains(
            (#[trigger] updates_of(slots, changed, table)[k]).0,
        ) by {
            if k < head.len() {
                let j = choose|j: int| 0 <= j < init.len() && init[j] == head[k].0;
                assert(slots[j] == init[j]);
            } else {
                assert(updates_of(slots, changed, table)[k] == tail[k - head.len()]);
                assert(slots[slots.len() - 1] == slots.last());
            }
        }
    }
}

/// A client still waiting for its gamestate gets no configstring update:
/// every update goes to a slot whose client has one.
pub proof fn law_a_client_without_a_gamestate_gets_no_update(
    states: Seq<Option<ClientState>>,
    changed: Seq<usize>,
    table: Seq<Seq<char>>,
)
    requires
        states.len() <= usize::MAX,
    ensures
        forall|k: int|
            0 <= k < updates_of(primed_or_above_of(states, states.len() as int), changed, table).len()
                ==> {
                let slot = (#[trigger] updates_of(
                    primed_or_above_of(states, states.len() as int),
                    changed,
                    table,
                )[k]).0;
                slot < states.len() && has_gamestate(states[slot as int])
            },
{
    let slots = primed_or_above_of(states, states.len() as int);
    lemma_notice_slots_have_gamestates(states, states.len() as int);
    lemma_updates_go_to_the_slots(slots, changed, table);
    assert forall|k: int| 0 <= k < updates_of(slots, changed, table).len() implies {
        let slot = (#[trigger] updates_of(slots, changed, table)[k]).0;
        slot < states.len() && has_gamestate(states[slot as int])
    } by {
        let slot = updates_of(slots, changed, table)[k].0;
        let j = choose|j: int| 0 <= j < slots.len() && slots[j] == slot;
        assert(slots[j] == slot);
    }
}

/// The slots among the first `n` whose client watches the intermission.
pub open spec fn watchers_of(modes: Seq<Option<PmType>>, n: int) -> Seq<usize>
    decreases n,
{
    if n <= 0 {
        Seq::empty()
    } else if modes[n - 1] == Some(PmType::Intermission) {
        watchers_of(modes, n - 1).push((n - 1) as usize)
    } else {
        watchers_of(modes, n - 1)
    }
}

/// Who gets the scoreboard at the end of a frame: every client in the
/// intermission camera, and only on a frame that moved a score. `modes`
/// holds each slot's movement path, none for an empty slot or a client not
/// yet in the world.
pub fn intermission_watchers(ranks_dirty: bool, modes: &Vec<Option<PmType>>) -> (r: Vec<usize>)
    ensures
        r@ == (if ranks_dirty {
            watchers_of(modes@, modes@.len() as int)
        } else {
            Seq::empty()
        }),
{
    let mut out: Vec<usize> = Vec::new();
    if !ranks_dirty {
        return out;
    }
    let mut i: usize = 0;
    while i < modes.len()
        invariant
            i <= modes@.len(),
            out@ == watchers_of(modes@, i as int),
        decreases modes@.len() - i,
    {
        match modes[i] {
            Some(PmType::Intermission) => out.push(i),
            _ => {},
        }
        i = i + 1;
    }
    out
}

/// The same text to each slot in `slots`.
pub open spec fn sends_of(slots: Seq<usize>, text: Seq<char>) -> Seq<(usize, Seq<char>)> {
    Seq::new(slots.len(), |k: int| (slots[k], text))
}

/// A frame's reliable traffic, in the order it is queued: the configstring
/// updates first, so a slot the script just allocated is named before any
/// command points at it; then the commands the script queued for single
/// clients, as queued; then the scoreboard to each intermission watcher
/// when the frame moved a score.
pub fn frame_commands(
    states: &Vec<Option<ClientState>>,
    changed: &Vec<usize>,
    table: &Vec<String>,
    client_commands: &Vec<(usize, String)>,
    ranks_dirty: bool,
    modes: &Vec<Option<PmType>>,
    scoreboard: &str,
) -> (r: Vec<(usize, String)>)
    ensures
        commands_view(r@) == updates_of(
            primed_or_above_of(states@, states@.len() as int),
            changed@,
            table_views(table@),
        ) + commands_view(client_commands@) + sends_of(
            if ranks_dirty {
                watchers_of(modes@, modes@.len() as int)
            } else {
                Seq::empty()
            },
            scoreboard@,
        ),
{
    let mut out = configstring_updates(states, changed, table);
    let ghost updates = commands_view(out@);
    let mut i: usize = 0;
    while i < client_commands.len()
        invariant
            i <= client_commands@.len(),
            commands_view(out@) == updates + commands_view(client_commands@).take(i as int),
        decreases client_commands@.len() - i,
    {
        let slot = client_commands[i].0;
        let cmd = client_commands[i].1.clone();
        let ghost before = out@;
        out.push((slot, cmd));
        assert(commands_view(out@) =~= commands_view(before).push((slot, cmd@)));
        assert(commands_view(client_commands@).take(i as int + 1) =~= commands_view(
            client_commands@,
        ).take(i as int).push((slot, cmd@)));
        i = i + 1;
    }
    assert(commands_view(client_commands@).take(i as int) =~= commands_view(client_commands@));
    let watchers = intermission_watchers(ranks_dirty, modes);
    let ghost mid = commands_view(out@);
    let mut k: usize = 0;
    while k < watchers.len()
        invariant
            k <= watchers@.len(),
            commands_view(out@) == mid + sends_of(watchers@, scoreboard@).take(k as int),
        decreases watchers@.len() - k,
    {
        let text = String::from_str(scoreboard);
        let ghost before = out@;
        out.push((watchers[k], text));
        assert(commands_view(out@) =~= commands_view(before).push((watchers@[k as int], scoreboard@)));
        assert(sends_of(watchers@, scoreboard@).take(k as int + 1) =~= sends_of(
            watchers@,
            scoreboard@,
        ).take(k as int).push((watchers@[k as int], scoreboard@)));
        k = k + 1;
    }
    assert(sends_of(watchers@, scoreboard@).take(k as int) =~= sends_of(watchers@, scoreboard@));
    out
}

} // verus!
