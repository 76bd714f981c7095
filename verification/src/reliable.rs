//! The reliable server-command ring a client's netchan keeps: commands
//! numbered from 1, the last `MAX_RELIABLE_COMMANDS` of them held in
//! `seq & 63`, and everything past the client's acknowledge resent with
//! each message until it is acknowledged.

use vstd::prelude::*;
use crate::session::MAX_RELIABLE_COMMANDS;

verus! {

/// The commands numbered `ack + 1` up to the last one written, each with
/// its number.
pub open spec fn pending_of(written: Seq<Seq<char>>, ack: int) -> Seq<(i32, Seq<char>)> {
    Seq::new((written.len() - ack) as nat, |i: int| ((ack + 1 + i) as i32, written[ack + i]))
}

/// `seq & 63` is the ring slot of command `seq`.
proof fn lemma_slot(seq: i32)
    requires
        seq >= 0,
    ensures
        (seq as usize) & 63 == seq % 64,
        (seq as usize) & 63 < 64,
{
    let u = seq as usize;
    assert(u & 63 == u % 64) by (bit_vector);
    assert(u & 63 < 64) by (bit_vector);
}

/// The reliable command ring of one client.
pub struct ReliableRing {
    sequence: i32,
    slots: Vec<String>,
    written: Ghost<Seq<Seq<char>>>,
}

impl View for ReliableRing {
    /// Every command written so far; command `k` is at `k - 1`.
    type V = Seq<Seq<char>>;

    closed spec fn view(&self) -> Seq<Seq<char>> {
        self.written@
    }
}

impl ReliableRing {
    /// The ring holds 64 slots, its sequence is the number of commands
    /// written, and each of the last 64 commands sits in its slot.
    pub closed spec fn wf(&self) -> bool {
        &&& self.slots@.len() == 64
        &&& self.sequence == self.written@.len()
        &&& forall|k: int|
            1 <= k <= self.sequence && self.sequence - k < 64 ==> #[trigger] self.slots@[k
                % 64]@ == self.written@[k - 1]
    }

    /// An empty ring at sequence 0.
    pub fn new() -> (r: ReliableRing)
        ensures
            r.wf(),
            r@ == Seq::<Seq<char>>::empty(),
    {
        let mut slots: Vec<String> = Vec::new();
        let mut i: usize = 0;
        while i < 64
            invariant
                i <= 64,
                slots@.len() == i,
            decreases 64 - i,
        {
            slots.push(String::new());
            i = i + 1;
        }
        ReliableRing { sequence: 0, slots, written: Ghost(Seq::empty()) }
    }

    /// `reliableSequence`: the number of the last command written.
    pub fn sequence(&self) -> (r: i32)
        requires
            self.wf(),
        ensures
            r == self@.len(),
    {
        self.sequence
    }

    /// `SV_AddServerCommand`'s store: the command takes the next number
    /// and its slot.
    pub fn write(&mut self, cmd: String)
        requires
            old(self).wf(),
            old(self)@.len() < i32::MAX,
        ensures
            final(self).wf(),
            final(self)@ == old(self)@.push(cmd@),
    {
        let ghost before = self.written@;
        let ghost text = cmd@;
        let seq = self.sequence + 1;
        proof {
            lemma_slot(seq);
        }
        self.slots.set((seq as usize) & 63, cmd);
        self.sequence = seq;
        self.written = Ghost(before.push(text));
        proof {
            assert forall|k: int| 1 <= k <= self.sequence && self.sequence - k < 64 implies #[trigger] self.slots@[k % 64]@ == self.written@[k - 1] by {
                if k < seq {
                    assert(k % 64 != seq % 64);
                }
            }
        }
    }

    /// Command `seq`, while the ring still holds it.
    pub fn command(&self, seq: i32) -> (r: &String)
        requires
            self.wf(),
            1 <= seq <= self@.len(),
            self@.len() - seq < 64,
        ensures
            r@ == self@[seq - 1],
    {
        proof {
            lemma_slot(seq);
        }
        &self.slots[(seq as usize) & 63]
    }

    /// `SV_UpdateServerCommandsToClient`: every command after `ack`, in
    /// order and numbered, for a client whose acknowledge is within one
    /// ring of the last command.
    pub fn pending(&self, ack: i32) -> (r: Vec<(i32, String)>)
        requires
            self.wf(),
            0 <= ack <= self@.len(),
            self@.len() - ack <= 64,
        ensures
            r@.len() == self@.len() - ack,
            forall|i: int|
                0 <= i < r@.len() ==> (#[trigger] r@[i]).0 == pending_of(self@, ack as int)[i].0
                    && r@[i].1@ == pending_of(self@, ack as int)[i].1,
    {
        let mut out: Vec<(i32, String)> = Vec::new();
        let mut seq = ack;
        while seq < self.sequence
            invariant
                self.wf(),
                0 <= ack <= seq <= self@.len(),
                self@.len() - ack <= 64,
                out@.len() == seq - ack,
                forall|i: int|
                    0 <= i < out@.len() ==> (#[trigger] out@[i]).0 == ack + 1 + i && out@[i].1@
                        == self@[ack + i],
            decreases self@.len() - seq,
        {
            seq = seq + 1;
            let cmd = self.command(seq).clone();
            out.push((seq, cmd));
        }
        out
    }

    /// Whether a client acknowledged at `ack` has a whole ring of commands
    /// outstanding, so that one more would overwrite one it has not seen
    /// (`send_server_command` drops such a client).
    pub fn full_for(&self, ack: i32) -> (r: bool)
        requires
            self.wf(),
        ensures
            r == (self@.len() - ack >= MAX_RELIABLE_COMMANDS),
    {
        (self.sequence as i64) - (ack as i64) >= MAX_RELIABLE_COMMANDS as i64
    }
}

/// A write is what the next read of the pending commands ends with: after
/// writing `cmd`, the commands pending past `ack` are the ones pending
/// before, then `cmd` under the next number.
pub proof fn law_a_write_is_pending_next(written: Seq<Seq<char>>, ack: int, cmd: Seq<char>)
    requires
        0 <= ack <= written.len(),
        written.len() < i32::MAX,
    ensures
        pending_of(written.push(cmd), ack) == pending_of(written, ack).push(
            ((written.len() + 1) as i32, cmd),
        ),
{
    assert(pending_of(written.push(cmd), ack) =~= pending_of(written, ack).push(
        ((written.len() + 1) as i32, cmd),
    ));
}

} // verus!
