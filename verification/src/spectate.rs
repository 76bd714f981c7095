//! The integer side of a client's simulated state: which movement mode it
//! is in and what `pm_type` that puts on the wire, the four-slot event ring
//! a playerstate or entity carries, and the lifecycle a spawn runs through
//! (the per-spawn teleport toggle, the spawn counter, the cleared ring).
//! Movement, aim and animation are floating point and live outside.

use vstd::prelude::*;

verus! {

/// The dead `pm_type`.
pub const PM_DEAD: i32 = 6;

/// The intermission `pm_type`.
pub const PM_INTERMISSION: i32 = 5;

/// A spectator's `pm_type`.
pub const PM_SPECTATOR: i32 = 4;

/// A live player's `pm_type`.
pub const PM_NORMAL: i32 = 0;

/// A player entity's base `eFlags`.
pub const PLAYER_EFLAGS: i32 = 16;

/// The per-spawn toggle bit of `eFlags`: every spawn flips it, so a client
/// breaks interpolation instead of smearing from the corpse to the spawn.
pub const EF_TELEPORT_BIT: i32 = 0x8;

/// The movement path a client is on.
#[derive(Clone, Copy, PartialEq, Eq, Debug, Structural)]
pub enum PmType {
    /// `pm_type` 0 on the wire.
    Normal,
    /// `pm_type` 4 on the wire, the value every client carries before it
    /// answers the team menu.
    Spectator,
    /// `pm_type` 5, the camera a level's end parks every client at.
    Intermission,
}

/// The wire `pm_type` of a mode: a dead player is `PM_DEAD`, whatever else
/// the mode's own value.
pub open spec fn wire_pm_type_of(mode: PmType, dead: bool) -> i32 {
    match mode {
        PmType::Normal => if dead {
            PM_DEAD
        } else {
            PM_NORMAL
        },
        PmType::Intermission => PM_INTERMISSION,
        PmType::Spectator => PM_SPECTATOR,
    }
}

/// The `pm_type` the wire playerstate carries.
pub fn wire_pm_type(mode: PmType, dead: bool) -> (r: i32)
    ensures
        r == wire_pm_type_of(mode, dead),
{
    match (mode, dead) {
        (PmType::Normal, true) => PM_DEAD,
        (PmType::Normal, false) => PM_NORMAL,
        (PmType::Intermission, _) => PM_INTERMISSION,
        (PmType::Spectator, _) => PM_SPECTATOR,
    }
}

/// The four-slot event ring's contents as values.
pub struct RingModel {
    pub events: Seq<i32>,
    pub parms: Seq<i32>,
    pub seq: i32,
}

/// The sequence counter after one event: a wrapping increment.
pub open spec fn next_seq(s: i32) -> i32 {
    if s == i32::MAX {
        i32::MIN
    } else {
        (s + 1) as i32
    }
}

/// The slot the next event goes into: `seq & 3`.
pub open spec fn slot_of(s: i32) -> int {
    (s & 3i32) as int
}

/// `G_AddEvent` on the model: the slot first, the counter after.
pub open spec fn ring_add(m: RingModel, event: i32, parm: i32) -> RingModel {
    RingModel {
        events: m.events.update(slot_of(m.seq), event),
        parms: m.parms.update(slot_of(m.seq), parm),
        seq: next_seq(m.seq),
    }
}

/// The four-slot event ring a playerstate or an entity carries: written at
/// `events[seq & 3]` with the counter bumped after it, so the new slots of
/// a frame are the ones below the sequence.
#[derive(Clone, Copy, Debug, Default, PartialEq, Eq)]
pub struct EventRing {
    pub events: [i32; 4],
    pub parms: [i32; 4],
    /// Eight bits on the wire; kept wide here and masked at the write.
    pub seq: i32,
}

impl View for EventRing {
    type V = RingModel;

    open spec fn view(&self) -> RingModel {
        RingModel { events: self.events@, parms: self.parms@, seq: self.seq }
    }
}

proof fn lemma_slot_range(s: i32)
    ensures
        0 <= slot_of(s) < 4,
{
    assert(0 <= (s & 3i32) && (s & 3i32) < 4) by (bit_vector);
}

/// An event ring in its cleared state: four zero slots at sequence 0.
pub open spec fn empty_ring() -> RingModel {
    RingModel { events: seq![0i32, 0, 0, 0], parms: seq![0i32, 0, 0, 0], seq: 0 }
}

impl EventRing {
    /// A cleared ring.
    pub fn new() -> (r: EventRing)
        ensures
            r@ == empty_ring(),
    {
        let r = EventRing { events: [0, 0, 0, 0], parms: [0, 0, 0, 0], seq: 0 };
        assert(r@.events =~= empty_ring().events);
        assert(r@.parms =~= empty_ring().parms);
        r
    }

    /// `G_AddEvent`: the slot first, the counter after.
    pub fn add(&mut self, event: i32, parm: i32)
        ensures
            final(self)@ == ring_add(old(self)@, event, parm),
    {
        proof {
            lemma_slot_range(self.seq);
        }
        let slot = (self.seq & 3) as usize;
        self.events[slot] = event;
        self.parms[slot] = parm;
        self.seq = self.seq.wrapping_add(1);
    }

    /// Back to the cleared state a respawn reads: empty slots at sequence 0.
    pub fn clear(&mut self)
        ensures
            final(self)@ == empty_ring(),
    {
        *self = EventRing::new();
    }

    /// `eventSequence` and the four slots, as the field writes an entity or
    /// playerstate takes them: the sequence masked to its eight wire bits,
    /// then each slot's event and parm in slot order.
    pub fn write(&self) -> (r: Vec<(&'static str, i32)>)
        ensures
            r@ == seq![
                ("eventSequence", self.seq & 0xff),
                ("events[0]", self.events[0]),
                ("eventParms[0]", self.parms[0]),
                ("events[1]", self.events[1]),
                ("eventParms[1]", self.parms[1]),
                ("events[2]", self.events[2]),
                ("eventParms[2]", self.parms[2]),
                ("events[3]", self.events[3]),
                ("eventParms[3]", self.parms[3]),
            ],
    {
        let mut r: Vec<(&'static str, i32)> = Vec::new();
        r.push(("eventSequence", self.seq & 0xff));
        r.push(("events[0]", self.events[0]));
        r.push(("eventParms[0]", self.parms[0]));
        r.push(("events[1]", self.events[1]));
        r.push(("eventParms[1]", self.parms[1]));
        r.push(("events[2]", self.events[2]));
        r.push(("eventParms[2]", self.parms[2]));
        r.push(("events[3]", self.events[3]));
        r.push(("eventParms[3]", self.parms[3]));
        assert(r@ =~= seq![
            ("eventSequence", self.seq & 0xff),
            ("events[0]", self.events[0]),
            ("eventParms[0]", self.parms[0]),
            ("events[1]", self.events[1]),
            ("eventParms[1]", self.parms[1]),
            ("events[2]", self.events[2]),
            ("eventParms[2]", self.parms[2]),
            ("events[3]", self.events[3]),
            ("eventParms[3]", self.parms[3]),
        ]);
        r
    }
}

proof fn lemma_next_slot(s: i32)
    ensures
        slot_of(next_seq(s)) == (slot_of(s) + 1) % 4,
{
    if s == i32::MAX {
        assert((0x7fff_ffffi32 & 3i32) == 3i32) by (bit_vector);
        assert((i32::MIN & 3i32) == 0i32) by (bit_vector);
    } else {
        assert(s < 0x7fff_ffffi32 ==> ((s + 1) as i32) & 3i32 == if s & 3i32 == 3i32 {
            0i32
        } else {
            ((s & 3i32) + 1) as i32
        }) by (bit_vector);
        lemma_slot_range(s);
    }
}

/// An event stays readable in the ring for the next three events: only the
/// fourth event after it lands in its slot, and every event is written
/// into the slot the sequence named before it.
pub proof fn law_an_event_survives_three_more(
    m: RingModel,
    e: i32,
    p: i32,
    e1: i32,
    p1: i32,
    e2: i32,
    p2: i32,
    e3: i32,
    p3: i32,
)
    requires
        m.events.len() == 4,
        m.parms.len() == 4,
    ensures
        ({
            let m0 = ring_add(m, e, p);
            let m3 = ring_add(ring_add(ring_add(m0, e1, p1), e2, p2), e3, p3);
            &&& m0.events[slot_of(m.seq)] == e
            &&& m3.events[slot_of(m.seq)] == e
            &&& m3.parms[slot_of(m.seq)] == p
            &&& slot_of(m3.seq) == slot_of(m.seq)
        }),
{
    let s0 = m.seq;
    let s1 = next_seq(s0);
    let s2 = next_seq(s1);
    let s3 = next_seq(s2);
    let s4 = next_seq(s3);
    lemma_slot_range(s0);
    lemma_next_slot(s0);
    lemma_next_slot(s1);
    lemma_next_slot(s2);
    lemma_next_slot(s3);
}


/// The part of a client's simulated state a spawn resets and the wire
/// reports outright: the movement mode, whether it is dead, the per-spawn
/// teleport toggle, the spawn counter (`ps.stats[5]`, a wrapping byte), the
/// event ring and the two vitals the playerstate copies.
#[derive(Clone, Copy, Debug, PartialEq, Eq)]
pub struct SpawnState {
    pub pm_type: PmType,
    pub dead: bool,
    pub teleport_bit: bool,
    pub spawn_count: u8,
    pub ring: EventRing,
    pub health: i32,
    pub max_health: i32,
}

/// The state after a spawn into `mode`: alive, the ring cleared, the
/// counter bumped, the teleport bit flipped. A spectator or intermission
/// spawn copies no health, so both vitals read 0; a player spawn keeps what
/// the script's vitals mirror last wrote.
pub open spec fn spawned(s: SpawnState, mode: PmType) -> SpawnState {
    SpawnState {
        pm_type: mode,
        dead: false,
        teleport_bit: !s.teleport_bit,
        spawn_count: if s.spawn_count == 255 {
            0
        } else {
            (s.spawn_count + 1) as u8
        },
        ring: s.ring,
        health: if mode == PmType::Normal {
            s.health
        } else {
            0
        },
        max_health: if mode == PmType::Normal {
            s.max_health
        } else {
            0
        },
    }
}

/// A player entity's `eFlags` for a given teleport toggle.
pub open spec fn eflags_of(teleport_bit: bool) -> i32 {
    if teleport_bit {
        PLAYER_EFLAGS | EF_TELEPORT_BIT
    } else {
        PLAYER_EFLAGS
    }
}

impl SpawnState {
    /// A client entering the world: a spectator, before any spawn, with the
    /// teleport bit clear the way the connect's memset leaves it.
    pub fn connect() -> (r: SpawnState)
        ensures
            r.pm_type == PmType::Spectator,
            !r.dead,
            !r.teleport_bit,
            r.spawn_count == 0,
            r.ring@ == empty_ring(),
            r.health == 0,
            r.max_health == 0,
    {
        SpawnState {
            pm_type: PmType::Spectator,
            dead: false,
            teleport_bit: false,
            spawn_count: 0,
            ring: EventRing::new(),
            health: 0,
            max_health: 0,
        }
    }

    fn respawn(&mut self, mode: PmType)
        ensures
            final(self).pm_type == mode,
            !final(self).dead,
            final(self).teleport_bit == !old(self).teleport_bit,
            final(self).spawn_count == spawned(*old(self), mode).spawn_count,
            final(self).ring@ == empty_ring(),
            final(self).health == old(self).health,
            final(self).max_health == old(self).max_health,
    {
        self.pm_type = mode;
        self.dead = false;
        self.spawn_count = self.spawn_count.wrapping_add(1);
        self.ring.clear();
        self.teleport_bit = !self.teleport_bit;
    }

    /// `spawnPlayer()`: the same client, restarted as a live player.
    pub fn become_player(&mut self)
        ensures
            *final(self) == (SpawnState { ring: final(self).ring, ..spawned(*old(self), PmType::Normal) }),
            final(self).ring@ == empty_ring(),
    {
        self.respawn(PmType::Normal);
    }

    /// `spawnSpectator()`: parked as a spectator through the same spawn,
    /// with no health copied.
    pub fn become_spectator(&mut self)
        ensures
            *final(self) == (SpawnState { ring: final(self).ring, ..spawned(*old(self), PmType::Spectator) }),
            final(self).ring@ == empty_ring(),
    {
        self.respawn(PmType::Spectator);
        self.health = 0;
        self.max_health = 0;
    }

    /// `spawnIntermission()`: parked at the intermission camera through the
    /// same spawn, with no health copied.
    pub fn become_intermission(&mut self)
        ensures
            *final(self) == (SpawnState { ring: final(self).ring, ..spawned(*old(self), PmType::Intermission) }),
            final(self).ring@ == empty_ring(),
    {
        self.respawn(PmType::Intermission);
        self.health = 0;
        self.max_health = 0;
    }

    /// Whether other clients are sent an entity for this one: neither a
    /// spectator, nor the intermission camera, nor a dead player is linked.
    pub fn linked(&self) -> (r: bool)
        ensures
            r == (self.pm_type == PmType::Normal && !self.dead),
    {
        self.pm_type == PmType::Normal && !self.dead
    }

    /// The entity `eFlags` word: the base and the per-spawn teleport bit.
    pub fn eflags(&self) -> (r: i32)
        ensures
            r == eflags_of(self.teleport_bit),
    {
        assert((16i32 | 0i32) == 16i32) by (bit_vector);
        PLAYER_EFLAGS | if self.teleport_bit {
            EF_TELEPORT_BIT
        } else {
            0
        }
    }

    /// The playerstate's `pm_type`.
    pub fn pm_type_on_wire(&self) -> (r: i32)
        ensures
            r == wire_pm_type_of(self.pm_type, self.dead),
    {
        wire_pm_type(self.pm_type, self.dead)
    }
}

/// Every spawn flips the teleport bit, whatever its mode, so two spawns in
/// a row leave it where it was and a respawn always changes the `eFlags`
/// word the other clients see.
pub proof fn law_every_spawn_flips_the_teleport_bit(s: SpawnState, a: PmType, b: PmType)
    ensures
        spawned(s, a).teleport_bit != s.teleport_bit,
        eflags_of(spawned(s, a).teleport_bit) != eflags_of(s.teleport_bit),
        spawned(spawned(s, a), b).teleport_bit == s.teleport_bit,
{
    assert((16i32 | 8i32) == 24i32) by (bit_vector);
}

/// The player `eFlags` word is always 16 or 24.
pub proof fn law_eflags_is_16_or_24(teleport_bit: bool)
    ensures
        eflags_of(teleport_bit) == 16 || eflags_of(teleport_bit) == 24,
{
    assert((16i32 | 8i32) == 24i32) by (bit_vector);
}

/// Only a live player is linked and only a live player is `pm_type` 0; a
/// spawn always leaves the client alive.
pub proof fn law_linked_means_a_live_player(s: SpawnState, mode: PmType)
    ensures
        (s.pm_type == PmType::Normal && !s.dead) <==> wire_pm_type_of(s.pm_type, s.dead) == PM_NORMAL,
        !spawned(s, mode).dead,
{
}

} // verus!
