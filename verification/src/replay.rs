//! The schedule of one tick's move replay for one client: which queued
//! usercmds run, how each is chopped into pmove steps, and where the
//! client's command time ends up. The steps themselves are the movement
//! simulation's business; this decides only when and for how long each one
//! runs. Server times are the usercmds' own millisecond clock, which wraps.

use vstd::prelude::*;

verus! {

/// Usercmds replayed per client per tick; a flood beyond this fast-forwards.
pub const MAX_CMDS_PER_TICK: usize = 32;

/// `Pmove`'s catch-up: a client further in arrears than this has the excess
/// dropped rather than simulated.
pub const MAX_PMOVE_ARREARS_MS: i32 = 1000;

/// The tick pace, `1000 / sv_fps`.
pub const FRAME_MS: i32 = 50;

/// One pmove step: which queued cmd it belongs to, the server time it ends
/// at (the time its cmd is stamped with), and how long it runs.
#[derive(Clone, Copy, Debug, PartialEq, Eq, Structural)]
pub struct Step {
    pub cmd: usize,
    pub end_ms: i32,
    pub msec: i32,
}

/// `a - b` on the wrapping clock.
pub open spec fn wsub(a: i32, b: i32) -> i32 {
    vstd::wrapping::i32_specs::wrapping_sub(a, b)
}

/// `a + b` on the wrapping clock.
pub open spec fn wadd(a: i32, b: i32) -> i32 {
    vstd::wrapping::i32_specs::wrapping_add(a, b)
}

/// Where the simulation of a cmd stamped `st` starts for a client whose
/// command time is `last`: at the command time, or `MAX_PMOVE_ARREARS_MS`
/// before the cmd when the client is further behind than that.
pub open spec fn catch_up_base(st: i32, last: i32) -> i32 {
    if wsub(st, last) > MAX_PMOVE_ARREARS_MS {
        wsub(st, MAX_PMOVE_ARREARS_MS)
    } else {
        last
    }
}

/// How long the simulation of a cmd stamped `st` runs for a client whose
/// command time is `last`: the gap, capped at `MAX_PMOVE_ARREARS_MS`.
pub open spec fn catch_up_ms(st: i32, last: i32) -> int {
    if wsub(st, last) > MAX_PMOVE_ARREARS_MS {
        MAX_PMOVE_ARREARS_MS as int
    } else {
        wsub(st, last) as int
    }
}

/// The steps that carry cmd `cmd` from `base` over `rem` milliseconds:
/// each as long as `max_frame` allows, the last one taking what is left.
pub open spec fn cmd_steps(cmd: usize, base: i32, rem: int, max_frame: int) -> Seq<Step>
    decreases rem,
{
    if rem <= 0 || max_frame <= 0 {
        Seq::empty()
    } else {
        let msec = if rem < max_frame {
            rem
        } else {
            max_frame
        };
        let end = wadd(base, msec as i32);
        seq![Step { cmd, end_ms: end, msec: msec as i32 }] + cmd_steps(
            cmd,
            end,
            rem - msec,
            max_frame,
        )
    }
}

/// The replay of the queued cmds from `i` on, for a client whose command
/// time is `last` with `processed` cmds already run this tick: the steps,
/// the cmds run, the command time after, and the index from which the
/// queue is kept for the next tick.
///
/// A cmd no later than the command time is skipped whole. A later one is
/// simulated from the command time, or from `MAX_PMOVE_ARREARS_MS` before
/// its own time when it is further behind, and the command time moves to
/// its time. Once `MAX_CMDS_PER_TICK` have run, the queue is cut to its
/// last two cmds and the command time resyncs to one frame before the
/// newest.
pub open spec fn replay_from(times: Seq<i32>, i: int, last: i32, processed: int, max_frame: int) -> (
    Seq<Step>,
    Seq<usize>,
    i32,
    usize,
)
    decreases times.len() - i,
{
    if i >= times.len() {
        (Seq::empty(), Seq::empty(), last, times.len() as usize)
    } else if processed >= MAX_CMDS_PER_TICK {
        (
            Seq::empty(),
            Seq::empty(),
            wsub(times.last(), FRAME_MS),
            if times.len() - i > 2 {
                (times.len() - 2) as usize
            } else {
                i as usize
            },
        )
    } else {
        let st = times[i];
        if wsub(st, last) <= 0 {
            replay_from(times, i + 1, last, processed, max_frame)
        } else {
            let rest = replay_from(times, i + 1, st, processed + 1, max_frame);
            (
                cmd_steps(i as usize, catch_up_base(st, last), catch_up_ms(st, last), max_frame)
                    + rest.0,
                seq![i as usize] + rest.1,
                rest.2,
                rest.3,
            )
        }
    }
}

/// One tick's replay schedule.
pub struct ReplayPlan {
    /// The pmove steps, in order.
    pub steps: Vec<Step>,
    /// The queued cmds that run, in order.
    pub ran: Vec<usize>,
    /// The command time after the tick.
    pub last_processed_st: i32,
    /// The queued cmds from this index on stay queued for the next tick.
    pub keep_from: usize,
}

/// `replay_moves`' schedule for a client whose queued cmds carry the
/// server times `times` and whose command time is `last_st`; a pmove step
/// runs at most `max_frame_ms`.
pub fn plan_replay(times: &Vec<i32>, last_st: i32, max_frame_ms: i32) -> (r: ReplayPlan)
    requires
        max_frame_ms > 0,
    ensures
        r.steps@ == replay_from(times@, 0, last_st, 0, max_frame_ms as int).0,
        r.ran@ == replay_from(times@, 0, last_st, 0, max_frame_ms as int).1,
        r.last_processed_st == replay_from(times@, 0, last_st, 0, max_frame_ms as int).2,
        r.keep_from == replay_from(times@, 0, last_st, 0, max_frame_ms as int).3,
{
    let ghost whole = replay_from(times@, 0, last_st, 0, max_frame_ms as int);
    let n = times.len();
    let mut steps: Vec<Step> = Vec::new();
    let mut ran: Vec<usize> = Vec::new();
    let mut last = last_st;
    let mut processed: usize = 0;
    let mut i: usize = 0;
    while i < n
        invariant
            n == times@.len(),
            i <= n,
            max_frame_ms > 0,
            processed <= MAX_CMDS_PER_TICK,
            whole == replay_from(times@, 0, last_st, 0, max_frame_ms as int),
            steps@ + replay_from(times@, i as int, last, processed as int, max_frame_ms as int).0
                == whole.0,
            ran@ + replay_from(times@, i as int, last, processed as int, max_frame_ms as int).1
                == whole.1,
            replay_from(times@, i as int, last, processed as int, max_frame_ms as int).2 == whole.2,
            replay_from(times@, i as int, last, processed as int, max_frame_ms as int).3 == whole.3,
        decreases n - i,
    {
        if processed >= MAX_CMDS_PER_TICK {
            let resynced = times[n - 1].wrapping_sub(FRAME_MS);
            let keep = if n - i > 2 {
                n - 2
            } else {
                i
            };
            assert(steps@ + Seq::<Step>::empty() =~= steps@);
            assert(ran@ + Seq::<usize>::empty() =~= ran@);
            return ReplayPlan { steps, ran, last_processed_st: resynced, keep_from: keep };
        }
        let st = times[i];
        let dt = st.wrapping_sub(last);
        if dt <= 0 {
            i = i + 1;
            continue;
        }
        let mut base = if dt > MAX_PMOVE_ARREARS_MS {
            st.wrapping_sub(MAX_PMOVE_ARREARS_MS)
        } else {
            last
        };
        let mut rem: i32 = if dt > MAX_PMOVE_ARREARS_MS {
            MAX_PMOVE_ARREARS_MS
        } else {
            dt
        };
        let ghost before = steps@;
        let ghost chopped = cmd_steps(i, base, rem as int, max_frame_ms as int);
        while rem > 0
            invariant
                max_frame_ms > 0,
                0 <= rem,
                steps@ + cmd_steps(i, base, rem as int, max_frame_ms as int) == before + chopped,
            decreases rem,
        {
            let msec = if rem < max_frame_ms {
                rem
            } else {
                max_frame_ms
            };
            let ghost tail = cmd_steps(i, base, rem as int, max_frame_ms as int);
            base = base.wrapping_add(msec);
            rem = rem - msec;
            let ghost s0 = steps@;
            steps.push(Step { cmd: i, end_ms: base, msec });
            assert(tail =~= seq![Step { cmd: i, end_ms: base, msec }] + cmd_steps(
                i,
                base,
                rem as int,
                max_frame_ms as int,
            ));
            assert(steps@ + cmd_steps(i, base, rem as int, max_frame_ms as int) =~= s0 + tail);
        }
        assert(steps@ + Seq::<Step>::empty() =~= steps@);
        let ghost r0 = ran@;
        ran.push(i);
        proof {
            let rest = replay_from(times@, i + 1, st, processed + 1, max_frame_ms as int);
            assert(before + (chopped + rest.0) =~= steps@ + rest.0);
            assert(r0 + (seq![i] + rest.1) =~= ran@ + rest.1);
        }
        last = st;
        processed = processed + 1;
        i = i + 1;
    }
    assert(steps@ + Seq::<Step>::empty() =~= steps@);
    assert(ran@ + Seq::<usize>::empty() =~= ran@);
    ReplayPlan { steps, ran, last_processed_st: last, keep_from: n }
}

/// The total length of some steps.
pub open spec fn total_ms(s: Seq<Step>) -> int
    decreases s.len(),
{
    if s.len() == 0 {
        0
    } else {
        s[0].msec + total_ms(s.drop_first())
    }
}

proof fn lemma_cmd_steps(cmd: usize, base: i32, rem: int, max_frame: int)
    requires
        0 < rem <= MAX_PMOVE_ARREARS_MS,
        max_frame > 0,
    ensures
        cmd_steps(cmd, base, rem, max_frame).len() > 0,
        cmd_steps(cmd, base, rem, max_frame).last().end_ms == wadd(base, rem as i32),
        total_ms(cmd_steps(cmd, base, rem, max_frame)) == rem,
        forall|k: int|
            0 <= k < cmd_steps(cmd, base, rem, max_frame).len() ==> {
                let s = #[trigger] cmd_steps(cmd, base, rem, max_frame)[k];
                s.cmd == cmd && 1 <= s.msec <= max_frame
            },
    decreases rem,
{
    let msec = if rem < max_frame {
        rem
    } else {
        max_frame
    };
    let end = wadd(base, msec as i32);
    let first = Step { cmd, end_ms: end, msec: msec as i32 };
    let rest = cmd_steps(cmd, end, rem - msec, max_frame);
    let all = cmd_steps(cmd, base, rem, max_frame);
    assert(all == seq![first] + rest);
    assert(all.drop_first() =~= rest);
    if rem - msec > 0 {
        lemma_cmd_steps(cmd, end, rem - msec, max_frame);
        assert(wadd(end, (rem - msec) as i32) == wadd(base, rem as i32));
        assert forall|k: int| 0 <= k < all.len() implies {
            let s = #[trigger] all[k];
            s.cmd == cmd && 1 <= s.msec <= max_frame
        } by {
            if k > 0 {
                assert(all[k] == rest[k - 1]);
            }
        }
    } else {
        assert(rest.len() == 0);
        assert(total_ms(rest) == 0);
    }
}

/// A cmd that runs is simulated exactly up to its own time: its steps
/// start at the catch-up base, none is longer than `max_frame` or empty,
/// together they last the gap (capped at `MAX_PMOVE_ARREARS_MS`), and the
/// last one ends at the cmd's time, which becomes the command time.
pub proof fn law_a_run_cmd_is_simulated_up_to_its_time(cmd: usize, st: i32, last: i32, max_frame: int)
    requires
        wsub(st, last) > 0,
        max_frame > 0,
    ensures
        ({
            let s = cmd_steps(cmd, catch_up_base(st, last), catch_up_ms(st, last), max_frame);
            &&& s.len() > 0
            &&& s.last().end_ms == st
            &&& total_ms(s) == catch_up_ms(st, last)
            &&& forall|k: int| 0 <= k < s.len() ==> 1 <= (#[trigger] s[k]).msec <= max_frame
        }),
{
    lemma_cmd_steps(cmd, catch_up_base(st, last), catch_up_ms(st, last), max_frame);
}

/// What the replay leaves, whatever the queue: no more than
/// `MAX_CMDS_PER_TICK` cmds run in one tick, in queue order; and unless
/// the flood cap cut the queue, every queued cmd is consumed and the
/// command time is the time of the last cmd that ran (or unchanged when
/// none did), so it never runs ahead of what was simulated.
pub proof fn law_the_replay_is_capped_and_ends_on_the_last_cmd(
    times: Seq<i32>,
    i: int,
    last: i32,
    processed: int,
    max_frame: int,
)
    requires
        0 <= i <= times.len(),
        times.len() <= usize::MAX,
        0 <= processed <= MAX_CMDS_PER_TICK,
        max_frame > 0,
    ensures
        ({
            let r = replay_from(times, i, last, processed, max_frame);
            &&& processed + r.1.len() <= MAX_CMDS_PER_TICK
            &&& forall|a: int| 0 <= a < r.1.len() ==> i <= #[trigger] r.1[a] < times.len()
            &&& forall|a: int, b: int| 0 <= a < b < r.1.len() ==> #[trigger] r.1[a] < #[trigger] r.1[b]
            &&& r.3 == times.len() ==> (if r.1.len() > 0 {
                r.2 == times[r.1.last() as int]
            } else {
                r.2 == last
            })
        }),
    decreases times.len() - i,
{
    if i < times.len() && processed < MAX_CMDS_PER_TICK {
        let st = times[i];
        if wsub(st, last) <= 0 {
            law_the_replay_is_capped_and_ends_on_the_last_cmd(times, i + 1, last, processed, max_frame);
        } else {
            law_the_replay_is_capped_and_ends_on_the_last_cmd(
                times,
                i + 1,
                st,
                processed + 1,
                max_frame,
            );
            let rest = replay_from(times, i + 1, st, processed + 1, max_frame);
            let r = replay_from(times, i, last, processed, max_frame);
            assert(r.1 == seq![i as usize] + rest.1);
            assert forall|a: int| 0 <= a < r.1.len() implies i <= #[trigger] r.1[a] < times.len() by {
                if a > 0 {
                    assert(r.1[a] == rest.1[a - 1]);
                } else {
                    assert(r.1[a] == i as usize);
                }
            }
            assert forall|a: int, b: int| 0 <= a < b < r.1.len() implies #[trigger] r.1[a]
                < #[trigger] r.1[b] by {
                if a > 0 {
                    assert(r.1[a] == rest.1[a - 1]);
                }
                assert(r.1[b] == rest.1[b - 1]);
            }
            if rest.1.len() > 0 {
                assert(r.1.last() == rest.1.last());
            } else {
                assert(r.1.last() == i as usize);
            }
        }
    }
}

} // verus!