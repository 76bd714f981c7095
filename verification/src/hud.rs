//! Which of the script's HUD elements a client's playerstate carries, the
//! filter `HudElem_UpdateClient` applies: an element is shown to a client
//! when its team is unset or the client's, and its owner is everyone or the
//! client; shown elements go to the archived or the current array by their
//! `archived` field, each array keeping the first ones up to its capacity.
//! What each record holds is the wire encoder's business.

use vstd::prelude::*;

verus! {

/// What the filter reads of one HUD element.
#[derive(Clone, Copy, Debug, PartialEq, Eq, Structural)]
pub struct HudView {
    /// 0 for every team.
    pub team: i32,
    /// A client slot, or the value that stands for every client.
    pub owner: u32,
    /// Whether the script set `archived`.
    pub archived: bool,
}

/// Whether client `slot` on `team` is shown element `h`.
pub open spec fn shown_to(h: HudView, slot: u32, team: i32, owner_all: u32) -> bool {
    (h.team == 0 || h.team == team) && (h.owner == owner_all || h.owner == slot)
}

/// The archived and current arrays built from the first `n` elements: the
/// indices of the shown elements, in order, each array stopping at `cap`.
pub open spec fn hud_split(
    elems: Seq<HudView>,
    slot: u32,
    team: i32,
    owner_all: u32,
    cap: nat,
    n: int,
) -> (Seq<usize>, Seq<usize>)
    decreases n,
{
    if n <= 0 {
        (Seq::empty(), Seq::empty())
    } else {
        let (a, c) = hud_split(elems, slot, team, owner_all, cap, n - 1);
        let h = elems[n - 1];
        if !shown_to(h, slot, team, owner_all) {
            (a, c)
        } else if h.archived {
            if a.len() < cap {
                (a.push((n - 1) as usize), c)
            } else {
                (a, c)
            }
        } else if c.len() < cap {
            (a, c.push((n - 1) as usize))
        } else {
            (a, c)
        }
    }
}

/// The two arrays for client `slot` on `team`, as indices into `elems`:
/// archived first, then current. `owner_all` is the owner that stands for
/// every client and `cap` each array's capacity.
pub fn select_hud_elems(
    elems: &Vec<HudView>,
    slot: u32,
    team: i32,
    owner_all: u32,
    cap: usize,
) -> (r: (Vec<usize>, Vec<usize>))
    ensures
        (r.0@, r.1@) == hud_split(elems@, slot, team, owner_all, cap as nat, elems@.len() as int),
{
    let mut archived: Vec<usize> = Vec::new();
    let mut current: Vec<usize> = Vec::new();
    let mut i: usize = 0;
    while i < elems.len()
        invariant
            i <= elems@.len(),
            (archived@, current@) == hud_split(elems@, slot, team, owner_all, cap as nat, i as int),
        decreases elems@.len() - i,
    {
        let h = elems[i];
        if (h.team == 0 || h.team == team) && (h.owner == owner_all || h.owner == slot) {
            if h.archived {
                if archived.len() < cap {
                    archived.push(i);
                }
            } else if current.len() < cap {
                current.push(i);
            }
        }
        i = i + 1;
    }
    (archived, current)
}

/// Whatever the elements, neither array outgrows its capacity, and every
/// element either array carries is one shown to the client and sits in the
/// array its `archived` field names.
pub proof fn law_a_client_gets_only_its_own_hud_and_no_more_than_fits(
    elems: Seq<HudView>,
    slot: u32,
    team: i32,
    owner_all: u32,
    cap: nat,
    n: int,
)
    requires
        0 <= n <= elems.len(),
        elems.len() <= usize::MAX,
    ensures
        ({
            let (a, c) = hud_split(elems, slot, team, owner_all, cap, n);
            &&& a.len() <= cap
            &&& c.len() <= cap
            &&& forall|k: int|
                0 <= k < a.len() ==> #[trigger] a[k] < n && shown_to(elems[a[k] as int], slot, team, owner_all)
                    && elems[a[k] as int].archived
            &&& forall|k: int|
                0 <= k < c.len() ==> #[trigger] c[k] < n && shown_to(elems[c[k] as int], slot, team, owner_all)
                    && !elems[c[k] as int].archived
        }),
    decreases n,
{
    if n > 0 {
        law_a_client_gets_only_its_own_hud_and_no_more_than_fits(
            elems,
            slot,
            team,
            owner_all,
            cap,
            n - 1,
        );
    }
}

} // verus!
