use vcod_server::hud::{select_hud_elems, HudView};

const ALL: u32 = 0x3ff;

fn h(team: i32, owner: u32, archived: bool) -> HudView {
    HudView { team, owner, archived }
}

/// A team element reaches only that team; an owned one only its owner.
#[test]
fn a_client_is_sent_its_own_and_its_teams_hud() {
    let elems = vec![
        h(0, ALL, false),
        h(1, ALL, false),
        h(2, ALL, true),
        h(0, 3, false),
        h(0, 4, true),
    ];
    assert_eq!(select_hud_elems(&elems, 3, 1, ALL, 31), (vec![], vec![0, 1, 3]));
    assert_eq!(select_hud_elems(&elems, 4, 2, ALL, 31), (vec![2, 4], vec![0]));
}

/// Each array keeps the first elements up to its capacity.
#[test]
fn each_hud_array_stops_at_its_capacity() {
    let elems = vec![h(0, ALL, false); 5];
    assert_eq!(select_hud_elems(&elems, 0, 0, ALL, 3), (vec![], vec![0, 1, 2]));
    let mixed = vec![h(0, ALL, true), h(0, ALL, false), h(0, ALL, true), h(0, ALL, true)];
    assert_eq!(select_hud_elems(&mixed, 0, 0, ALL, 2), (vec![0, 2], vec![1]));
}
