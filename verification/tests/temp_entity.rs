use vcod_server::temp_entity::{visible_to, Scope, ENTITYNUM_WORLD, TEMP_COUNT, TEMP_FIRST};

#[test]
fn scope_all_but_hides_from_one_client() {
    let scope = Scope::AllBut(2);
    assert!(visible_to(scope, 0));
    assert!(!visible_to(scope, 2));
}

#[test]
fn scope_only_reaches_one_client() {
    let scope = Scope::Only(1);
    assert!(visible_to(scope, 1));
    assert!(!visible_to(scope, 0));
}

#[test]
fn a_broadcast_reaches_every_client() {
    for slot in 0..64 {
        assert!(visible_to(Scope::Broadcast, slot));
    }
}

#[test]
fn the_temp_block_ends_at_the_world_entity() {
    assert_eq!(TEMP_FIRST, 958);
    assert_eq!(TEMP_FIRST + TEMP_COUNT, ENTITYNUM_WORLD);
}
