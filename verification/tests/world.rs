use vcod_server::temp_entity::ENTITYNUM_WORLD;
use vcod_server::world::{
    baseline_numbers, present_at, test_entities_fit, trajectory_start, MAX_TEST_ENTITIES,
};

#[test]
fn test_entities_move_and_one_cycles_out_and_back() {
    assert_eq!(present_at(3, 0), vec![32, 33, 34]);
    // The trajectory restarts between t=0 and t=4000.
    assert_ne!(trajectory_start(0), trajectory_start(4000));
    // 6500 % 8000 is inside the last 2 s of the cycle.
    assert_eq!(present_at(3, 6500), vec![32, 33]);
    assert_eq!(present_at(3, 11000), vec![32, 33, 34]);
    assert_eq!(baseline_numbers(3), vec![32, 33, 34]);
}

#[test]
fn max_test_entities_is_the_last_count_below_entitynum_world() {
    assert_eq!(*baseline_numbers(MAX_TEST_ENTITIES).last().unwrap(), ENTITYNUM_WORLD - 1);
    assert_eq!(*baseline_numbers(MAX_TEST_ENTITIES + 1).last().unwrap(), ENTITYNUM_WORLD);
    assert!(test_entities_fit(MAX_TEST_ENTITIES));
    assert!(!test_entities_fit(MAX_TEST_ENTITIES + 1));
}

#[test]
fn the_lap_start_is_the_last_multiple_of_four_seconds() {
    assert_eq!(trajectory_start(0), 0);
    assert_eq!(trajectory_start(3999), 0);
    assert_eq!(trajectory_start(4000), 4000);
    assert_eq!(trajectory_start(6500), 4000);
    assert_eq!(trajectory_start(-1), -4000);
}

#[test]
fn the_cycle_counts_from_zero_on_negative_times_too() {
    // -1000 is 7000 into its cycle: the last entity is away.
    assert_eq!(present_at(2, -1000), vec![32]);
    assert_eq!(present_at(2, -3000), vec![32, 33]);
    assert!(present_at(0, 7000).is_empty());
    assert_eq!(present_at(1, 7000), Vec::<u32>::new());
}
