use vcod_server::feedback::{damage_feedback, Feedback, PAIN_DEBOUNCE_MS};

/// The capture's hit: 67 damage on 100 health is `damageCount` 67, the
/// first `damageEvent`, and a pain; a second hit 300 ms later counts its
/// own damage but raises no pain inside the debounce; a third one past it does.
#[test]
fn a_hit_writes_the_feedback_the_capture_measured() {
    let f = damage_feedback(false, 67, 100, 1000, 0, 0).unwrap();
    assert_eq!(f, Feedback { count: 67, event: 1, pain: true, pain_after_ms: 1000 + PAIN_DEBOUNCE_MS });
    let g = damage_feedback(false, 10, 100, 1300, f.pain_after_ms, f.event).unwrap();
    assert_eq!(g, Feedback { count: 10, event: 2, pain: false, pain_after_ms: 1700 });
    let h = damage_feedback(false, 10, 100, 1800, g.pain_after_ms, g.event).unwrap();
    assert_eq!(h, Feedback { count: 10, event: 3, pain: true, pain_after_ms: 2500 });
}

#[test]
fn the_damage_count_is_capped_and_a_dead_player_gets_none() {
    assert_eq!(damage_feedback(false, 500, 100, 0, 0, 0).unwrap().count, 127);
    assert_eq!(damage_feedback(false, 1, 150, 0, 0, 0).unwrap().count, 0);
    assert!(damage_feedback(true, 67, 100, 1000, 0, 0).is_none());
    assert!(damage_feedback(false, 0, 100, 1000, 0, 0).is_none());
    assert!(damage_feedback(false, 5, 0, 1000, 0, 0).is_none());
    assert_eq!(damage_feedback(false, 5, 100, 0, 0, i32::MAX).unwrap().event, i32::MIN);
}
