use vcod_server::trigger::{kind_of, TriggerKind, TriggerRow, Triggers};

/// The six trigger classnames in the `spawns` table map to kinds; nothing
/// else does.
#[test]
fn the_spawns_tables_trigger_classnames_map_to_kinds() {
    assert_eq!(kind_of("trigger_multiple"), Some(TriggerKind::Multiple));
    assert_eq!(kind_of("trigger_once"), Some(TriggerKind::Once));
    assert_eq!(kind_of("trigger_use"), Some(TriggerKind::Use));
    assert_eq!(kind_of("trigger_lookat"), Some(TriggerKind::LookAt));
    assert_eq!(kind_of("trigger_hurt"), Some(TriggerKind::Hurt));
    assert_eq!(kind_of("trigger_damage"), Some(TriggerKind::Damage));
    assert_eq!(kind_of("script_brushmodel"), None);
    assert_eq!(kind_of("misc_mg42"), None);
}

/// Retail compares classnames with `strcmp`: case matters, and a prefix is
/// not a match.
#[test]
fn trigger_classnames_match_exactly() {
    assert_eq!(kind_of("Trigger_Multiple"), None);
    assert_eq!(kind_of("trigger_"), None);
    assert_eq!(kind_of("trigger_hurt "), None);
    assert_eq!(kind_of(""), None);
}

#[test]
fn register_and_remove() {
    let mut ts = Triggers::new();
    let id = 72;
    assert!(ts.is_empty());
    ts.register(id, TriggerKind::Hurt, 0, 0);
    assert_eq!(ts.len(), 1);
    assert_eq!(ts.get(id).map(|t| t.kind), Some(TriggerKind::Hurt));
    ts.remove(id);
    assert!(ts.get(id).is_none());
    assert!(ts.is_empty());
}

/// A re-registered number takes the new row; the fire gate moves only the
/// row it names.
#[test]
fn a_trigger_row_is_what_was_registered_last() {
    let mut ts = Triggers::new();
    ts.register(72, TriggerKind::Multiple, 500, 100);
    ts.register(73, TriggerKind::Once, 0, 0);
    ts.register(72, TriggerKind::Use, 0, 0);
    assert_eq!(ts.len(), 2);
    assert_eq!(
        ts.get(72),
        Some(TriggerRow { kind: TriggerKind::Use, wait_ms: 0, random_ms: 0, next_fire_ms: 0 })
    );
    ts.set_next_fire(73, 2500);
    ts.set_next_fire(99, 2500);
    assert_eq!(ts.get(73).unwrap().next_fire_ms, 2500);
    assert_eq!(ts.get(72).unwrap().next_fire_ms, 0);
    assert!(ts.get(99).is_none());
    assert_eq!(ts.len(), 2);
}
