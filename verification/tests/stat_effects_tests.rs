use toki_core::stat_effects::{
    capped_heal, inventory_after_removal, resolve_pending_stat_changes, teleport_position,
    DamageEvent, DeathEvent, StatChangeRequest,
};

fn change(target: u32, stat: &str, delta: i32, source: Option<u32>) -> StatChangeRequest {
    StatChangeRequest { target_entity_id: target, stat_id: stat.to_string(), delta, source_entity_id: source }
}

#[test]
fn heals_stop_at_the_maximum() {
    assert_eq!(capped_heal(5, Some(8), Some(10)), Some(2));
    assert_eq!(capped_heal(1, Some(3), Some(10)), Some(1));
    assert_eq!(capped_heal(5, Some(10), Some(10)), None);
    assert_eq!(capped_heal(-3, Some(1), Some(10)), None);
    assert_eq!(capped_heal(4, None, Some(10)), Some(4));
    assert_eq!(capped_heal(4, Some(2), None), None);
}

#[test]
fn removals_take_at_most_what_is_there() {
    assert_eq!(inventory_after_removal(5, 2), Some(3));
    assert_eq!(inventory_after_removal(5, 9), Some(0));
    assert_eq!(inventory_after_removal(0, 3), None);
    assert_eq!(inventory_after_removal(4, 0), None);
}

#[test]
fn teleports_land_on_the_tile_corner() {
    assert_eq!(teleport_position(3, 2, [16, 8]), [48, 16]);
    assert_eq!(teleport_position(0, 0, [16, 16]), [0, 0]);
    assert_eq!(teleport_position(1, 0, [u32::MAX, 16]), [-1, 0]);
}

#[test]
fn applied_health_changes_raise_damage_and_death() {
    let changes = vec![
        change(4, "health", -3, Some(1)),
        change(9, "health", -10, None),
        change(2, "mana", -5, Some(1)),
        change(4, "health", -7, Some(1)),
        change(7, "health", -1, Some(3)),
        change(5, "health", 2, None),
    ];
    let applied = vec![Some(7), Some(-2), Some(0), Some(0), None, Some(0)];
    let r = resolve_pending_stat_changes(&changes, &applied, "health");
    assert_eq!(
        r.damage_events,
        vec![
            DamageEvent { victim: 4, attacker: Some(1) },
            DamageEvent { victim: 9, attacker: None },
            DamageEvent { victim: 4, attacker: Some(1) },
        ]
    );
    assert_eq!(
        r.death_events,
        vec![
            DeathEvent { victim: 9, attacker: None },
            DeathEvent { victim: 4, attacker: Some(1) },
            DeathEvent { victim: 5, attacker: None },
        ]
    );
    assert_eq!(r.despawn_ids, vec![4, 5, 9]);
}
