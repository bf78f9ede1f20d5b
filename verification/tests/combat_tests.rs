use toki_core::combat::{
    advance_projectile, facing_vector, projectile_hit_target, spawn_primary_projectile,
    update_projectiles, DamageRequest, FacingDirection, HitCandidate, PrimaryProjectileSpec,
    ProjectileFate, ProjectileMotion,
};
use toki_core::interaction::Bounds;

fn spec() -> PrimaryProjectileSpec {
    PrimaryProjectileSpec {
        sheet: "fx".to_string(),
        object_name: "arrow".to_string(),
        size: [8, 4],
        spawn_offset: [2, -3],
        speed: 5,
        lifetime_ticks: 10,
        damage: 7,
    }
}

fn target(entity_id: u32, x: i32, y: i32) -> HitCandidate {
    HitCandidate {
        entity_id,
        active: true,
        has_health: true,
        is_projectile: false,
        bounds: Bounds { x, y, width: 16, height: 16 },
    }
}

fn motion(entity_id: u32, position: [i32; 2], velocity: [i32; 2], remaining_ticks: u32) -> ProjectileMotion {
    ProjectileMotion {
        entity_id,
        position,
        size: [4, 4],
        velocity,
        remaining_ticks,
        damage: 6,
        owner_id: Some(1),
    }
}

#[test]
fn facing_vectors_point_in_screen_directions() {
    assert_eq!(facing_vector(FacingDirection::Down), [0, 1]);
    assert_eq!(facing_vector(FacingDirection::Up), [0, -1]);
    assert_eq!(facing_vector(FacingDirection::Left), [-1, 0]);
    assert_eq!(facing_vector(FacingDirection::Right), [1, 0]);
}

#[test]
fn projectile_spawns_one_attacker_size_ahead() {
    let spawn = spawn_primary_projectile(1, [100, 50], [16, 16], &spec(), FacingDirection::Right)
        .expect("spec fires");
    assert_eq!(spawn.position, [118, 47]);
    assert_eq!(spawn.size, [8, 4]);
    assert_eq!(spawn.projectile.velocity, [5, 0]);
    assert_eq!(spawn.projectile.remaining_ticks, 10);
    assert_eq!(spawn.projectile.damage, 7);
    assert_eq!(spawn.projectile.owner_id, Some(1));
    assert_eq!(spawn.projectile.sheet, "fx");
    assert_eq!(spawn.projectile.object_name, "arrow");

    let up = spawn_primary_projectile(1, [100, 50], [16, 16], &spec(), FacingDirection::Up).unwrap();
    assert_eq!(up.position, [102, 31]);
    assert_eq!(up.projectile.velocity, [0, -5]);
}

#[test]
fn negative_damage_is_floored_at_zero() {
    let mut s = spec();
    s.damage = -4;
    let spawn = spawn_primary_projectile(1, [0, 0], [16, 16], &s, FacingDirection::Down).unwrap();
    assert_eq!(spawn.projectile.damage, 0);
}

#[test]
fn spec_without_area_or_lifetime_fires_nothing() {
    let mut s = spec();
    s.size = [0, 4];
    assert!(spawn_primary_projectile(1, [0, 0], [16, 16], &s, FacingDirection::Down).is_none());
    let mut s = spec();
    s.lifetime_ticks = 0;
    assert!(spawn_primary_projectile(1, [0, 0], [16, 16], &s, FacingDirection::Down).is_none());
}

#[test]
fn hit_target_is_the_smallest_struck_id() {
    let bounds = Bounds { x: 0, y: 0, width: 8, height: 8 };
    let mut inactive = target(2, 0, 0);
    inactive.active = false;
    let mut healthless = target(3, 0, 0);
    healthless.has_health = false;
    let mut other_projectile = target(4, 0, 0);
    other_projectile.is_projectile = true;
    let targets = vec![
        target(9, 0, 0),
        target(1, 0, 0),
        inactive,
        healthless,
        other_projectile,
        target(7, 4, 4),
        target(5, 100, 100),
    ];
    assert_eq!(projectile_hit_target(20, Some(1), bounds, &targets), Some(7));
    assert_eq!(projectile_hit_target(20, None, bounds, &targets), Some(1));
    assert_eq!(projectile_hit_target(7, Some(1), bounds, &targets), Some(9));
    assert_eq!(projectile_hit_target(20, Some(1), bounds, &Vec::new()), None);
}

#[test]
fn projectile_moves_and_spends_a_tick() {
    let mut p = motion(10, [0, 0], [3, -2], 5);
    let fate = advance_projectile(&mut p, true, &Vec::new());
    assert_eq!(fate, ProjectileFate::Flying);
    assert_eq!(p.position, [3, -2]);
    assert_eq!(p.remaining_ticks, 4);
}

#[test]
fn projectile_fates_in_one_tick() {
    let targets = vec![target(2, 20, 0)];
    let mut projectiles = vec![
        motion(10, [0, 0], [4, 0], 0),
        motion(11, [0, 0], [4, 0], 5),
        motion(12, [10, 0], [8, 0], 5),
        motion(13, [0, 40], [4, 0], 1),
        motion(14, [0, 80], [4, 0], 3),
    ];
    let may_move = vec![true, false, true, true, true];
    let update = update_projectiles(&mut projectiles, &may_move, &targets);
    assert_eq!(
        update.damage,
        vec![DamageRequest { target_id: 2, amount: 6, source_id: Some(1) }]
    );
    assert_eq!(update.despawn_ids, vec![10, 11, 12, 13]);
    assert_eq!(projectiles[0].position, [0, 0]);
    assert_eq!(projectiles[1].position, [0, 0]);
    assert_eq!(projectiles[1].remaining_ticks, 5);
    assert_eq!(projectiles[2].position, [18, 0]);
    assert_eq!(projectiles[3].remaining_ticks, 0);
    assert_eq!(projectiles[4].position, [4, 80]);
    assert_eq!(projectiles[4].remaining_ticks, 2);
}
