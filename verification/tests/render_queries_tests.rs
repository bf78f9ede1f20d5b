use toki_core::render_queries::{
    animation_state_flip_x, entity_health_bars, renderable_entities, solid_tile_positions,
    sprite_render_requests, AnimatedLook, EntityHealthBar, HealthBarSource, SheetObject,
    SpriteEntity, SpriteRenderOrigin, SpriteVisualRef,
};
use toki_core::rules::AnimationState;

fn entity(entity_id: u32) -> SpriteEntity {
    SpriteEntity {
        entity_id,
        visible: true,
        active: true,
        ground_contact_y: 10 * entity_id as i32,
        render_layer: 1,
        position: [entity_id as i32, 2],
        size: [16, 16],
        animation: None,
        static_render: None,
        projectile: None,
    }
}

fn animated(entity_id: u32, clip_state: AnimationState) -> SpriteEntity {
    let mut e = entity(entity_id);
    e.animation = Some(AnimatedLook {
        atlas_name: Some("hero".to_string()),
        tile_name: Some(format!("walk_{entity_id}")),
        clip_state,
        palette_override: Some("night".to_string()),
    });
    e
}

fn object(sheet: &str, object_name: &str) -> SheetObject {
    SheetObject { sheet: sheet.to_string(), object_name: object_name.to_string() }
}

#[test]
fn left_facing_clips_are_mirrored() {
    assert!(animation_state_flip_x(AnimationState::IdleLeft));
    assert!(animation_state_flip_x(AnimationState::WalkLeft));
    assert!(animation_state_flip_x(AnimationState::AttackLeft));
    assert!(!animation_state_flip_x(AnimationState::WalkRight));
    assert!(!animation_state_flip_x(AnimationState::Idle));
}

#[test]
fn each_kind_of_sprite_has_its_own_sequence() {
    let mut tree = entity(2);
    tree.static_render = Some(object("props", "tree"));
    let mut arrow = entity(3);
    arrow.projectile = Some(object("fx", "arrow"));
    let mut rock = entity(5);
    rock.static_render = Some(object("props", "rock"));
    let entities = vec![animated(1, AnimationState::WalkLeft), tree, arrow, animated(4, AnimationState::Idle), rock];

    let requests = sprite_render_requests(&entities);
    assert_eq!(requests.len(), 5);
    assert_eq!(requests[0].origin, SpriteRenderOrigin::AnimatedEntity(1));
    assert_eq!(requests[0].sort_key.sequence, 0);
    assert_eq!(requests[0].sort_key.primary, 10);
    assert_eq!(requests[0].sort_key.secondary, 1);
    assert!(requests[0].flip_x);
    assert_eq!(requests[0].palette_override.as_deref(), Some("night"));
    assert_eq!(
        requests[0].visual,
        SpriteVisualRef::AtlasTile { atlas_name: "hero".to_string(), tile_name: "walk_1".to_string() }
    );
    assert_eq!(requests[1].origin, SpriteRenderOrigin::StaticEntity(2));
    assert_eq!(requests[1].sort_key.sequence, 0);
    assert_eq!(
        requests[1].visual,
        SpriteVisualRef::ObjectSheetObject { sheet_name: "props".to_string(), object_name: "tree".to_string() }
    );
    assert_eq!(requests[1].palette_override, None);
    assert_eq!(requests[2].origin, SpriteRenderOrigin::Projectile(3));
    assert_eq!(requests[2].sort_key.sequence, 0);
    assert_eq!(requests[3].origin, SpriteRenderOrigin::AnimatedEntity(4));
    assert_eq!(requests[3].sort_key.sequence, 1);
    assert!(!requests[3].flip_x);
    assert_eq!(requests[4].origin, SpriteRenderOrigin::StaticEntity(5));
    assert_eq!(requests[4].sort_key.sequence, 1);
    assert_eq!(requests[4].position, [5, 2]);
    assert_eq!(requests[4].size, [16, 16]);
}

#[test]
fn hidden_inactive_and_unnamed_entities_are_not_drawn() {
    let mut hidden = entity(1);
    hidden.static_render = Some(object("props", "tree"));
    hidden.visible = false;
    let mut inactive = entity(2);
    inactive.static_render = Some(object("props", "tree"));
    inactive.active = false;
    let mut unnamed = animated(3, AnimationState::Idle);
    unnamed.static_render = Some(object("props", "tree"));
    if let Some(look) = unnamed.animation.as_mut() {
        look.tile_name = None;
    }
    let bare = entity(4);
    assert!(sprite_render_requests(&vec![hidden, inactive, unnamed, bare]).is_empty());
}

#[test]
fn animation_wins_over_static_and_static_over_projectile() {
    let mut both = animated(1, AnimationState::Idle);
    both.static_render = Some(object("props", "tree"));
    let mut static_and_projectile = entity(2);
    static_and_projectile.static_render = Some(object("props", "tree"));
    static_and_projectile.projectile = Some(object("fx", "arrow"));
    let requests = sprite_render_requests(&vec![both, static_and_projectile]);
    assert_eq!(requests[0].origin, SpriteRenderOrigin::AnimatedEntity(1));
    assert_eq!(requests[1].origin, SpriteRenderOrigin::StaticEntity(2));
}

#[test]
fn renderable_entities_are_visible_ones_with_something_to_show() {
    let mut tree = entity(2);
    tree.static_render = Some(object("props", "tree"));
    let mut hidden = animated(3, AnimationState::Idle);
    hidden.visible = false;
    let bare = entity(4);
    let mut arrow = entity(5);
    arrow.projectile = Some(object("fx", "arrow"));
    let r = renderable_entities(&vec![animated(1, AnimationState::Idle), tree, hidden, bare, arrow]);
    assert_eq!(r, vec![(1, [1, 2], [16, 16]), (2, [2, 2], [16, 16]), (5, [5, 2], [16, 16])]);
}

fn source(entity_id: u32, current: Option<i32>, base: Option<i32>) -> HealthBarSource {
    HealthBarSource { entity_id, visible: true, active: true, position: [1, 2], size: [16, 16], current, base }
}

#[test]
fn health_bars_clamp_current_into_the_maximum() {
    let mut hidden = source(6, Some(3), Some(5));
    hidden.visible = false;
    let bars = entity_health_bars(&vec![
        source(1, Some(3), Some(10)),
        source(2, Some(12), Some(10)),
        source(3, Some(-4), Some(10)),
        source(4, Some(7), None),
        source(5, None, Some(10)),
        source(7, Some(0), None),
        hidden,
    ]);
    let bar = |entity_id, current, max| EntityHealthBar { entity_id, position: [1, 2], size: [16, 16], current, max };
    assert_eq!(bars, vec![bar(1, 3, 10), bar(2, 10, 10), bar(3, 0, 10), bar(4, 7, 7)]);
}

#[test]
fn solid_tiles_are_listed_row_by_row_when_debugging() {
    let solid = vec![Some(false), Some(true), None, Some(true), Some(false), Some(true)];
    assert_eq!(solid_tile_positions(true, 3, 2, &solid), vec![(1, 0), (0, 1), (2, 1)]);
    assert!(solid_tile_positions(false, 3, 2, &solid).is_empty());
}
