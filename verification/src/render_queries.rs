//! What the renderer is asked to draw for the entities of the world.

use vstd::prelude::*;
use crate::indexed_presentation::string_opt_view;
use crate::rules::{AnimationState, EntityId};

verus! {

/// The look of an entity driven by an animation controller: the atlas and
/// tile of its current frame (`None` where the controller cannot name
/// them), its clip, and the palette it is drawn with.
#[derive(Debug, Clone, PartialEq, Eq)]
pub struct AnimatedLook {
    pub atlas_name: Option<String>,
    pub tile_name: Option<String>,
    pub clip_state: AnimationState,
    pub palette_override: Option<String>,
}

/// An object of an object sheet.
#[derive(Debug, Clone, PartialEq, Eq)]
pub struct SheetObject {
    pub sheet: String,
    pub object_name: String,
}

/// An active entity of the world as the renderer sees it.
#[derive(Debug, Clone, PartialEq, Eq)]
pub struct SpriteEntity {
    pub entity_id: EntityId,
    pub visible: bool,
    pub active: bool,
    /// The y coordinate where the entity meets the ground.
    pub ground_contact_y: i32,
    pub render_layer: i32,
    pub position: [i32; 2],
    pub size: [u32; 2],
    pub animation: Option<AnimatedLook>,
    pub static_render: Option<SheetObject>,
    pub projectile: Option<SheetObject>,
}

/// Where a sprite comes from.
#[derive(Debug, Clone, Copy, PartialEq, Eq, Structural)]
pub enum SpriteRenderOrigin {
    AnimatedEntity(EntityId),
    StaticEntity(EntityId),
    Projectile(EntityId),
}

/// How sprites are ordered: by ground contact, then layer, then the order
/// in which sprites of one origin were asked for.
#[derive(Debug, Clone, Copy, PartialEq, Eq, Structural)]
pub struct SpriteSortKey {
    pub primary: i32,
    pub secondary: i32,
    pub sequence: u32,
}

/// What image a sprite shows.
#[derive(Debug, Clone, PartialEq, Eq)]
pub enum SpriteVisualRef {
    AtlasTile { atlas_name: String, tile_name: String },
    ObjectSheetObject { sheet_name: String, object_name: String },
}

/// One sprite to draw, at `position` and stretched to `size`.
#[derive(Debug, Clone, PartialEq, Eq)]
pub struct SpriteRenderRequest {
    pub origin: SpriteRenderOrigin,
    pub sort_key: SpriteSortKey,
    pub visual: SpriteVisualRef,
    pub position: [i32; 2],
    pub size: [u32; 2],
    pub palette_override: Option<String>,
    pub flip_x: bool,
}

/// The kinds of sprite, each with its own sequence.
#[derive(Debug, Clone, Copy, PartialEq, Eq, Structural)]
pub enum SpriteKind {
    Animated,
    Static,
    Projectile,
}

/// Clips that face left are drawn mirrored.
pub open spec fn faces_left(state: AnimationState) -> bool {
    state is IdleLeft || state is WalkLeft || state is AttackLeft
}

/// Whether a clip is drawn mirrored.
pub fn animation_state_flip_x(state: AnimationState) -> (r: bool)
    ensures
        r == faces_left(state),
{
    match state {
        AnimationState::IdleLeft | AnimationState::WalkLeft | AnimationState::AttackLeft => true,
        _ => false,
    }
}

/// Which sprite an entity is drawn as: none unless it is visible and
/// active; an animated one where it has an animation controller that names
/// its frame (none where it cannot); else its static object; else its
/// projectile object.
pub open spec fn sprite_kind(e: SpriteEntity) -> Option<SpriteKind> {
    if !e.visible || !e.active {
        None
    } else {
        match e.animation {
            Some(look) => if look.atlas_name is Some && look.tile_name is Some {
                Some(SpriteKind::Animated)
            } else {
                None
            },
            None => if e.static_render is Some {
                Some(SpriteKind::Static)
            } else if e.projectile is Some {
                Some(SpriteKind::Projectile)
            } else {
                None
            },
        }
    }
}

/// How many of `entities` are drawn as `kind`.
pub open spec fn kind_count(entities: Seq<SpriteEntity>, kind: SpriteKind) -> nat
    decreases entities.len(),
{
    if entities.len() == 0 {
        0
    } else {
        kind_count(entities.drop_last(), kind) + if sprite_kind(entities.last()) == Some(kind) { 1nat } else { 0nat }
    }
}

/// `r` is the sprite of `e`, drawn as `kind`, with `sequence` in its key.
pub open spec fn draws(r: SpriteRenderRequest, e: SpriteEntity, kind: SpriteKind, sequence: nat) -> bool {
    &&& r.sort_key.primary == e.ground_contact_y
    &&& r.sort_key.secondary == e.render_layer
    &&& r.sort_key.sequence == sequence
    &&& r.position == e.position
    &&& r.size == e.size
    &&& match kind {
        SpriteKind::Animated => {
            let look = e.animation.unwrap();
            &&& r.origin == SpriteRenderOrigin::AnimatedEntity(e.entity_id)
            &&& r.visual matches SpriteVisualRef::AtlasTile { atlas_name, tile_name }
            &&& atlas_name@ == look.atlas_name.unwrap()@
            &&& tile_name@ == look.tile_name.unwrap()@
            &&& string_opt_view(r.palette_override) == string_opt_view(look.palette_override)
            &&& r.flip_x == faces_left(look.clip_state)
        },
        SpriteKind::Static => {
            let object = e.static_render.unwrap();
            &&& r.origin == SpriteRenderOrigin::StaticEntity(e.entity_id)
            &&& r.visual matches SpriteVisualRef::ObjectSheetObject { sheet_name, object_name }
            &&& sheet_name@ == object.sheet@
            &&& object_name@ == object.object_name@
            &&& r.palette_override is None
            &&& !r.flip_x
        },
        SpriteKind::Projectile => {
            let object = e.projectile.unwrap();
            &&& r.origin == SpriteRenderOrigin::Projectile(e.entity_id)
            &&& r.visual matches SpriteVisualRef::ObjectSheetObject { sheet_name, object_name }
            &&& sheet_name@ == object.sheet@
            &&& object_name@ == object.object_name@
            &&& r.palette_override is None
            &&& !r.flip_x
        },
    }
}

/// The requests for `entities`: one for each entity that is drawn, in
/// their order, each numbered by how many of its kind came before it.
pub open spec fn requests_for(requests: Seq<SpriteRenderRequest>, entities: Seq<SpriteEntity>) -> bool
    decreases entities.len(),
{
    if entities.len() == 0 {
        requests.len() == 0
    } else {
        let e = entities.last();
        let earlier = entities.drop_last();
        match sprite_kind(e) {
            Some(kind) => requests.len() > 0
                && requests_for(requests.drop_last(), earlier)
                && draws(requests.last(), e, kind, kind_count(earlier, kind)),
            None => requests_for(requests, earlier),
        }
    }
}

fn clone_name(o: &Option<String>) -> (r: Option<String>)
    ensures
        string_opt_view(r) == string_opt_view(*o),
{
    match o {
        Some(s) => Some(s.clone()),
        None => None,
    }
}

fn sheet_visual(object: &SheetObject) -> (r: SpriteVisualRef)
    ensures
        r matches SpriteVisualRef::ObjectSheetObject { sheet_name, object_name }
            && sheet_name@ == object.sheet@ && object_name@ == object.object_name@,
{
    SpriteVisualRef::ObjectSheetObject { sheet_name: object.sheet.clone(), object_name: object.object_name.clone() }
}

/// The sprites to draw for the active entities, in the entities' order.
/// An entity that is hidden or inactive, or whose animation controller
/// cannot name its frame, is not drawn.
pub fn sprite_render_requests(entities: &Vec<SpriteEntity>) -> (r: Vec<SpriteRenderRequest>)
    requires
        entities@.len() <= u32::MAX,
    ensures
        requests_for(r@, entities@),
{
    let mut requests: Vec<SpriteRenderRequest> = Vec::new();
    let mut animated_sequence: u32 = 0;
    let mut static_sequence: u32 = 0;
    let mut projectile_sequence: u32 = 0;
    let mut i: usize = 0;
    while i < entities.len()
        invariant
            i <= entities@.len(),
            entities@.len() <= u32::MAX,
            requests_for(requests@, entities@.subrange(0, i as int)),
            animated_sequence == kind_count(entities@.subrange(0, i as int), SpriteKind::Animated),
            static_sequence == kind_count(entities@.subrange(0, i as int), SpriteKind::Static),
            projectile_sequence == kind_count(entities@.subrange(0, i as int), SpriteKind::Projectile),
            animated_sequence + static_sequence + projectile_sequence <= i,
        decreases entities.len() - i,
    {
        let ghost prefix = entities@.subrange(0, i as int);
        let ghost next = entities@.subrange(0, i + 1);
        assert(next.drop_last() == prefix);
        assert(next.last() == entities@[i as int]);
        proof {
            lemma_kinds_bounded(prefix);
        }
        let e = &entities[i];
        let ghost before = requests@;
        if e.visible && e.active {
            match &e.animation {
                Some(look) => {
                    match (&look.atlas_name, &look.tile_name) {
                        (Some(atlas_name), Some(tile_name)) => {
                            let request = SpriteRenderRequest {
                                origin: SpriteRenderOrigin::AnimatedEntity(e.entity_id),
                                sort_key: SpriteSortKey {
                                    primary: e.ground_contact_y,
                                    secondary: e.render_layer,
                                    sequence: animated_sequence,
                                },
                                visual: SpriteVisualRef::AtlasTile {
                                    atlas_name: atlas_name.clone(),
                                    tile_name: tile_name.clone(),
                                },
                                position: e.position,
                                size: e.size,
                                palette_override: clone_name(&look.palette_override),
                                flip_x: animation_state_flip_x(look.clip_state),
                            };
                            requests.push(request);
                            animated_sequence = animated_sequence + 1;
                        },
                        _ => {},
                    }
                },
                None => {
                    match &e.static_render {
                        Some(object) => {
                            requests.push(SpriteRenderRequest {
                                origin: SpriteRenderOrigin::StaticEntity(e.entity_id),
                                sort_key: SpriteSortKey {
                                    primary: e.ground_contact_y,
                                    secondary: e.render_layer,
                                    sequence: static_sequence,
                                },
                                visual: sheet_visual(object),
                                position: e.position,
                                size: e.size,
                                palette_override: None,
                                flip_x: false,
                            });
                            static_sequence = static_sequence + 1;
                        },
                        None => {
                            match &e.projectile {
                                Some(object) => {
                                    requests.push(SpriteRenderRequest {
                                        origin: SpriteRenderOrigin::Projectile(e.entity_id),
                                        sort_key: SpriteSortKey {
                                            primary: e.ground_contact_y,
                                            secondary: e.render_layer,
                                            sequence: projectile_sequence,
                                        },
                                        visual: sheet_visual(object),
                                        position: e.position,
                                        size: e.size,
                                        palette_override: None,
                                        flip_x: false,
                                    });
                                    projectile_sequence = projectile_sequence + 1;
                                },
                                None => {},
                            }
                        },
                    }
                },
            }
        }
        assert(requests@.len() > before.len() ==> requests@.drop_last() == before);
        i = i + 1;
    }
    assert(entities@.subrange(0, entities@.len() as int) == entities@);
    requests
}

proof fn lemma_kinds_bounded(entities: Seq<SpriteEntity>)
    ensures
        kind_count(entities, SpriteKind::Animated) + kind_count(entities, SpriteKind::Static)
            + kind_count(entities, SpriteKind::Projectile) <= entities.len(),
    decreases entities.len(),
{
    if entities.len() > 0 {
        lemma_kinds_bounded(entities.drop_last());
    }
}

/// An entity is drawable when it is visible and has an animation, a static
/// object or a projectile to show.
pub open spec fn renderable(e: SpriteEntity) -> bool {
    e.visible && (e.animation is Some || e.static_render is Some || e.projectile is Some)
}

/// The drawable ones of the first `n` entities, with their positions and
/// sizes, in order.
pub open spec fn renderable_prefix(entities: Seq<SpriteEntity>, n: int) -> Seq<(EntityId, [i32; 2], [u32; 2])>
    decreases n,
{
    if n <= 0 {
        Seq::empty()
    } else {
        let earlier = renderable_prefix(entities, n - 1);
        let e = entities[n - 1];
        if renderable(e) { earlier.push((e.entity_id, e.position, e.size)) } else { earlier }
    }
}

/// The active entities that can be drawn, with where and how large.
pub fn renderable_entities(entities: &Vec<SpriteEntity>) -> (r: Vec<(EntityId, [i32; 2], [u32; 2])>)
    ensures
        r@ == renderable_prefix(entities@, entities@.len() as int),
{
    let mut r: Vec<(EntityId, [i32; 2], [u32; 2])> = Vec::new();
    let mut i: usize = 0;
    while i < entities.len()
        invariant
            i <= entities@.len(),
            r@ == renderable_prefix(entities@, i as int),
        decreases entities.len() - i,
    {
        let e = &entities[i];
        if e.visible && (e.animation.is_some() || e.static_render.is_some() || e.projectile.is_some()) {
            r.push((e.entity_id, e.position, e.size));
        }
        i = i + 1;
    }
    r
}

/// An active entity's health as a health bar sees it.
#[derive(Debug, Clone, Copy, PartialEq, Eq)]
pub struct HealthBarSource {
    pub entity_id: EntityId,
    pub visible: bool,
    pub active: bool,
    pub position: [i32; 2],
    pub size: [u32; 2],
    pub current: Option<i32>,
    pub base: Option<i32>,
}

/// A health bar over an entity: `current` out of `max`.
#[derive(Debug, Clone, Copy, PartialEq, Eq)]
pub struct EntityHealthBar {
    pub entity_id: EntityId,
    pub position: [i32; 2],
    pub size: [u32; 2],
    pub current: i32,
    pub max: i32,
}

/// The bar of an entity: none unless it is visible, active and has a
/// current health; its maximum is its base health, or its current health
/// without one, and must be positive; the current health is clamped into
/// zero to the maximum.
pub open spec fn health_bar_of(e: HealthBarSource) -> Option<EntityHealthBar> {
    if !e.visible || !e.active || e.current is None {
        None
    } else {
        let current = e.current.unwrap();
        let max = match e.base { Some(b) => b, None => current };
        if max <= 0 {
            None
        } else {
            Some(EntityHealthBar {
                entity_id: e.entity_id,
                position: e.position,
                size: e.size,
                current: if current < 0 { 0 } else if current > max { max } else { current },
                max,
            })
        }
    }
}

/// The bars of the first `n` entities, in order.
pub open spec fn health_bars_prefix(sources: Seq<HealthBarSource>, n: int) -> Seq<EntityHealthBar>
    decreases n,
{
    if n <= 0 {
        Seq::empty()
    } else {
        let earlier = health_bars_prefix(sources, n - 1);
        match health_bar_of(sources[n - 1]) {
            Some(b) => earlier.push(b),
            None => earlier,
        }
    }
}

/// The health bars of the active entities, in order.
pub fn entity_health_bars(sources: &Vec<HealthBarSource>) -> (r: Vec<EntityHealthBar>)
    ensures
        r@ == health_bars_prefix(sources@, sources@.len() as int),
{
    let mut r: Vec<EntityHealthBar> = Vec::new();
    let mut i: usize = 0;
    while i < sources.len()
        invariant
            i <= sources@.len(),
            r@ == health_bars_prefix(sources@, i as int),
        decreases sources.len() - i,
    {
        let e = sources[i];
        if e.visible && e.active {
            if let Some(current) = e.current {
                let max = match e.base { Some(b) => b, None => current };
                if max > 0 {
                    let shown = if current < 0 { 0 } else if current > max { max } else { current };
                    r.push(EntityHealthBar { entity_id: e.entity_id, position: e.position, size: e.size, current: shown, max });
                }
            }
        }
        i = i + 1;
    }
    r
}

/// The solid tiles among the first `n` tiles of a map `width` tiles wide,
/// taken row by row; `solid[i]` is the map's answer for tile `i`, `None`
/// where it could not tell.
pub open spec fn solid_tiles_prefix(solid: Seq<Option<bool>>, width: nat, n: int) -> Seq<(u32, u32)>
    decreases n,
{
    if n <= 0 || width == 0 {
        Seq::empty()
    } else {
        let earlier = solid_tiles_prefix(solid, width, n - 1);
        if solid[n - 1] == Some(true) {
            earlier.push((((n - 1) % (width as int)) as u32, ((n - 1) / (width as int)) as u32))
        } else {
            earlier
        }
    }
}

/// The solid tiles of a `width` × `height` map, row by row, when collision
/// debugging is on; none when it is off.
pub fn solid_tile_positions(debug_collision_rendering: bool, width: u32, height: u32, solid: &Vec<Option<bool>>) -> (r: Vec<(u32, u32)>)
    requires
        solid@.len() == width as int * height as int,
    ensures
        r@ == (if debug_collision_rendering {
            solid_tiles_prefix(solid@, width as nat, solid@.len() as int)
        } else {
            Seq::empty()
        }),
{
    let mut r: Vec<(u32, u32)> = Vec::new();
    if !debug_collision_rendering {
        return r;
    }
    let total: usize = solid.len();
    let mut y: u32 = 0;
    while y < height
        invariant
            y <= height,
            total == solid@.len(),
            solid@.len() == width as int * height as int,
            r@ == solid_tiles_prefix(solid@, width as nat, y as int * width as int),
        decreases height - y,
    {
        let mut x: u32 = 0;
        while x < width
            invariant
                x <= width,
                y < height,
                total == solid@.len(),
                solid@.len() == width as int * height as int,
                r@ == solid_tiles_prefix(solid@, width as nat, y as int * width as int + x as int),
            decreases width - x,
        {
            let ghost n = y as int * width as int + x as int;
            assert(n < width as int * height as int) by (nonlinear_arith)
                requires x < width, y < height, n == y as int * width as int + x as int;
            assert(n % (width as int) == x as int && n / (width as int) == y as int) by (nonlinear_arith)
                requires x < width, n == y as int * width as int + x as int, 0 <= y;
            assert((y as usize) as int * (width as usize) as int == y as int * width as int);
            let i = y as usize * width as usize + x as usize;
            if solid[i] == Some(true) {
                r.push((x, y));
            }
            x = x + 1;
        }
        assert((y + 1) as int * width as int == y as int * width as int + width as int) by (nonlinear_arith);
        y = y + 1;
    }
    assert(height as int * width as int == solid@.len()) by (nonlinear_arith)
        requires solid@.len() == width as int * height as int;
    r
}

} // verus!
