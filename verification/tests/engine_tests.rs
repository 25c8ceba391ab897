use vector_graphics::engine::{Mode, PersistRequest, VectorGraphics};
use vector_graphics::geometry::{Rect, Vector2};
use vector_graphics::input::Key;
use vector_graphics::objects::{CollisionType, Color, Controller, Object, FACTION_ENEMY,
    FACTION_PLAYER};

fn block(x: i64, y: i64, w: i64, h: i64) -> Object {
    Object {
        faction: FACTION_PLAYER,
        controller: Controller::Idle,
        rect: Rect { x, y, width: w, height: h },
        color: Color { r: 25, g: 25, b: 25 },
        velocity: Vector2 { x: 0, y: 0 },
        gravity: 0,
        direction: Vector2 { x: 0, y: 0 },
        collision_type: CollisionType::Bounce,
        destroying: false,
        destroy_at_frame: 0,
        enable_firing_at_frame: 0,
        target: 0,
        health: 0,
        max_health: 0,
        damage: 0,
        disable_damage_bar_at_frame: 0,
    }
}

fn pass_entity(x: i64, y: i64, w: i64, h: i64) -> Object {
    Object { collision_type: CollisionType::Pass, ..block(x, y, w, h) }
}

#[test]
fn new_engine_starts_in_edit_mode() {
    let g = VectorGraphics::new();
    assert!(matches!(g.mode, Mode::Edit));
    assert_eq!(g.objects.len(), 0);
    assert_eq!(g.frame, 0);
    assert_eq!(g.speed, 5_000);
    assert_eq!(g.editor_speed, 7_500);
    assert_eq!(g.jump_force, 14_000);
}

#[test]
fn bounce_restores_position_and_zeroes_velocity_x() {
    let mut g = VectorGraphics::new();
    g.objects.push(block(30_000, 0, 20_000, 20_000));
    let mut mover = pass_entity(0, 0, 20_000, 20_000);
    mover.velocity.x = 15_000;
    g.objects.push(mover);
    let blocked = g.slide_x(1, 15_000);
    assert!(blocked);
    assert_eq!(g.objects[1].rect.x, 0);
    assert_eq!(g.objects[1].velocity.x, 0);
}

#[test]
fn bounce_restores_position_and_zeroes_velocity_y() {
    let mut g = VectorGraphics::new();
    g.objects.push(block(0, 30_000, 20_000, 20_000));
    let mut mover = pass_entity(0, 0, 20_000, 20_000);
    mover.velocity.y = 15_000;
    g.objects.push(mover);
    let blocked = g.slide_y(1, 15_000);
    assert!(blocked);
    assert_eq!(g.objects[1].rect.y, 0);
    assert_eq!(g.objects[1].velocity.y, 0);
}

#[test]
fn unblocked_slide_moves_by_distance() {
    let mut g = VectorGraphics::new();
    g.objects.push(pass_entity(0, 0, 20_000, 20_000));
    let blocked = g.slide_x(0, 7_000);
    assert!(!blocked);
    assert_eq!(g.objects[0].rect.x, 7_000);
}

#[test]
fn damage_applies_once_and_consumes_payload() {
    let mut g = VectorGraphics::new();
    let mut defender = pass_entity(0, 0, 20_000, 20_000);
    defender.faction = FACTION_ENEMY;
    defender.health = 20;
    defender.max_health = 20;
    let mut attacker = pass_entity(0, 0, 20_000, 20_000);
    attacker.faction = FACTION_PLAYER;
    attacker.damage = 5;
    g.objects.push(defender);
    g.objects.push(attacker);
    g.apply_damage(0, 1);
    assert_eq!(g.objects[0].health, 15);
    assert_eq!(g.objects[1].damage, 0);
    assert_eq!(g.objects[0].disable_damage_bar_at_frame, 120);
    // A second resolution in the same tick changes nothing: the payload
    // was consumed.
    g.apply_damage(0, 1);
    assert_eq!(g.objects[0].health, 15);
    assert_eq!(g.objects[1].damage, 0);
}

#[test]
fn damage_ignores_same_faction() {
    let mut g = VectorGraphics::new();
    let mut defender = pass_entity(0, 0, 20_000, 20_000);
    defender.health = 20;
    defender.max_health = 20;
    let mut attacker = pass_entity(0, 0, 20_000, 20_000);
    attacker.damage = 5;
    g.objects.push(defender);
    g.objects.push(attacker);
    g.apply_damage(0, 1);
    assert_eq!(g.objects[0].health, 20);
    assert_eq!(g.objects[1].damage, 5);
}

#[test]
fn lethal_damage_clamps_health_and_arms_destruction() {
    let mut g = VectorGraphics::new();
    g.frame = 7;
    let mut defender = pass_entity(0, 0, 20_000, 20_000);
    defender.faction = FACTION_ENEMY;
    defender.health = 3;
    defender.max_health = 20;
    let mut attacker = pass_entity(0, 0, 20_000, 20_000);
    attacker.damage = 5;
    g.objects.push(defender);
    g.objects.push(attacker);
    g.apply_damage(0, 1);
    assert_eq!(g.objects[0].health, 0);
    assert!(g.objects[0].destroying);
    assert_eq!(g.objects[0].destroy_at_frame, 7);
}

#[test]
fn portal_success_centres_on_destination() {
    let mut g = VectorGraphics::new();
    let mut portal_in = pass_entity(0, 0, 20_000, 20_000);
    portal_in.collision_type = CollisionType::PortalTo;
    portal_in.target = 1;
    g.objects.push(portal_in);
    g.objects.push(pass_entity(500_000, 500_000, 20_000, 20_000));
    let mut mover = pass_entity(-15_000, 0, 20_000, 20_000);
    mover.velocity.x = 10_000;
    g.objects.push(mover);
    let blocked = g.slide_x(2, 10_000);
    assert!(!blocked);
    let c = g.objects[2].rect.center();
    assert_eq!(c.x, 510_000);
    assert_eq!(c.y, 510_000);
}

#[test]
fn portal_blocked_by_bounce_reverts_exactly() {
    let mut g = VectorGraphics::new();
    let mut portal_in = pass_entity(0, 0, 20_000, 20_000);
    portal_in.collision_type = CollisionType::PortalTo;
    portal_in.target = 1;
    g.objects.push(portal_in);
    g.objects.push(pass_entity(500_000, 500_000, 20_000, 20_000));
    // A wall sits on the far side of the portal.
    g.objects.push(block(500_000, 500_000, 20_000, 20_000));
    let mover = pass_entity(-15_000, 0, 20_000, 20_000);
    g.objects.push(mover);
    let before = g.objects[3].rect;
    let ok = g.portal_to(3, Vector2 { x: 510_000, y: 510_000 });
    assert!(!ok);
    assert_eq!(g.objects[3].rect, before);
}

#[test]
fn portal_with_stale_target_is_ignored() {
    let mut g = VectorGraphics::new();
    let mut portal_in = pass_entity(0, 0, 20_000, 20_000);
    portal_in.collision_type = CollisionType::PortalTo;
    portal_in.target = 9;
    g.objects.push(portal_in);
    let mut mover = pass_entity(-15_000, 0, 20_000, 20_000);
    mover.velocity.x = 10_000;
    g.objects.push(mover);
    let blocked = g.slide_x(1, 10_000);
    assert!(!blocked);
    assert_eq!(g.objects[1].rect.x, -5_000);
}

#[test]
fn remove_decrements_targets_above_index() {
    let mut g = VectorGraphics::new();
    g.objects.push(block(0, 0, 10_000, 10_000));
    let mut follower = pass_entity(0, 0, 10_000, 10_000);
    follower.target = 2;
    g.objects.push(follower);
    g.objects.push(block(50_000, 0, 10_000, 10_000));
    g.remove_object(0);
    assert_eq!(g.objects.len(), 2);
    assert_eq!(g.objects[0].target, 1);
}

#[test]
fn remove_keeps_targets_at_or_below_index() {
    let mut g = VectorGraphics::new();
    g.objects.push(block(0, 0, 10_000, 10_000));
    let mut a = pass_entity(0, 0, 10_000, 10_000);
    a.target = 0;
    let mut b = pass_entity(0, 0, 10_000, 10_000);
    b.target = 1;
    g.objects.push(a);
    g.objects.push(b);
    g.remove_object(2);
    assert_eq!(g.objects.len(), 2);
    assert_eq!(g.objects[0].target, 0);
    assert_eq!(g.objects[1].target, 0);
}

#[test]
fn sweep_removes_all_due_entities() {
    let mut g = VectorGraphics::new();
    g.frame = 10;
    let mut a = block(0, 0, 10_000, 10_000);
    a.destroying = true;
    a.destroy_at_frame = 10;
    let mut b = block(0, 0, 10_000, 10_000);
    b.destroying = true;
    b.destroy_at_frame = 10;
    let keeper = block(1_000, 0, 10_000, 10_000);
    let mut later = block(0, 0, 10_000, 10_000);
    later.destroying = true;
    later.destroy_at_frame = 11;
    g.objects.push(a);
    g.objects.push(b);
    g.objects.push(keeper);
    g.objects.push(later);
    g.sweep();
    assert_eq!(g.objects.len(), 2);
    assert_eq!(g.objects[0].rect.x, 1_000);
    assert_eq!(g.objects[1].destroy_at_frame, 11);
}

#[test]
fn set_objects_rejects_malformed_entities() {
    let mut g = VectorGraphics::new();
    g.objects.push(block(1, 2, 3, 4));
    let mut bad = block(0, 0, 10_000, 10_000);
    bad.rect.width = -5;
    let ok = g.set_objects(vec![bad]);
    assert!(!ok);
    // The current list is untouched on failure.
    assert_eq!(g.objects.len(), 1);
    assert_eq!(g.objects[0].rect.x, 1);
}

#[test]
fn set_objects_accepts_well_formed_entities() {
    let mut g = VectorGraphics::new();
    let ok = g.set_objects(vec![block(0, 0, 10_000, 10_000), pass_entity(5, 6, 7, 8)]);
    assert!(ok);
    assert_eq!(g.objects.len(), 2);
    assert_eq!(g.objects[1].rect.x, 5);
}

#[test]
fn escape_toggles_mode() {
    let mut g = VectorGraphics::new();
    assert!(matches!(g.mode, Mode::Edit));
    g.keydown(Key::Escape);
    assert!(matches!(g.mode, Mode::Play));
    g.keydown(Key::Escape);
    assert!(matches!(g.mode, Mode::Edit));
}

#[test]
fn save_and_load_are_host_requests_in_edit_mode() {
    let mut g = VectorGraphics::new();
    assert_eq!(g.keydown(Key::Save), Some(PersistRequest::Save));
    assert_eq!(g.keydown(Key::Load), Some(PersistRequest::Load));
    g.keydown(Key::Escape);
    assert_eq!(g.keydown(Key::Save), None);
    assert_eq!(g.keydown(Key::Load), None);
}

#[test]
fn delete_at_pointer_arms_destruction() {
    let mut g = VectorGraphics::new();
    g.frame = 3;
    g.objects.push(block(0, 0, 20_000, 20_000));
    g.mousemove(Vector2 { x: 10_000, y: 10_000 });
    g.keydown(Key::Delete);
    assert!(g.objects[0].destroying);
    assert_eq!(g.objects[0].destroy_at_frame, 3);
}

#[test]
fn delete_with_nothing_under_pointer_is_a_no_op() {
    let mut g = VectorGraphics::new();
    g.objects.push(block(0, 0, 20_000, 20_000));
    g.mousemove(Vector2 { x: 500_000, y: 10_000 });
    g.keydown(Key::Delete);
    assert!(!g.objects[0].destroying);
}

#[test]
fn role_keys_reassign_entity_under_pointer() {
    let mut g = VectorGraphics::new();
    g.objects.push(block(0, 0, 20_000, 20_000));
    g.mousemove(Vector2 { x: 10_000, y: 10_000 });
    g.keydown(Key::MakePlayer);
    assert!(matches!(g.objects[0].controller, Controller::Player));
    assert_eq!(g.objects[0].faction, FACTION_PLAYER);
    assert_eq!(g.objects[0].gravity, 300);
    g.keydown(Key::MakeEnemy);
    assert!(matches!(g.objects[0].controller, Controller::AI));
    assert_eq!(g.objects[0].faction, FACTION_ENEMY);
    assert_eq!(g.objects[0].health, 20);
    assert_eq!(g.objects[0].max_health, 20);
    assert_eq!(g.objects[0].direction.x, -1_000);
}

#[test]
fn portal_pairing_back_patches_the_entry() {
    let mut g = VectorGraphics::new();
    g.objects.push(block(0, 0, 20_000, 20_000));
    g.objects.push(block(500_000, 500_000, 20_000, 20_000));
    g.mousemove(Vector2 { x: 10_000, y: 10_000 });
    g.keydown(Key::MakePortalIn);
    assert!(matches!(g.objects[0].collision_type, CollisionType::Pass));
    g.mousemove(Vector2 { x: 510_000, y: 510_000 });
    g.keydown(Key::MakePortalOut);
    assert!(matches!(g.objects[0].collision_type, CollisionType::PortalTo));
    assert_eq!(g.objects[0].target, 1);
    assert!(matches!(g.objects[1].collision_type, CollisionType::Pass));
}

#[test]
fn drag_commits_a_block_on_release() {
    let mut g = VectorGraphics::new();
    g.mousemove(Vector2 { x: 30_000, y: 40_000 });
    g.keydown(Key::Draw);
    assert!(g.drag.dragging);
    // Drag up and to the left: the committed rectangle is normalised.
    g.mousemove(Vector2 { x: 10_000, y: 15_000 });
    g.keyup(Key::Draw);
    assert!(!g.drag.dragging);
    assert_eq!(g.objects.len(), 1);
    let o = &g.objects[0];
    assert_eq!(o.rect.x, 10_000);
    assert_eq!(o.rect.y, 15_000);
    assert_eq!(o.rect.width, 20_000);
    assert_eq!(o.rect.height, 25_000);
    assert!(matches!(o.collision_type, CollisionType::Bounce));
    assert!(matches!(o.controller, Controller::Idle));
}

#[test]
fn keys_are_held_until_released() {
    let mut g = VectorGraphics::new();
    g.keydown(Key::Left);
    g.keydown(Key::Left);
    assert_eq!(g.input.keys.len(), 1);
    assert!(g.input.is_pressed(&Key::Left));
    g.keyup(Key::Left);
    assert!(!g.input.is_pressed(&Key::Left));
    assert_eq!(g.input.keys.len(), 0);
}

#[test]
fn edit_mode_panning_moves_camera() {
    let mut g = VectorGraphics::new();
    g.keydown(Key::PanRight);
    g.keydown(Key::PanDown);
    g.update();
    assert_eq!(g.cam.x, 7_500);
    assert_eq!(g.cam.y, 7_500);
    assert_eq!(g.frame, 1);
    g.keyup(Key::PanRight);
    g.keyup(Key::PanDown);
    g.keydown(Key::PanLeft);
    g.keydown(Key::PanUp);
    g.update();
    assert_eq!(g.cam.x, 0);
    assert_eq!(g.cam.y, 0);
}

#[test]
fn update_draws_every_entity_and_advances_the_frame() {
    let mut g = VectorGraphics::new();
    g.objects.push(block(1_000, 2_000, 3_000, 4_000));
    g.objects.push(pass_entity(5_000, 6_000, 7_000, 8_000));
    let list = g.update();
    assert_eq!(list.quads.len(), 2);
    assert_eq!(list.quads[0].x, 1_000);
    assert_eq!(list.quads[0].y, 2_000);
    assert_eq!(list.quads[0].width, 3_000);
    assert_eq!(list.quads[0].height, 4_000);
    assert_eq!(g.frame, 1);
}

#[test]
fn update_draws_health_bar_while_window_open() {
    let mut g = VectorGraphics::new();
    let mut e = pass_entity(0, 0, 20_000, 20_000);
    e.faction = FACTION_ENEMY;
    e.health = 10;
    e.max_health = 20;
    e.disable_damage_bar_at_frame = 5;
    g.objects.push(e);
    let list = g.update();
    assert_eq!(list.quads.len(), 2);
    // Width is the healthy fraction of the entity's width.
    assert_eq!(list.quads[1].width, 10_000);
    assert_eq!(list.quads[1].height, 10_000);
    assert_eq!(list.quads[1].color, Color { r: 0, g: 1000, b: 0 });
}

#[test]
fn update_on_empty_store_only_ticks() {
    let mut g = VectorGraphics::new();
    g.keydown(Key::Escape);
    let list = g.update();
    assert_eq!(list.quads.len(), 0);
    assert_eq!(g.frame, 1);
}

#[test]
fn drag_rectangle_is_drawn_while_dragging() {
    let mut g = VectorGraphics::new();
    g.mousemove(Vector2 { x: 30_000, y: 40_000 });
    g.keydown(Key::Draw);
    g.mousemove(Vector2 { x: 50_000, y: 45_000 });
    let list = g.update();
    assert_eq!(list.quads.len(), 1);
    assert_eq!(list.quads[0].x, 30_000);
    assert_eq!(list.quads[0].y, 40_000);
    assert_eq!(list.quads[0].width, 20_000);
    assert_eq!(list.quads[0].height, 5_000);
    assert_eq!(list.quads[0].color, Color { r: 0, g: 0, b: 1000 });
}

#[test]
fn swept_entity_is_not_drawn_on_its_removal_tick() {
    let mut g = VectorGraphics::new();
    let mut doomed = block(0, 0, 10_000, 10_000);
    doomed.destroying = true;
    doomed.destroy_at_frame = 0;
    g.objects.push(doomed);
    g.objects.push(block(50_000, 0, 10_000, 10_000));
    let list = g.update();
    // The sweep runs before rendering: only the survivor is drawn.
    assert_eq!(g.objects.len(), 1);
    assert_eq!(list.quads.len(), 1);
    assert_eq!(list.quads[0].x, 50_000);
}
