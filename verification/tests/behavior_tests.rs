use vector_graphics::engine::{Mode, VectorGraphics};
use vector_graphics::geometry::{Rect, Vector2};
use vector_graphics::input::Key;
use vector_graphics::objects::{CollisionType, Color, Controller, Object, FACTION_ENEMY,
    FACTION_PLAYER};

fn entity(x: i64, y: i64, w: i64, h: i64) -> Object {
    Object {
        faction: FACTION_PLAYER,
        controller: Controller::Idle,
        rect: Rect { x, y, width: w, height: h },
        color: Color { r: 25, g: 25, b: 25 },
        velocity: Vector2 { x: 0, y: 0 },
        gravity: 0,
        direction: Vector2 { x: 0, y: 0 },
        collision_type: CollisionType::Pass,
        destroying: false,
        destroy_at_frame: 0,
        enable_firing_at_frame: 0,
        target: 0,
        health: 0,
        max_health: 0,
        damage: 0,
        disable_damage_bar_at_frame: 0,
    }
}

fn solid(x: i64, y: i64, w: i64, h: i64) -> Object {
    Object { collision_type: CollisionType::Bounce, ..entity(x, y, w, h) }
}

#[test]
fn ai_paces_and_reverses_on_block() {
    let mut g = VectorGraphics::new();
    g.mode = Mode::Play;
    g.objects.push(solid(-26_000, 0, 20_000, 20_000));
    let mut pacer = entity(0, 0, 20_000, 20_000);
    pacer.controller = Controller::AI;
    pacer.faction = FACTION_ENEMY;
    pacer.direction = Vector2 { x: -1_000, y: 0 };
    g.objects.push(pacer);
    g.update();
    // Five pixels per tick to the left.
    assert_eq!(g.objects[1].rect.x, -5_000);
    assert_eq!(g.objects[1].direction.x, -1_000);
    g.update();
    // The next step hits the block: position reverted, direction flipped.
    assert_eq!(g.objects[1].rect.x, -5_000);
    assert_eq!(g.objects[1].direction.x, 1_000);
    g.update();
    assert_eq!(g.objects[1].rect.x, 0);
}

#[test]
fn player_jumps_only_when_grounded() {
    let mut g = VectorGraphics::new();
    g.mode = Mode::Play;
    g.objects.push(solid(0, 100_000, 100_000, 20_000));
    let mut player = entity(0, 80_000, 20_000, 20_000);
    player.controller = Controller::Player;
    player.gravity = 300;
    g.objects.push(player);
    g.keydown(Key::Jump);
    g.update();
    // Standing on the block: the fall was blocked, so the jump fired.
    assert_eq!(g.objects[1].rect.y, 80_000);
    assert_eq!(g.objects[1].velocity.y, -14_000);
    // Airborne now: holding jump does nothing more.
    g.update();
    assert_eq!(g.objects[1].velocity.y, -13_700);
    assert_eq!(g.objects[1].rect.y, 80_000 - 13_700);
}

#[test]
fn player_held_both_directions_stands_still() {
    let mut g = VectorGraphics::new();
    g.mode = Mode::Play;
    let mut player = entity(0, 0, 20_000, 20_000);
    player.controller = Controller::Player;
    g.objects.push(player);
    g.keydown(Key::Left);
    g.keydown(Key::Right);
    g.update();
    assert_eq!(g.objects[0].rect.x, 0);
    g.keyup(Key::Left);
    g.update();
    // Only right held: five pixels per tick.
    assert_eq!(g.objects[0].rect.x, 5_000);
}

#[test]
fn camera_follows_player() {
    let mut g = VectorGraphics::new();
    g.resize(1_200_000, 800_000);
    g.mode = Mode::Play;
    let mut player = entity(100_000, 50_000, 20_000, 20_000);
    player.controller = Controller::Player;
    g.objects.push(player);
    g.update();
    // Camera centres the player's centre on the screen.
    assert_eq!(g.cam.x, 110_000 - 600_000);
    assert_eq!(g.cam.y, 60_000 - 400_000);
}

#[test]
fn follower_recentres_on_target_with_offset() {
    let mut g = VectorGraphics::new();
    g.mode = Mode::Play;
    g.objects.push(entity(100_000, 100_000, 20_000, 20_000));
    let mut follower = entity(0, 0, 10_000, 10_000);
    follower.controller = Controller::FollowTarget;
    follower.target = 0;
    follower.direction = Vector2 { x: 30_000, y: -5_000 };
    g.objects.push(follower);
    g.update();
    // Target centre (110, 110) plus offset, minus half extents.
    assert_eq!(g.objects[1].rect.x, 110_000 - 5_000 + 30_000);
    assert_eq!(g.objects[1].rect.y, 110_000 - 5_000 - 5_000);
}

#[test]
fn follower_with_stale_target_stays_put() {
    let mut g = VectorGraphics::new();
    g.mode = Mode::Play;
    let mut follower = entity(7_000, 8_000, 10_000, 10_000);
    follower.controller = Controller::FollowTarget;
    follower.target = 9;
    g.objects.push(follower);
    g.update();
    assert_eq!(g.objects[0].rect.x, 7_000);
    assert_eq!(g.objects[0].rect.y, 8_000);
}

#[test]
fn combat_resolves_at_portal_destination() {
    let mut g = VectorGraphics::new();
    // Entry paired to an exit whose far side holds an armed enemy.
    let mut portal_in = entity(0, 0, 20_000, 20_000);
    portal_in.collision_type = CollisionType::PortalTo;
    portal_in.target = 1;
    g.objects.push(portal_in);
    g.objects.push(entity(500_000, 500_000, 20_000, 20_000));
    let mut lurker = entity(500_000, 500_000, 20_000, 20_000);
    lurker.faction = FACTION_ENEMY;
    lurker.damage = 5;
    g.objects.push(lurker);
    let mut mover = entity(-15_000, 0, 20_000, 20_000);
    mover.health = 20;
    mover.max_health = 20;
    g.objects.push(mover);
    let blocked = g.slide_x(3, 10_000);
    assert!(!blocked);
    // The mover arrived and was hurt by what waited there.
    assert_eq!(g.objects[3].rect.center().x, 510_000);
    assert_eq!(g.objects[3].health, 15);
    assert_eq!(g.objects[2].damage, 0);
}
