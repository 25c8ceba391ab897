use vector_graphics::engine::{Mode, VectorGraphics};
use vector_graphics::geometry::{Rect, Vector2};
use vector_graphics::input::Key;
use vector_graphics::objects::{CollisionType, Color, Controller, Object, FACTION_ENEMY,
    FACTION_PLAYER};

fn entity(x: i64, y: i64, w: i64, h: i64) -> Object {
    Object {
        faction: FACTION_PLAYER,
        controller: Controller::Idle,
        rect: Rect { x, y, width: w, height: h },
        color: Color { r: 25, g: 25, b: 25 },
        velocity: Vector2 { x: 0, y: 0 },
        gravity: 0,
        direction: Vector2 { x: 0, y: 0 },
        collision_type: CollisionType::Pass,
        destroying: false,
        destroy_at_frame: 0,
        enable_firing_at_frame: 0,
        target: 0,
        health: 0,
        max_health: 0,
        damage: 0,
        disable_damage_bar_at_frame: 0,
    }
}

/// A falling entity comes to rest on a block: after 200 play-mode ticks it
/// sits just above the block's top edge with its vertical velocity zeroed
/// by the bounce on every contact tick.
#[test]
fn falling_entity_rests_on_block() {
    let mut g = VectorGraphics::new();
    g.mode = Mode::Play;
    // Block at (0, 100, 100, 20) world pixels.
    let mut blk = entity(0, 100_000, 100_000, 20_000);
    blk.collision_type = CollisionType::Bounce;
    g.objects.push(blk);
    // Falling entity at (0, 0, 20, 20) with gravity three tenths of a
    // pixel per tick.
    let mut faller = entity(0, 0, 20_000, 20_000);
    faller.gravity = 300;
    g.objects.push(faller);
    let mut first_contact_y: Option<i64> = None;
    for _ in 0..200 {
        g.update();
        if first_contact_y.is_none() && g.objects[1].velocity.y == 0 && g.frame > 1 {
            first_contact_y = Some(g.objects[1].rect.y);
        }
    }
    // At rest the bottom edge sits within a fraction of a pixel of the
    // block's top at y = 100: the open-boundary overlap test together
    // with the exact bounce revert leaves the last non-overlapping
    // position, 99.8 pixels here.
    assert_eq!(g.objects[1].rect.y, 79_800);
    assert_eq!(g.objects[1].velocity.y, 0);
    assert_eq!(g.objects[1].rect.x, 0);
    // First contact happened on the tick the fall was first blocked.
    assert_eq!(first_contact_y, Some(75_900));
}

/// A fired projectile damages an enemy once and expires exactly 20 frames
/// after it was spawned.
#[test]
fn projectile_damages_enemy_once_and_expires() {
    let mut g = VectorGraphics::new();
    g.mode = Mode::Play;
    let mut player = entity(0, 0, 20_000, 20_000);
    player.controller = Controller::Player;
    player.faction = FACTION_PLAYER;
    g.objects.push(player);
    let mut enemy = entity(30_000, 0, 20_000, 20_000);
    enemy.faction = FACTION_ENEMY;
    enemy.health = 20;
    enemy.max_health = 20;
    g.objects.push(enemy);
    // Aim to the right of the player and hold fire.
    g.mousemove(Vector2 { x: 100_000, y: 10_000 });
    g.keydown(Key::Fire);
    g.update();
    // The projectile exists, carries its payload, and is scheduled to
    // expire 20 frames after the spawn frame.
    assert_eq!(g.objects.len(), 3);
    assert!(matches!(g.objects[2].controller, Controller::FollowTarget));
    assert_eq!(g.objects[2].target, 0);
    assert!(g.objects[2].destroying);
    assert_eq!(g.objects[2].destroy_at_frame, 20);
    g.keyup(Key::Fire);
    for _ in 0..3 {
        g.update();
    }
    // One overlap delivered the payload exactly once.
    assert_eq!(g.objects[1].health, 15);
    assert_eq!(g.objects[2].damage, 0);
    while g.frame < 20 {
        g.update();
    }
    assert_eq!(g.objects.len(), 3);
    g.update();
    // Removed on the first sweep at or after its expiry frame.
    assert_eq!(g.objects.len(), 2);
}

/// An entity overlapping a portal entry relocates so its centre lands
/// exactly on the paired exit's centre.
#[test]
fn portal_relocates_mover_to_exit_centre() {
    let mut g = VectorGraphics::new();
    // Portal entry at (0, 0, 20, 20) paired to the exit at
    // (500, 500, 20, 20).
    let mut portal_in = entity(0, 0, 20_000, 20_000);
    portal_in.collision_type = CollisionType::PortalTo;
    portal_in.target = 1;
    g.objects.push(portal_in);
    g.objects.push(entity(500_000, 500_000, 20_000, 20_000));
    let mut mover = entity(-15_000, 0, 20_000, 20_000);
    mover.velocity.x = 10_000;
    g.objects.push(mover);
    g.mode = Mode::Play;
    g.update();
    let c = g.objects[2].rect.center();
    assert_eq!(c.x, 510_000);
    assert_eq!(c.y, 510_000);
}

/// Removing entity 0 shifts the store down and entity 1's reference to
/// entity 2 becomes a reference to the same entity at its new index 1.
#[test]
fn three_entities_remap_on_removal() {
    let mut g = VectorGraphics::new();
    g.objects.push(entity(0, 0, 10_000, 10_000));
    let mut follower = entity(20_000, 0, 10_000, 10_000);
    follower.target = 2;
    g.objects.push(follower);
    g.objects.push(entity(40_000, 0, 10_000, 10_000));
    g.remove_object(0);
    assert_eq!(g.objects.len(), 2);
    assert_eq!(g.objects[0].target, 1);
    assert_eq!(g.objects[0].rect.x, 20_000);
    assert_eq!(g.objects[1].rect.x, 40_000);
}
