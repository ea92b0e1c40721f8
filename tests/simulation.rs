use engine::collider::{ColliderBuilder, ColliderType};
use engine::physics::{RigidBodyBuilder, GRAVITY_Y};
use engine::transform::TransformBuilder;
use engine::vector::{Vec2, WORLD_LIMIT};
use engine::world::{Game, Query, World};

fn v(x: i64, y: i64) -> Vec2 {
    Vec2::new(x, y)
}

#[test]
fn immovable_body_stays_put() {
    let mut body = RigidBodyBuilder::new().build();
    assert_eq!(body.mass, 0);
    let mut pos = v(1234, -5678);
    for _ in 0..100 {
        body.step(&mut pos, v(0, GRAVITY_Y));
        assert_eq!(pos, v(1234, -5678));
        assert_eq!(body.velocity, v(0, 0));
        assert_eq!(body.acceleration, v(0, 0));
    }
}

#[test]
fn falling_body_accumulates_gravity() {
    let mut body = RigidBodyBuilder::new().set_mass(10).build();
    let mut pos = v(0, 0);
    body.step(&mut pos, v(0, -165));
    assert_eq!(body.acceleration, v(0, -165));
    assert_eq!(body.velocity, v(0, -165));
    assert_eq!(pos, v(0, -165));
    body.step(&mut pos, v(0, -165));
    assert_eq!(body.velocity, v(0, -330));
    assert_eq!(pos, v(0, -495));
}

#[test]
fn impulse_acts_for_one_step() {
    let mut body = RigidBodyBuilder::new().set_mass(10).build();
    let mut pos = v(0, 0);
    body.impulse(v(1000, -25));
    body.step(&mut pos, v(0, -165));
    // 1000 / 10 = 100, -25 / 10 = -2 (toward zero), plus gravity
    assert_eq!(body.acceleration, v(100, -167));
    assert_eq!(body.force, v(0, 0));
    body.step(&mut pos, v(0, -165));
    assert_eq!(body.acceleration, v(0, -165));
    assert_eq!(body.velocity, v(100, -332));
}

#[test]
fn positions_stop_at_the_edge_of_the_world() {
    let mut body = RigidBodyBuilder::new().set_mass(1).build();
    let mut pos = v(0, -WORLD_LIMIT + 10);
    body.step(&mut pos, v(0, -165));
    assert_eq!(pos, v(0, -WORLD_LIMIT));
}

#[test]
fn transform_builder_defaults() {
    let t = TransformBuilder::new().build();
    assert_eq!(*t.position(), v(0, 0));
    assert_eq!(t.rotation, 0);
    assert_eq!(*t.scale(), v(1, 1));
    let t = TransformBuilder::new().position(v(3, 4)).rotation(7).scale(v(2, 2)).build();
    assert_eq!(t.position, v(3, 4));
    assert_eq!(t.rotation, 7);
    assert_eq!(t.scale, v(2, 2));
}

#[test]
fn facing_flips_only_when_needed() {
    let mut t = TransformBuilder::new().build();
    t.face_right();
    assert_eq!(t.scale.x, 1);
    t.face_left();
    assert_eq!(t.scale.x, -1);
    t.face_left();
    assert_eq!(t.scale.x, -1);
    t.face_right();
    assert_eq!(t.scale.x, 1);
    t.translate(v(5, -5));
    assert_eq!(t.position, v(5, -5));
}

fn circle_above_ground(world: &mut World) -> (usize, usize) {
    let ground = world.create_entity();
    world.attach_transform(ground, TransformBuilder::new().position(v(0, 0)).build());
    world.attach_collider(ground, ColliderBuilder::new().collider_type(ColliderType::Rect(1000, 1000)).build());
    world.attach_rigid_body(ground, RigidBodyBuilder::new().build());
    world.add_to_layer(ground, 0);

    let ball = world.create_entity();
    world.attach_transform(ball, TransformBuilder::new().position(v(-500, 4000)).build());
    world.attach_collider(ball, ColliderBuilder::new().collider_type(ColliderType::Circle(1000)).build());
    world.attach_rigid_body(ball, RigidBodyBuilder::new().set_mass(10).build());
    world.attach_collisions(ball);
    world.add_to_layer(ball, 0);
    (ground, ball)
}

#[test]
fn falling_circle_comes_to_rest_on_ground() {
    let mut game = Game::new();
    let (ground, ball) = circle_above_ground(&mut game.world);
    let mut rested = false;
    for _ in 0..200 {
        game.run_sys();
        if game.world.collisions(ball).unwrap().has_hit_bottom() {
            rested = true;
            break;
        }
    }
    assert!(rested);
    // The ball stands on the ground's top-left corner, one radius above it.
    let t = game.world.transform(ball).unwrap();
    assert_eq!(t.position, v(-500, 1500));
    assert_eq!(game.world.rigid_body(ball).unwrap().velocity.y, 0);
    for _ in 0..10 {
        game.run_sys();
        assert!(game.world.collisions(ball).unwrap().has_hit_bottom());
        assert_eq!(game.world.transform(ball).unwrap().position, v(-500, 1500));
        assert_eq!(game.world.rigid_body(ball).unwrap().velocity.y, 0);
    }
    assert_eq!(game.world.transform(ground).unwrap().position, v(0, 0));
}

#[test]
fn detection_respects_layers() {
    let mut world = World::new();
    let a = world.create_entity();
    let b = world.create_entity();
    for e in [a, b] {
        world.attach_transform(e, TransformBuilder::new().position(v(0, 0)).build());
        world.attach_collider(e, ColliderBuilder::new().collider_type(ColliderType::Circle(10)).build());
        world.attach_collisions(e);
    }
    world.add_to_layer(a, 3);
    world.detect(Some(3));
    // b is not in layer 3: a finds nothing, b was not visited.
    assert!(world.collisions(a).unwrap().list.is_empty());
    world.add_to_layer(b, 3);
    world.detect(Some(3));
    assert_eq!(world.collisions(a).unwrap().list.len(), 1);
    assert_eq!(world.collisions(a).unwrap().list[0].with, b);
    assert_eq!(world.collisions(b).unwrap().list[0].with, a);
    // b no longer counts as a partner for others.
    world.exclude_from_layer(b, 3);
    world.detect(Some(3));
    assert!(world.collisions(a).unwrap().list.is_empty());
    assert_eq!(world.collisions(b).unwrap().list.len(), 1);
}

#[test]
fn repulsion_applies_every_collision() {
    let mut world = World::new();
    let mover = world.create_entity();
    world.attach_transform(mover, TransformBuilder::new().position(v(0, 0)).build());
    world.attach_collider(mover, ColliderBuilder::new().collider_type(ColliderType::Circle(1000)).build());
    world.attach_rigid_body(mover, RigidBodyBuilder::new().set_mass(1).build());
    world.attach_collisions(mover);
    world.add_to_layer(mover, 0);
    for p in [v(1500, 0), v(0, -1200)] {
        let e = world.create_entity();
        world.attach_transform(e, TransformBuilder::new().position(p).build());
        world.attach_collider(e, ColliderBuilder::new().collider_type(ColliderType::Circle(500)).build());
        world.add_to_layer(e, 0);
    }
    world.impulse(mover, v(70, 80));
    world.physics(v(0, 0));
    // pushed by velocity (70, 80) to (70, 80)
    assert_eq!(world.transform(mover).unwrap().position, v(70, 80));
    world.detect(Some(0));
    let c = world.collisions(mover).unwrap();
    assert_eq!(c.list.len(), 2);
    assert!(c.has_hit_bottom());
    world.repulse();
    let body = world.rigid_body(mover).unwrap();
    assert_eq!(body.velocity, v(0, 0));
    let p = world.transform(mover).unwrap().position;
    assert!(p.x < 70 && p.y > 80);
}

#[test]
fn join_lists_entities_with_all_components() {
    let mut world = World::new();
    let a = world.create_entity();
    let b = world.create_entity();
    let c = world.create_entity();
    world.attach_transform(a, TransformBuilder::new().build());
    world.attach_transform(c, TransformBuilder::new().build());
    world.attach_rigid_body(c, RigidBodyBuilder::new().build());
    world.attach_rigid_body(b, RigidBodyBuilder::new().build());
    let q = Query { transform: true, collider: false, rigid_body: false, collisions: false };
    assert_eq!(world.join(q), vec![a, c]);
    let q = Query { transform: true, collider: false, rigid_body: true, collisions: false };
    assert_eq!(world.join(q), vec![c]);
    let q = Query { transform: false, collider: true, rigid_body: false, collisions: false };
    assert!(world.join(q).is_empty());
    assert_eq!(world.len(), 3);
}

#[test]
fn unfiltered_detection_sees_every_pair() {
    let mut world = World::new();
    let mut ids = Vec::new();
    for x in [0, 500, 5000] {
        let e = world.create_entity();
        world.attach_transform(e, TransformBuilder::new().position(v(x, 0)).build());
        world.attach_collider(e, ColliderBuilder::new().collider_type(ColliderType::Circle(300)).build());
        world.attach_collisions(e);
        ids.push(e);
    }
    world.exclude_from_layer(ids[1], 0);
    world.detect(None);
    let c0 = world.collisions(ids[0]).unwrap();
    assert_eq!(c0.list.len(), 1);
    assert_eq!(c0.list[0].with, ids[1]);
    assert_eq!(c0.list[0].at, v(-100, 0));
    assert!(!c0.has_hit_bottom());
    assert_eq!(world.collisions(ids[1]).unwrap().list[0].at, v(100, 0));
    assert!(world.collisions(ids[2]).unwrap().list.is_empty());
    // none of them is in layer 0: detection there leaves their records alone
    world.detect(Some(0));
    assert_eq!(world.collisions(ids[0]).unwrap().list.len(), 1);
}

#[test]
fn configured_game_uses_its_gravity() {
    let mut game = Game::with_config(v(0, -10), vec![None]);
    let e = game.world.create_entity();
    game.world.attach_transform(e, TransformBuilder::new().build());
    game.world.attach_rigid_body(e, RigidBodyBuilder::new().set_mass(1).build());
    game.run_sys();
    game.run_sys();
    assert_eq!(game.world.transform(e).unwrap().position, v(0, -30));
    let q = Query { transform: true, collider: false, rigid_body: true, collisions: false };
    assert_eq!(game.world.join(q), vec![e]);
}

