use engine::input::{same_text, KeyPress};
use engine::physics::RigidBodyBuilder;
use engine::player::{Player, PlayerState, JUMP_IMPULSE};
use engine::transform::TransformBuilder;
use engine::vector::Vec2;

#[test]
fn key_codes_update_state() {
    let mut kp = KeyPress::new();
    kp.update_from_str("KeyA", true);
    kp.update_from_str("ShiftLeft", true);
    kp.update_from_str("Enter", true);
    assert!(kp.KeyA() && kp.ShiftLeft());
    assert!(!kp.KeyD() && !kp.KeyK() && !kp.KeyW() && !kp.Space());
    kp.update_from_str("KeyA", false);
    assert!(!kp.KeyA());
    kp.update_from_str("Space", true);
    kp.update_from_str("KeyW", true);
    kp.update_from_str("KeyK", true);
    kp.update_from_str("KeyD", true);
    assert!(kp.Space() && kp.KeyW() && kp.KeyK() && kp.KeyD());
}

#[test]
fn text_comparison() {
    assert!(same_text("abc", "abc"));
    assert!(!same_text("abc", "abd"));
    assert!(!same_text("abc", "ab"));
    assert!(same_text("", ""));
}

#[test]
fn state_names() {
    assert_eq!(PlayerState::Idle.to_string(), "idle");
    assert_eq!(PlayerState::Walk.to_string(), "walk");
    assert_eq!(PlayerState::Jump.to_string(), "jump_beg");
    assert_eq!(PlayerState::Attack(3).to_string(), "attack");
    assert!(PlayerState::Attack(3) == PlayerState::Attack(9));
    assert!(PlayerState::Idle != PlayerState::Walk);
    assert!(PlayerState::default() == PlayerState::Idle);
}

#[test]
fn walking_right_then_jumping() {
    let mut p = Player::new();
    let mut t = TransformBuilder::new().build();
    let mut r = RigidBodyBuilder::new().set_mass(10).build();
    let mut kp = KeyPress::new();
    kp.update_from_str("KeyD", true);
    let anim = p.control(&kp, true, &mut t, &mut r);
    assert_eq!(anim.as_deref(), Some("walk"));
    assert!(p.state == PlayerState::Walk);
    assert_eq!(t.position, Vec2::new(2000, 0));
    assert_eq!(t.scale.x, 1);
    // still walking: no new animation
    assert_eq!(p.control(&kp, true, &mut t, &mut r), None);
    kp.update_from_str("KeyD", false);
    kp.update_from_str("KeyA", true);
    kp.update_from_str("ShiftLeft", true);
    assert_eq!(p.control(&kp, true, &mut t, &mut r), None);
    assert_eq!(t.position, Vec2::new(3000, 0));
    assert_eq!(t.scale.x, -1);
    kp.update_from_str("KeyW", true);
    assert_eq!(p.control(&kp, true, &mut t, &mut r).as_deref(), Some("jump_beg"));
    assert_eq!(r.force, Vec2::new(0, JUMP_IMPULSE));
    // in the air, W does nothing more
    assert_eq!(p.control(&kp, false, &mut t, &mut r), None);
    assert_eq!(r.force, Vec2::new(0, JUMP_IMPULSE));
    // landing
    assert_eq!(p.control(&kp, true, &mut t, &mut r).as_deref(), Some("idle"));
}

#[test]
fn attack_lasts_its_ticks() {
    let mut p = Player::new();
    let mut t = TransformBuilder::new().build();
    let mut r = RigidBodyBuilder::new().set_mass(10).build();
    let mut kp = KeyPress::new();
    kp.update_from_str("KeyK", true);
    assert_eq!(p.control(&kp, true, &mut t, &mut r).as_deref(), Some("attack"));
    kp.update_from_str("KeyK", false);
    let mut ticks = 0;
    loop {
        ticks += 1;
        if let Some(a) = p.control(&kp, true, &mut t, &mut r) {
            assert_eq!(a, "idle");
            break;
        }
        assert!(ticks < 100);
    }
    assert_eq!(ticks, 16);
}

#[test]
fn falling_off_makes_the_player_jump() {
    let mut p = Player::new();
    let mut t = TransformBuilder::new().build();
    let mut r = RigidBodyBuilder::new().set_mass(10).build();
    let kp = KeyPress::new();
    assert_eq!(p.control(&kp, false, &mut t, &mut r).as_deref(), Some("jump_beg"));
    assert_eq!(r.force, Vec2::new(0, 0));
}
