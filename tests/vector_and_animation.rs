use engine::animation::AnimationBuilder;
use engine::image::{Color, Image};
use engine::vector::{Vec2, WORLD_LIMIT};

#[test]
fn vector_basics() {
    let p = Vec2::from((3, -4));
    assert_eq!(*p.x(), 3);
    assert_eq!(*p.y(), -4);
    assert_eq!(p.amplitude_squared(), 25);
    assert_eq!(p.module(), 5);
    assert_eq!(Vec2::new(1, 1).module(), 2);
    assert_eq!(Vec2::new(0, 0).module(), 0);
    assert_eq!(p.break_self(), (3, -4));
    assert_eq!(p.neg(), Vec2::new(-3, 4));
    assert_eq!(p.plus(Vec2::new(1, 1)), Vec2::new(4, -3));
    assert_eq!(Vec2::new(i64::MIN, i64::MAX).amplitude_squared(), (1u128 << 126) + ((i64::MAX as u128) * (i64::MAX as u128)));
}

#[test]
fn vector_difference_product_and_quotient() {
    let p = Vec2::new(7, -9);
    assert_eq!(p.minus(Vec2::new(10, -10)), Vec2::new(-3, 1));
    assert_eq!(p.scaled(3), Vec2::new(21, -27));
    assert_eq!(p.scaled(-2), Vec2::new(-14, 18));
    assert_eq!(p.divided(2), Vec2::new(3, -4));
    assert_eq!(p.divided(-2), Vec2::new(-3, 4));
    // results stop at the edge of the world
    assert_eq!(Vec2::new(WORLD_LIMIT, 1).scaled(2), Vec2::new(WORLD_LIMIT, 2));
    assert_eq!(Vec2::new(-WORLD_LIMIT, 0).minus(Vec2::new(1, 0)), Vec2::new(-WORLD_LIMIT, 0));
}

#[test]
fn filled_image() {
    let img = Image::rec(Color::red(), 2, 3);
    assert_eq!(img.width(), 2);
    assert_eq!(img.height(), 3);
    assert_eq!(img.data().len(), 24);
    assert_eq!(&img.data()[0..8], &[255, 0, 0, 255, 255, 0, 0, 255]);
}

fn frames() -> Vec<Image> {
    (0..4u8).map(|i| Image::from_raw(vec![i; 4], 1, 1)).collect()
}

#[test]
fn animation_cycles_through_frames() {
    let imgs = frames();
    let mut a = AnimationBuilder::new()
        .register_images_index(vec![2, 0])
        .change_wait_time(2)
        .build(&imgs);
    assert_eq!(a.get().data()[0], 2);
    assert_eq!(a.update(), None);
    assert_eq!(a.get().data()[0], 2);
    assert_eq!(a.update(), None);
    assert_eq!(a.get().data()[0], 0);
    a.update();
    a.update();
    assert_eq!(a.get().data()[0], 2);
    a.update();
    a.reset();
    a.update();
    assert_eq!(a.get().data()[0], 2);
}

#[test]
fn animation_defaults_and_next() {
    let imgs = frames();
    let mut a = AnimationBuilder::new().build(&imgs);
    assert_eq!(a.get().data()[0], 0);
    assert_eq!(a.update(), None);
    let mut b = AnimationBuilder::new()
        .register_images_index(vec![1, 3])
        .no_repeat()
        .next_animation(String::from("idle"))
        .build(&imgs);
    assert_eq!(b.update(), Some(String::from("idle")));
    assert_eq!(b.get().data()[0], 1);
    assert_eq!(b.update(), Some(String::from("idle")));
    assert_eq!(b.get().data()[0], 1);
    // the timer stands at 3, under the new length
    b.change_length(5);
    assert_eq!(b.update(), None);
    assert_eq!(b.update(), None);
    assert_eq!(b.update(), Some(String::from("idle")));
}
