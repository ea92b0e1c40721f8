use engine::animation::AnimationBuilder;
use engine::image::{Color, Image};
use engine::sprite::{Sprite, SpriteBuilder};
use engine::transform::{Camera, TransformBuilder};
use engine::vector::Vec2;
use engine::world::World;

#[test]
fn sprite_splitting() {
    let sheet = Image::from_raw(vec![0, 1, 2, 3, 4, 5, 6, 7, 8, 9, 10, 11, 12, 13, 14, 15], 4, 1);
    let frames = sheet.split(1, 1);
    assert_eq!(frames.len(), 4);
    for (k, f) in frames.iter().enumerate() {
        let b = 4 * k as u8;
        assert_eq!(f.data(), &vec![b, b + 1, b + 2, b + 3]);
        assert_eq!((f.width(), f.height()), (1, 1));
    }
    let sprite = SpriteBuilder::new()
        .add_image_from_raw(vec![0, 1, 2, 3, 4, 5, 6, 7, 8, 9, 10, 11, 12, 13, 14, 15], 4, 1)
        .register_sprite_size(1, 1)
        .build();
    println!("{:?}", sprite);
    assert!(sprite.image().is_none());
}

#[test]
fn sheet_is_cut_row_by_row() {
    // a 4 x 2 sheet; each pixel's red byte is its index, row by row
    let mut data = Vec::new();
    for p in 0..8u8 {
        data.extend_from_slice(&[p, 0, 0, 255]);
    }
    let frames = Image::from_raw(data, 4, 2).split(2, 1);
    assert_eq!(frames.len(), 4);
    let reds: Vec<Vec<u8>> = frames.iter().map(|f| vec![f.data()[0], f.data()[4]]).collect();
    assert_eq!(reds, vec![vec![0, 1], vec![2, 3], vec![4, 5], vec![6, 7]]);
}

#[test]
fn transparency_clears_alpha_of_matching_pixels() {
    let mut img = Image::from_raw(vec![1, 2, 3, 255, 1, 2, 4, 255, 1, 2, 3, 7], 3, 1);
    img.apply_transparency(Color(1, 2, 3, 99));
    assert_eq!(img.data(), &vec![1, 2, 3, 0, 1, 2, 4, 255, 1, 2, 3, 0]);
}

fn strip() -> SpriteBuilder {
    let mut data = Vec::new();
    for p in 0..4u8 {
        data.extend_from_slice(&[p, 0, 0, 255]);
    }
    SpriteBuilder::new().add_image_from_raw(data, 4, 1).register_sprite_size(1, 1)
}

#[test]
fn sprite_plays_first_animation_and_switches() {
    let mut s = strip()
        .register_animation(String::from("idle"), AnimationBuilder::new().register_images_index(vec![0, 1]))
        .register_animation(String::from("walk"), AnimationBuilder::new().register_images_index(vec![2, 3]))
        .build();
    assert_eq!(s.image().unwrap().data()[0], 0);
    s.update();
    assert_eq!(s.image().unwrap().data()[0], 1);
    s.animation(String::from("walk"));
    assert_eq!(s.image().unwrap().data()[0], 2);
    s.update();
    assert_eq!(s.image().unwrap().data()[0], 3);
    s.animation(String::from("none"));
    assert!(s.image().is_none());
    s.update();
    s.animation(String::from("walk"));
    assert_eq!(s.image().unwrap().data()[0], 2);
}

#[test]
fn name_registered_twice_uses_last() {
    let s = strip()
        .register_animation(String::from("a"), AnimationBuilder::new().register_images_index(vec![1]))
        .register_animation(String::from("a"), AnimationBuilder::new().register_images_index(vec![3]))
        .build();
    assert_eq!(s.image().unwrap().data()[0], 3);
}

#[test]
fn sprite_without_sheet_uses_red_square() {
    let s = SpriteBuilder::new()
        .register_animation(String::from("x"), AnimationBuilder::new())
        .apply_transparancy_on(Color(0, 0, 0, 0))
        .build();
    let img = s.image().unwrap();
    assert_eq!((img.width(), img.height()), (10, 10));
    assert_eq!(&img.data()[0..4], &[255, 0, 0, 255]);
}

#[test]
fn sprite_from_images_plays_them() {
    let imgs = vec![Image::rec(Color(9, 9, 9, 9), 1, 1), Image::rec(Color::red(), 1, 1)];
    let mut s = Sprite::from_images(imgs);
    assert_eq!(s.image().unwrap().data()[0], 9);
    s.update();
    assert_eq!(s.image().unwrap().data()[0], 9);
}

#[test]
fn world_updates_sprites_each_tick() {
    let mut world = World::new();
    let e = world.create_entity();
    let s = strip()
        .register_animation(String::from("idle"), AnimationBuilder::new().register_images_index(vec![0, 1, 2]))
        .build();
    world.attach_sprite(e, s);
    world.update_sprites();
    assert_eq!(world.sprite(e).unwrap().image().unwrap().data()[0], 1);
    world.play_animation(e, String::from("idle"));
    assert_eq!(world.sprite(e).unwrap().image().unwrap().data()[0], 0);
}

#[test]
fn camera_transform() {
    let mut c = Camera::default();
    assert_eq!(*c.transform(), TransformBuilder::new().build());
    c.transform_mut().translate(Vec2::new(4, 5));
    assert_eq!(c.transform().position, Vec2::new(4, 5));
}

#[test]
fn empty_animation_builds_but_shows_nothing() {
    let mut s = strip()
        .register_animation(String::from("none"), AnimationBuilder::new().register_images_index(vec![]))
        .build();
    assert!(!s.can_show());
    s.update();
    s.animation(String::from("other"));
    assert!(s.can_show());
    assert!(s.image().is_none());
}
