use engine::collider::{ColliderBuilder, ColliderType, Collisions};
use engine::vector::Vec2;

fn v(x: i64, y: i64) -> Vec2 {
    Vec2::new(x, y)
}

fn collide(a: ColliderType, b: ColliderType, p1: Vec2, p2: Vec2) -> Option<(i64, i64)> {
    a.collide_with(&b, p1, p2).map(|m| m.break_self())
}

// Lengths are in thousandths of a pixel.

#[test]
fn unit_circles_touching_do_not_collide() {
    let c = ColliderType::Circle(1000);
    assert_eq!(collide(c, c, v(0, 0), v(2000, 0)), None);
}

#[test]
fn unit_circles_overlapping_push_first_back() {
    let c = ColliderType::Circle(1000);
    assert_eq!(collide(c, c, v(0, 0), v(1000, 0)), Some((-1000, 0)));
}

#[test]
fn circles_in_unit_lengths() {
    let c = ColliderType::Circle(1);
    assert_eq!(collide(c, c, v(0, 0), v(2, 0)), None);
    assert_eq!(collide(c, c, v(0, 0), v(1, 0)), Some((-1, 0)));
}

#[test]
fn circle_detection_boundary() {
    let a = ColliderType::Circle(300);
    let b = ColliderType::Circle(200);
    // distance 500 == 300 + 200
    assert_eq!(collide(a, b, v(0, 0), v(300, 400)), None);
    // distance just under 500
    assert!(collide(a, b, v(0, 0), v(300, 399)).is_some());
    // far apart
    assert_eq!(collide(a, b, v(0, 0), v(1000, 1000)), None);
}

#[test]
fn circle_diagonal_mtv_is_rounded_away() {
    let a = ColliderType::Circle(300);
    let b = ColliderType::Circle(200);
    // The centres are 250 apart along (150, 200); the first centre moves back
    // along that line until they are 500 apart.
    assert_eq!(collide(a, b, v(0, 0), v(150, 200)), Some((-150, -200)));
}

#[test]
fn coincident_circles_give_zero_mtv() {
    let c = ColliderType::Circle(10);
    assert_eq!(collide(c, c, v(5, 5), v(5, 5)), Some((0, 0)));
}

#[test]
fn circle_collision_is_symmetric() {
    let a = ColliderType::Circle(700);
    let b = ColliderType::Circle(450);
    let p1 = v(120, -340);
    let p2 = v(900, 310);
    let m1 = collide(a, b, p1, p2).unwrap();
    let m2 = collide(b, a, p2, p1).unwrap();
    assert_eq!(m1, (-m2.0, -m2.1));
}

#[test]
fn rect_circle_collision_is_symmetric() {
    let r = ColliderType::Rect(1000, 600);
    let c = ColliderType::Circle(400);
    let p1 = v(0, 0);
    let p2 = v(700, 500);
    let m1 = collide(r, c, p1, p2).unwrap();
    let m2 = collide(c, r, p2, p1).unwrap();
    assert_eq!(m1, (-m2.0, -m2.1));
    assert_ne!(m1, (0, 0));
}

#[test]
fn applying_circle_mtv_separates() {
    let a = ColliderType::Circle(1000);
    let b = ColliderType::Circle(1000);
    let p1 = v(0, 0);
    let p2 = v(700, 300);
    let (mx, my) = collide(a, b, p1, p2).unwrap();
    let moved = v(p1.x + mx, p1.y + my);
    assert_eq!(collide(a, b, moved, p2), None);
}

#[test]
fn rects_with_a_gap_do_not_overlap() {
    let r = ColliderType::Rect(2000, 2000);
    assert_eq!(collide(r, r, v(0, 0), v(3000, 0)), None);
}

#[test]
fn rects_overlapping_along_x() {
    // two 2 x 2 pixel boxes, 1.5 pixels apart: they overlap by half a pixel
    let r = ColliderType::Rect(2000, 2000);
    assert_eq!(collide(r, r, v(0, 0), v(1500, 0)), Some((-500, 0)));
    assert_eq!(collide(r, r, v(1500, 0), v(0, 0)), Some((500, 0)));
}

#[test]
fn lower_box_beside_a_tall_one_overlaps_along_x() {
    let a = ColliderType::Rect(2000, 2000);
    let b = ColliderType::Rect(2000, 200);
    assert_eq!(collide(a, b, v(0, 0), v(1500, 0)), Some((-500, 0)));
}

#[test]
fn crossing_boxes_without_corners_inside_overlap() {
    // a wide flat box across a tall narrow one: no corner of either lies in the other
    let flat = ColliderType::Rect(6000, 1000);
    let tall = ColliderType::Rect(1000, 6000);
    // penetration 3500 along x either way, 3500 along y either way: the tie goes to y
    assert_eq!(collide(flat, tall, v(0, 0), v(0, 0)), Some((0, 3500)));
    // shifted up by 2000: 1500 from the tall box's top, 5500 from its bottom, 3500 along x
    assert_eq!(collide(flat, tall, v(0, 2000), v(0, 0)), Some((0, 1500)));
}

#[test]
fn boxes_touching_along_an_edge_do_not_overlap() {
    let r = ColliderType::Rect(2000, 2000);
    assert_eq!(collide(r, r, v(0, 0), v(2000, 500)), None);
    assert_eq!(collide(r, r, v(0, 0), v(300, -2000)), None);
}

#[test]
fn applying_rect_mtv_separates() {
    let a = ColliderType::Rect(3000, 1000);
    let b = ColliderType::Rect(1001, 777);
    let p1 = v(10, -20);
    let p2 = v(900, 333);
    let (mx, my) = collide(a, b, p1, p2).unwrap();
    assert_eq!(collide(a, b, v(p1.x + mx, p1.y + my), p2), None);
}

#[test]
fn rect_corner_inside_other_rect_pushes_along_shorter_axis() {
    let a = ColliderType::Rect(2000, 2000);
    let b = ColliderType::Rect(2000, 2000);
    // a's top-right corner (1000, 1000) is inside b (centred at (1800, 1300)):
    // 200 to b's left edge, 700 to b's bottom edge: pushed left by 200.
    assert_eq!(collide(a, b, v(0, 0), v(1800, 1300)), Some((-200, 0)));
    // 700 to the left edge, 200 to the bottom edge: pushed down by 200.
    assert_eq!(collide(a, b, v(0, 0), v(1300, 1800)), Some((0, -200)));
}

#[test]
fn rect_push_on_half_units_is_rounded_away() {
    let a = ColliderType::Rect(3, 3);
    let b = ColliderType::Rect(2, 2);
    // a spans [-1.5, 1.5]; b centred at (4, 0) spans [3, 5]: apart.
    assert_eq!(collide(a, b, v(0, 0), v(4, 0)), None);
    // b centred at (2, 0) spans [1, 3] x [-1, 1]: a reaches 0.5 into it along x
    // and 2.5 along y. The push of 0.5 to the left is rounded away from zero to 1.
    assert_eq!(collide(a, b, v(0, 0), v(2, 0)), Some((-1, 0)));
}

#[test]
fn rect_circle_corner_inside() {
    let r = ColliderType::Rect(1000, 1000);
    let c = ColliderType::Circle(1000);
    // circle centred straight above the rect's top-left corner (-500, 500), 900 away.
    assert_eq!(collide(r, c, v(0, 0), v(-500, 1400)), Some((0, -100)));
    assert_eq!(collide(c, r, v(-500, 1400), v(0, 0)), Some((0, 100)));
    // no corner inside the circle
    assert_eq!(collide(r, c, v(0, 0), v(-500, 1500)), None);
}

#[test]
fn circle_touching_only_an_edge_of_a_rect_is_not_detected() {
    // no corner of the box lies inside the circle
    let ground = ColliderType::Rect(2000, 2000);
    let ball = ColliderType::Circle(1000);
    assert_eq!(collide(ground, ball, v(0, 0), v(0, 1500)), None);
    assert_eq!(collide(ball, ground, v(0, 1500), v(0, 0)), None);
}

#[test]
fn first_corner_inside_the_circle_is_pushed() {
    // both left corners are inside; the bottom-left one comes first
    let r = ColliderType::Rect(1000, 200);
    let c = ColliderType::Circle(1000);
    // corner (-500, -100) is 600 from the centre (-500, 500): pushed down by 400
    assert_eq!(collide(r, c, v(0, 0), v(-500, 500)), Some((0, -400)));
}

#[test]
fn empty_shape_never_collides() {
    let e = ColliderType::Empty;
    let c = ColliderType::Circle(1000);
    assert_eq!(collide(e, c, v(0, 0), v(0, 0)), None);
    assert_eq!(collide(c, e, v(0, 0), v(0, 0)), None);
    assert_eq!(collide(e, e, v(0, 0), v(0, 0)), None);
}

#[test]
fn collider_builder_defaults_to_empty() {
    let c = ColliderBuilder::new().build();
    assert_eq!(*c.shape(), ColliderType::Empty);
    let c = ColliderBuilder::new().collider_type(ColliderType::Circle(5)).build();
    assert_eq!(*c.shape(), ColliderType::Circle(5));
}

#[test]
fn new_collisions_are_empty() {
    let c = Collisions::new();
    assert!(c.list.is_empty());
    assert!(!c.has_hit_bottom());
}
