use engine::image::Image;
use engine::render::FrameBuffer;
use engine::vector::Vec2;

fn pixel(fb: &FrameBuffer, w: usize, x: usize, y: usize) -> [u8; 4] {
    let i = (x + y * w) * 4;
    let d = fb.data();
    [d[i], d[i + 1], d[i + 2], d[i + 3]]
}

#[test]
fn new_buffer_is_blank() {
    let fb = FrameBuffer::new(3, 2);
    assert_eq!(fb.data(), &vec![0u8; 24]);
}

#[test]
fn put_copies_opaque_pixels_and_clips() {
    let mut fb = FrameBuffer::new(4, 3);
    // 2 x 1 image: a red pixel, then a transparent one
    let img = vec![10, 20, 30, 5, 1, 2, 3, 0];
    fb.put(&img, 2, 1, 1);
    assert_eq!(pixel(&fb, 4, 1, 1), [10, 20, 30, 255]);
    assert_eq!(pixel(&fb, 4, 2, 1), [0, 0, 0, 0]);
    // half outside on the right: only the first pixel lands
    fb.put(&img, 2, 3, 0);
    assert_eq!(pixel(&fb, 4, 3, 0), [10, 20, 30, 255]);
    // entirely outside
    fb.put(&img, 2, -5, 7);
    let painted = fb.data().chunks(4).filter(|p| p[3] == 255).count();
    assert_eq!(painted, 2);
}

#[test]
fn put_flipped_mirrors_rows() {
    let mut fb = FrameBuffer::new(2, 1);
    let img = vec![1, 1, 1, 9, 2, 2, 2, 9];
    fb.put_flipped(&img, 2, 0, 0);
    assert_eq!(pixel(&fb, 2, 0, 0), [2, 2, 2, 255]);
    assert_eq!(pixel(&fb, 2, 1, 0), [1, 1, 1, 255]);
}

#[test]
fn draw_image_centres_on_the_entity() {
    let mut fb = FrameBuffer::new(10, 10);
    let img = Image::from_raw(vec![7, 7, 7, 255], 1, 1);
    // the centre of the buffer is (5, 5); one pixel right and two up
    fb.draw_image(&img, Vec2::new(1000, 2000), false);
    assert_eq!(pixel(&fb, 10, 6, 3), [7, 7, 7, 255]);
    // fractions of a pixel are dropped toward zero
    fb.draw_image(&img, Vec2::new(-1999, 0), false);
    assert_eq!(pixel(&fb, 10, 4, 5), [7, 7, 7, 255]);
}
