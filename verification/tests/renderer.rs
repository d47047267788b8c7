use raytracer::renderer::{Renderer, SizeMismatch};
use raytracer::scene::Image;

fn numbered(count: usize) -> Vec<[u8; 3]> {
    let mut pixels = Vec::new();
    for i in 0..count {
        let base = (3 * i) as u8;
        pixels.push([base, base + 1, base + 2]);
    }
    pixels
}

#[test]
fn a_new_renderer_is_black_and_has_counted_nothing() {
    let image = Image::new(4, 2, 10, 50);
    let renderer = Renderer::new(image);
    assert_eq!(renderer.image(), image);
    assert_eq!(renderer.accumulated_samples(), 0);
    assert_eq!(renderer.get_raw_image_buffer(), vec![0u8; 24]);
}

#[test]
fn a_renderer_for_an_empty_image_has_an_empty_buffer() {
    let renderer = Renderer::new(Image::new(0, 9, 1, 1));
    assert_eq!(renderer.get_raw_image_buffer(), Vec::<u8>::new());
}

#[test]
fn begin_pass_counts_one_pass_each_time() {
    let mut renderer = Renderer::new(Image::new(2, 2, 10, 50));
    renderer.begin_pass();
    assert_eq!(renderer.accumulated_samples(), 1);
    renderer.begin_pass();
    assert_eq!(renderer.accumulated_samples(), 2);
    assert_eq!(renderer.get_raw_image_buffer(), vec![0u8; 12]);
}

#[test]
fn readback_interleaves_the_channels_in_row_major_order() {
    let mut renderer = Renderer::new(Image::new(2, 2, 10, 50));
    let pixels = vec![[10, 11, 12], [20, 21, 22], [30, 31, 32], [40, 41, 42]];
    assert_eq!(renderer.set_output_buffer(&pixels), Ok(()));
    assert_eq!(
        renderer.get_raw_image_buffer(),
        vec![10, 11, 12, 20, 21, 22, 30, 31, 32, 40, 41, 42]
    );
}

#[test]
fn readback_puts_each_pixel_at_three_times_its_index() {
    let image = Image::new(3, 2, 1, 1);
    let mut renderer = Renderer::new(image);
    let pixels = numbered(6);
    renderer.set_output_buffer(&pixels).unwrap();
    let raw = renderer.get_raw_image_buffer();
    for y in 0..2usize {
        for x in 0..3usize {
            let index = y * 3 + x;
            assert_eq!(image.pixel_position(index as u64), (x as u64, y as u64));
            assert_eq!(&raw[3 * index..3 * index + 3], &pixels[index][..]);
        }
    }
}

#[test]
fn readback_is_idempotent() {
    let mut renderer = Renderer::new(Image::new(3, 2, 1, 1));
    renderer.begin_pass();
    let pixels = numbered(6);
    renderer.set_output_buffer(&pixels).unwrap();
    let first = renderer.get_raw_image_buffer();
    renderer.set_output_buffer(&pixels).unwrap();
    let second = renderer.get_raw_image_buffer();
    assert_eq!(first, second);
    assert_eq!(renderer.accumulated_samples(), 1);
}

#[test]
fn readback_shows_the_latest_pixels_only() {
    let mut renderer = Renderer::new(Image::new(1, 2, 1, 1));
    renderer.set_output_buffer(&vec![[1, 2, 3], [4, 5, 6]]).unwrap();
    renderer.set_output_buffer(&vec![[9, 8, 7], [6, 5, 4]]).unwrap();
    assert_eq!(renderer.get_raw_image_buffer(), vec![9, 8, 7, 6, 5, 4]);
}

#[test]
fn readback_does_not_touch_the_pass_count() {
    let mut renderer = Renderer::new(Image::new(1, 1, 1, 1));
    renderer.begin_pass();
    renderer.begin_pass();
    renderer.set_output_buffer(&vec![[255, 0, 128]]).unwrap();
    assert_eq!(renderer.accumulated_samples(), 2);
    renderer.begin_pass();
    assert_eq!(renderer.accumulated_samples(), 3);
    assert_eq!(renderer.get_raw_image_buffer(), vec![255, 0, 128]);
}

#[test]
fn readback_refuses_too_few_pixels_and_changes_nothing() {
    let mut renderer = Renderer::new(Image::new(2, 2, 1, 1));
    renderer.set_output_buffer(&numbered(4)).unwrap();
    let before = renderer.get_raw_image_buffer();
    assert_eq!(
        renderer.set_output_buffer(&numbered(3)),
        Err(SizeMismatch { expected: 4, found: 3 })
    );
    assert_eq!(renderer.get_raw_image_buffer(), before);
    assert_eq!(renderer.accumulated_samples(), 0);
}

#[test]
fn readback_refuses_too_many_pixels() {
    let mut renderer = Renderer::new(Image::new(2, 2, 1, 1));
    assert_eq!(
        renderer.set_output_buffer(&numbered(5)),
        Err(SizeMismatch { expected: 4, found: 5 })
    );
    assert_eq!(renderer.get_raw_image_buffer(), vec![0u8; 12]);
}

#[test]
fn readback_of_no_pixels_suits_an_empty_image_only() {
    let mut empty = Renderer::new(Image::new(0, 0, 1, 1));
    assert_eq!(empty.set_output_buffer(&Vec::new()), Ok(()));
    let mut one = Renderer::new(Image::new(1, 1, 1, 1));
    assert_eq!(
        one.set_output_buffer(&Vec::new()),
        Err(SizeMismatch { expected: 1, found: 0 })
    );
}

#[test]
fn the_raw_buffer_is_a_copy() {
    let mut renderer = Renderer::new(Image::new(1, 1, 1, 1));
    let mut raw = renderer.get_raw_image_buffer();
    raw[0] = 77;
    assert_eq!(renderer.get_raw_image_buffer(), vec![0, 0, 0]);
    renderer.set_output_buffer(&vec![[1, 2, 3]]).unwrap();
    assert_eq!(raw, vec![77, 0, 0]);
}

#[test]
fn the_picture_has_the_size_of_the_image_and_the_bytes_of_the_buffer() {
    let mut renderer = Renderer::new(Image::new(3, 2, 1, 1));
    renderer.set_output_buffer(&numbered(6)).unwrap();
    let picture = renderer.get_image_buffer().expect("the buffer always fits");
    assert_eq!(picture.dimensions(), (3, 2));
    assert_eq!(picture.into_raw(), renderer.get_raw_image_buffer());
}

#[test]
fn the_picture_of_a_tall_image_is_not_square() {
    let renderer = Renderer::new(Image::new(1, 5, 1, 1));
    let picture = renderer.get_image_buffer().unwrap();
    assert_eq!(picture.dimensions(), (1, 5));
    assert_eq!(picture.into_raw().len(), 15);
}

#[test]
fn the_picture_of_an_empty_image_is_empty() {
    let renderer = Renderer::new(Image::new(0, 0, 1, 1));
    let picture = renderer.get_image_buffer().unwrap();
    assert_eq!(picture.dimensions(), (0, 0));
    assert_eq!(picture.into_raw(), Vec::<u8>::new());
    let flipped = renderer.get_flipped_image_buffer().unwrap();
    assert_eq!(flipped.dimensions(), (0, 0));
}

#[test]
fn the_picture_agrees_with_one_made_by_the_image_crate() {
    let mut renderer = Renderer::new(Image::new(2, 3, 1, 1));
    renderer.set_output_buffer(&numbered(6)).unwrap();
    let theirs: image::RgbImage =
        image::ImageBuffer::from_raw(2, 3, renderer.get_raw_image_buffer()).unwrap();
    let ours = renderer.get_image_buffer().unwrap();
    assert_eq!(ours.dimensions(), theirs.dimensions());
    assert_eq!(&ours.into_raw(), theirs.as_raw());
    assert_eq!(theirs.get_pixel(1, 2), &image::Rgb([15, 16, 17]));
}

#[test]
fn the_flipped_picture_has_the_last_row_first() {
    let mut renderer = Renderer::new(Image::new(2, 3, 1, 1));
    let pixels = vec![
        [1, 2, 3],
        [4, 5, 6],
        [7, 8, 9],
        [10, 11, 12],
        [13, 14, 15],
        [16, 17, 18],
    ];
    renderer.set_output_buffer(&pixels).unwrap();
    let flipped = renderer.get_flipped_image_buffer().unwrap();
    assert_eq!(flipped.dimensions(), (2, 3));
    assert_eq!(
        flipped.into_raw(),
        vec![13, 14, 15, 16, 17, 18, 7, 8, 9, 10, 11, 12, 1, 2, 3, 4, 5, 6]
    );
    // The display buffer itself stays upright.
    assert_eq!(
        renderer.get_raw_image_buffer(),
        vec![1, 2, 3, 4, 5, 6, 7, 8, 9, 10, 11, 12, 13, 14, 15, 16, 17, 18]
    );
}

#[test]
fn flipping_a_single_row_changes_nothing() {
    let mut renderer = Renderer::new(Image::new(3, 1, 1, 1));
    renderer.set_output_buffer(&numbered(3)).unwrap();
    let flipped = renderer.get_flipped_image_buffer().unwrap();
    assert_eq!(flipped.into_raw(), renderer.get_raw_image_buffer());
}

#[test]
fn the_flipped_picture_agrees_with_the_image_crate() {
    let mut renderer = Renderer::new(Image::new(4, 3, 1, 1));
    renderer.set_output_buffer(&numbered(12)).unwrap();
    let upright: image::RgbImage =
        image::ImageBuffer::from_raw(4, 3, renderer.get_raw_image_buffer()).unwrap();
    let flipped = renderer.get_flipped_image_buffer().unwrap();
    for y in 0..3u32 {
        for x in 0..4u32 {
            let at = 3 * (y as usize * 4 + x as usize);
            let raw = renderer.get_flipped_image_buffer().unwrap().into_raw();
            assert_eq!(&raw[at..at + 3], &upright.get_pixel(x, 2 - y).0[..]);
        }
    }
    assert_eq!(flipped.dimensions(), upright.dimensions());
}
