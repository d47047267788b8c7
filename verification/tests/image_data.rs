use raytracer::scene::Image;

#[test]
fn image_new_keeps_what_it_is_given() {
    let image = Image::new(1920, 1080, 4000, 50);
    assert_eq!(image.width, 1920);
    assert_eq!(image.height, 1080);
    assert_eq!(image.samples, 4000);
    assert_eq!(image.max_depth, 50);
    assert_eq!(image, Image { width: 1920, height: 1080, samples: 4000, max_depth: 50 });
}

#[test]
fn buffer_len_is_three_bytes_for_each_pixel() {
    assert_eq!(Image::new(1920, 1080, 1, 1).buffer_len(), Some(6_220_800));
    assert_eq!(Image::new(4, 2, 1, 1).buffer_len(), Some(24));
    assert_eq!(Image::new(1, 1, 1, 1).buffer_len(), Some(3));
}

#[test]
fn buffer_len_of_an_empty_image_is_zero() {
    assert_eq!(Image::new(0, 0, 1, 1).buffer_len(), Some(0));
    assert_eq!(Image::new(0, 1080, 1, 1).buffer_len(), Some(0));
    assert_eq!(Image::new(u64::MAX, 0, 1, 1).buffer_len(), Some(0));
}

#[test]
fn buffer_len_refuses_what_cannot_be_addressed() {
    // The pixel count itself overflows.
    assert_eq!(Image::new(u64::MAX, 2, 1, 1).buffer_len(), None);
    assert_eq!(Image::new(1 << 32, 1 << 32, 1, 1).buffer_len(), None);
    // The pixel count fits, three bytes for each do not.
    assert_eq!(Image::new(1 << 62, 2, 1, 1).buffer_len(), None);
    assert_eq!(Image::new(u64::MAX / 3 + 1, 1, 1, 1).buffer_len(), None);
}

#[test]
fn buffer_len_reaches_the_last_addressable_byte() {
    if usize::BITS == 64 {
        let width = u64::MAX / 3;
        assert_eq!(Image::new(width, 1, 1, 1).buffer_len(), Some((3 * width) as usize));
    }
}

#[test]
fn pixel_position_is_column_then_row() {
    let image = Image::new(4, 2, 1, 1);
    assert_eq!(image.pixel_position(0), (0, 0));
    assert_eq!(image.pixel_position(3), (3, 0));
    assert_eq!(image.pixel_position(4), (0, 1));
    assert_eq!(image.pixel_position(6), (2, 1));
    assert_eq!(image.pixel_position(7), (3, 1));
}

#[test]
fn pixel_position_visits_every_pixel_once_in_row_major_order() {
    let image = Image::new(5, 3, 1, 1);
    let mut expected = Vec::new();
    for y in 0..3u64 {
        for x in 0..5u64 {
            expected.push((x, y));
        }
    }
    let mut found = Vec::new();
    for index in 0..15u64 {
        let (x, y) = image.pixel_position(index);
        assert_eq!(y * image.width + x, index);
        found.push((x, y));
    }
    assert_eq!(found, expected);
}

#[test]
fn pixel_position_of_an_index_past_the_grid_is_past_the_last_row() {
    let image = Image::new(4, 2, 1, 1);
    assert_eq!(image.pixel_position(8), (0, 2));
    assert_eq!(image.pixel_position(u64::MAX), (3, u64::MAX / 4));
}

#[test]
fn pixel_position_on_a_single_column() {
    let image = Image::new(1, 7, 1, 1);
    assert_eq!(image.pixel_position(0), (0, 0));
    assert_eq!(image.pixel_position(6), (0, 6));
}

#[test]
fn pixel_count_is_width_times_height() {
    assert_eq!(Image::new(1920, 1080, 1, 1).pixel_count(), Some(2_073_600));
    assert_eq!(Image::new(7, 1, 1, 1).pixel_count(), Some(7));
    assert_eq!(Image::new(0, 1080, 1, 1).pixel_count(), Some(0));
}

#[test]
fn pixel_count_refuses_what_cannot_be_addressed() {
    assert_eq!(Image::new(u64::MAX, 2, 1, 1).pixel_count(), None);
    assert_eq!(Image::new(1 << 32, 1 << 32, 1, 1).pixel_count(), None);
    if usize::BITS == 64 {
        // One slot for each pixel can be addressed where three bytes cannot.
        let image = Image::new(1 << 62, 2, 1, 1);
        assert_eq!(image.pixel_count(), Some(1 << 63));
        assert_eq!(image.buffer_len(), None);
    }
}
