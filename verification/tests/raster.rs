use musializer::raster::OffscreenRasterizer;

#[test]
fn new_frame_is_zeroed_and_sized() {
    let r = OffscreenRasterizer::new(640, 360);
    assert_eq!(r.width, 640);
    assert_eq!(r.height, 360);
    assert_eq!(r.as_bytes().len(), 640 * 360 * 4);
    assert!(r.as_bytes().iter().all(|&b| b == 0));
}

#[test]
fn clear_paints_every_pixel() {
    let mut r = OffscreenRasterizer::new(5, 4);
    r.set_pixel(2, 2, 200, 100, 50, 25);
    r.clear(11, 13, 19, 255);
    for y in 0..4 {
        for x in 0..5 {
            assert_eq!(r.pixel_at(x, y), Some((11, 13, 19, 255)));
        }
    }
    assert_eq!(r.as_bytes().len(), 5 * 4 * 4);
}

#[test]
fn set_pixel_writes_rgba_bytes_in_row_major_order() {
    let mut r = OffscreenRasterizer::new(3, 2);
    r.set_pixel(2, 1, 1, 2, 3, 4);
    let idx = (1 * 3 + 2) * 4;
    assert_eq!(&r.as_bytes()[idx..idx + 4], &[1, 2, 3, 4]);
    assert_eq!(r.pixel_at(2, 1), Some((1, 2, 3, 4)));
    assert_eq!(r.pixel_at(1, 1), Some((0, 0, 0, 0)));
}

#[test]
fn set_pixel_outside_frame_is_ignored() {
    let mut r = OffscreenRasterizer::new(3, 2);
    r.set_pixel(3, 0, 9, 9, 9, 9);
    r.set_pixel(0, 2, 9, 9, 9, 9);
    assert!(r.as_bytes().iter().all(|&b| b == 0));
    assert_eq!(r.pixel_at(3, 0), None);
}

#[test]
fn fill_rect_is_clipped_to_frame() {
    let mut r = OffscreenRasterizer::new(4, 3);
    r.fill_rect(2, 1, 100, 100, 7, 7, 7, 255);
    for y in 0..3 {
        for x in 0..4 {
            let inside = x >= 2 && y >= 1;
            let expected = if inside { (7, 7, 7, 255) } else { (0, 0, 0, 0) };
            assert_eq!(r.pixel_at(x, y), Some(expected));
        }
    }
}

#[test]
fn fill_rect_with_inverted_corners_draws_nothing() {
    let mut r = OffscreenRasterizer::new(4, 3);
    r.fill_rect(3, 2, 1, 0, 5, 5, 5, 5);
    assert!(r.as_bytes().iter().all(|&b| b == 0));
}

#[test]
fn repainting_a_region_keeps_the_last_colour() {
    let mut a = OffscreenRasterizer::new(6, 6);
    a.fill_rect(1, 1, 4, 4, 10, 20, 30, 255);
    a.fill_rect(1, 1, 4, 4, 40, 50, 60, 255);
    let mut b = OffscreenRasterizer::new(6, 6);
    b.fill_rect(1, 1, 4, 4, 40, 50, 60, 255);
    assert_eq!(a.as_bytes(), b.as_bytes());
}

#[test]
fn read_back_after_set_pixel() {
    let mut r = OffscreenRasterizer::new(8, 8);
    r.clear(1, 1, 1, 1);
    r.set_pixel(4, 5, 250, 0, 125, 255);
    assert_eq!(r.pixel_at(4, 5), Some((250, 0, 125, 255)));
    assert_eq!(r.pixel_at(5, 4), Some((1, 1, 1, 1)));
}

#[test]
fn clearing_forgets_previous_content() {
    let mut a = OffscreenRasterizer::new(7, 3);
    a.fill_rect(0, 0, 3, 3, 99, 98, 97, 96);
    a.clear(11, 13, 19, 255);
    let mut b = OffscreenRasterizer::new(7, 3);
    b.clear(11, 13, 19, 255);
    assert_eq!(a.as_bytes(), b.as_bytes());
}

#[test]
fn getters_report_the_frame_size() {
    let mut r = OffscreenRasterizer::new(7, 3);
    r.set_pixel(2, 1, 1, 2, 3, 4);
    assert_eq!((r.width(), r.height()), (7, 3));
    assert_eq!((r.width, r.height), (7, 3));
}
