use raycasting::framebuffer::Framebuffer;
use raycasting::pixel::Pixel;

#[test]
fn new_framebuffer_is_empty() {
    let fb = Framebuffer::new();
    assert_eq!((fb.width(), fb.height()), (0, 0));
    assert!(fb.as_bytes().is_empty());
}

#[test]
fn resize_zero_fills_on_new_size() {
    let mut fb = Framebuffer::new();
    assert!(fb.resize(3, 2));
    assert_eq!((fb.width(), fb.height()), (3, 2));
    assert_eq!(fb.as_bytes(), &vec![0u8; 24]);
}

#[test]
fn resize_to_same_size_keeps_buffer() {
    let mut fb = Framebuffer::new();
    fb.resize(2, 2);
    fb.set_pixel(1, 1, Pixel::from((9, 8, 7, 6)));
    assert!(!fb.resize(2, 2));
    assert_eq!(fb.get_pixel(1, 1).as_rgba8(), (9, 8, 7, 6));
}

#[test]
fn resize_to_no_pixels_is_refused() {
    let mut fb = Framebuffer::new();
    fb.resize(2, 2);
    fb.set_pixel(0, 0, Pixel::from((1, 1, 1, 1)));
    assert!(!fb.resize(0, 5));
    assert!(!fb.resize(5, 0));
    assert_eq!((fb.width(), fb.height()), (2, 2));
    assert_eq!(fb.get_pixel(0, 0).as_rgba8(), (1, 1, 1, 1));
}

#[test]
fn set_pixel_writes_four_bytes_row_major() {
    let mut fb = Framebuffer::new();
    fb.resize(3, 2);
    fb.set_pixel(2, 1, Pixel::from((10, 20, 30, 40)));
    let mut expected = vec![0u8; 24];
    expected[20..24].copy_from_slice(&[10, 20, 30, 40]);
    assert_eq!(fb.as_bytes(), &expected);
    assert_eq!(fb.get_pixel(2, 1).as_rgba8(), (10, 20, 30, 40));
    assert_eq!(fb.get_pixel(1, 1).as_rgba8(), (0, 0, 0, 0));
}

#[test]
fn fill_strided_copies_each_sample_over_its_block() {
    let mut fb = Framebuffer::new();
    fb.resize(3, 3);
    let a = Pixel::from((1, 0, 0, 255));
    let b = Pixel::from((2, 0, 0, 255));
    let c = Pixel::from((3, 0, 0, 255));
    let d = Pixel::from((4, 0, 0, 255));
    fb.fill_strided(2, &vec![a, b, c, d]);
    let expected_rows = [[a, a, b], [a, a, b], [c, c, d]];
    for j in 0..3 {
        for i in 0..3 {
            assert_eq!(fb.get_pixel(i, j), expected_rows[j][i]);
        }
    }
}

#[test]
fn fill_strided_at_stride_one_is_direct() {
    let mut fb = Framebuffer::new();
    fb.resize(2, 1);
    fb.fill_strided(1, &vec![Pixel::from((1, 2, 3, 4)), Pixel::from((5, 6, 7, 8))]);
    assert_eq!(fb.as_bytes(), &vec![1, 2, 3, 4, 5, 6, 7, 8]);
}
