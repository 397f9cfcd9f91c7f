use raycasting::pixel::Pixel;

#[test]
fn new_pixel_is_opaque_black() {
    assert_eq!(Pixel::new().as_rgba8(), (0, 0, 0, 255));
}

#[test]
fn from_keeps_channel_order() {
    let p = Pixel::from((1, 2, 3, 4));
    assert_eq!((p.r, p.g, p.b, p.a), (1, 2, 3, 4));
    assert_eq!(p.as_rgba8(), (1, 2, 3, 4));
}
