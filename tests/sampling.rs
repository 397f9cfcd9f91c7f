use raycasting::sampling::{sample_points, span_of};

#[test]
fn span_rounds_up() {
    assert_eq!(span_of(0, 4), 0);
    assert_eq!(span_of(8, 4), 2);
    assert_eq!(span_of(9, 4), 3);
    assert_eq!(span_of(1, 32), 1);
    assert_eq!(span_of(800, 32), 25);
    assert_eq!(span_of(usize::MAX, 2), usize::MAX / 2 + 1);
}

#[test]
fn sample_points_run_row_by_row_over_aligned_pixels() {
    let points = sample_points(5, 3, 2);
    assert_eq!(points, vec![(0, 0), (2, 0), (4, 0), (0, 2), (2, 2), (4, 2)]);
}

#[test]
fn sample_points_at_stride_one_are_every_pixel() {
    let points = sample_points(3, 2, 1);
    assert_eq!(points, vec![(0, 0), (1, 0), (2, 0), (0, 1), (1, 1), (2, 1)]);
}

#[test]
fn sample_points_of_empty_frame() {
    assert!(sample_points(0, 7, 4).is_empty());
    assert!(sample_points(7, 0, 4).is_empty());
}

#[test]
fn coarse_stride_larger_than_frame_takes_one_sample() {
    assert_eq!(sample_points(10, 6, 32), vec![(0, 0)]);
}
