use raycasting::canvas::Canvas;
use raycasting::params::SceneParams;
use raycasting::pixel::Pixel;

fn params(a: f64) -> SceneParams {
    SceneParams {
        a: a.to_bits(),
        b: 1.0f64.to_bits(),
        c: 1.0f64.to_bits(),
        m: 1.0f64.to_bits(),
        scale_x: 1.0f64.to_bits(),
        scale_y: 1.0f64.to_bits(),
        scale_z: 1.0f64.to_bits(),
        rotation_x: 0.0f64.to_bits(),
        rotation_y: 0.0f64.to_bits(),
        rotation_z: 0.0f64.to_bits(),
        translation_x: 0.0f64.to_bits(),
        translation_y: 0.0f64.to_bits(),
        translation_z: 0.0f64.to_bits(),
    }
}

/// A stand-in shading that gives every pixel its own colour.
fn shade(i: usize, j: usize) -> Pixel {
    Pixel::from((i as u8, j as u8, (i * 7 + j * 3) as u8, 255))
}

/// One render: update, and draw where the update asks for it.
fn render(c: &mut Canvas, p: &SceneParams, width: usize, height: usize) -> bool {
    let redraw = c.update(p, width, height);
    if redraw {
        let samples: Vec<Pixel> = c.sample_points().iter().map(|&(i, j)| shade(i, j)).collect();
        c.draw(&samples);
    }
    redraw
}

#[test]
fn first_update_asks_for_coarse_recompute() {
    let mut c = Canvas::new();
    assert_eq!(c.accuracy(), 1);
    assert!(c.update(&params(1.0), 8, 4));
    assert_eq!(c.accuracy(), 32);
    assert_eq!((c.width(), c.height()), (8, 4));
    assert_eq!(c.buffer(), &vec![0u8; 128]);
    assert_eq!(c.sample_points(), vec![(0, 0)]);
}

#[test]
fn coarse_draw_fills_frame_from_one_sample() {
    let mut c = Canvas::new();
    render(&mut c, &params(1.0), 3, 2);
    let expected: Vec<u8> = (0..6).flat_map(|_| [0u8, 0, 0, 255]).collect();
    assert_eq!(c.buffer(), &expected);
}

#[test]
fn rendering_twice_gives_identical_frames() {
    let mut c = Canvas::with_min_accuracy(4);
    let p = params(1.0);
    assert!(render(&mut c, &p, 9, 7));
    let first = c.buffer().clone();
    assert!(!render(&mut c, &p, 9, 7));
    assert_eq!(c.buffer(), &first);
}

#[test]
fn refinement_reaches_the_full_resolution_frame() {
    let p = params(1.0);
    let mut c = Canvas::with_min_accuracy(32);
    assert!(render(&mut c, &p, 11, 5));
    c.interact();
    assert!(!render(&mut c, &p, 11, 5));
    let mut strides = vec![c.accuracy()];
    for _ in 0..5 {
        c.tick();
        assert!(c.tick());
        assert!(render(&mut c, &p, 11, 5));
        strides.push(c.accuracy());
    }
    assert_eq!(strides, vec![32, 16, 8, 4, 2, 1]);

    let mut direct = Canvas::with_min_accuracy(1);
    assert!(render(&mut direct, &p, 11, 5));
    assert_eq!(direct.accuracy(), 1);
    assert_eq!(c.buffer(), direct.buffer());
    for j in 0..5 {
        for i in 0..11 {
            let o = (j * 11 + i) * 4;
            assert_eq!(&c.buffer()[o..o + 4], &[i as u8, j as u8, (i * 7 + j * 3) as u8, 255]);
        }
    }
}

#[test]
fn intermediate_stride_shows_aligned_samples() {
    let p = params(1.0);
    let mut c = Canvas::with_min_accuracy(2);
    render(&mut c, &p, 5, 3);
    assert_eq!(c.accuracy(), 2);
    for j in 0..3 {
        for i in 0..5 {
            let o = (j * 5 + i) * 4;
            let s = shade(i - i % 2, j - j % 2).as_rgba8();
            assert_eq!(&c.buffer()[o..o + 4], &[s.0, s.1, s.2, s.3]);
        }
    }
}

#[test]
fn parameter_change_while_refining_resets_accuracy() {
    let mut c = Canvas::with_min_accuracy(16);
    render(&mut c, &params(1.0), 6, 6);
    for _ in 0..6 {
        c.tick();
    }
    render(&mut c, &params(1.0), 6, 6);
    assert_eq!(c.accuracy(), 2);
    assert!(c.update(&params(2.0), 6, 6));
    assert_eq!(c.accuracy(), 16);
    assert_eq!(c.refinement().current_timer, c.refinement().max_timer);
}

#[test]
fn size_change_resets_accuracy_and_clears_frame() {
    let mut c = Canvas::with_min_accuracy(4);
    render(&mut c, &params(1.0), 2, 2);
    c.tick();
    c.tick();
    assert_eq!(c.accuracy(), 2);
    assert!(c.update(&params(1.0), 3, 1));
    assert_eq!(c.accuracy(), 4);
    assert_eq!(c.buffer(), &vec![0u8; 12]);
}

#[test]
fn unchanged_inputs_recompute_only_after_stride_change() {
    let mut c = Canvas::with_min_accuracy(4);
    let p = params(1.0);
    assert!(render(&mut c, &p, 4, 4));
    assert!(!c.update(&p, 4, 4));
    assert!(!c.tick());
    assert!(!c.update(&p, 4, 4));
    assert!(c.tick());
    assert!(c.update(&p, 4, 4));
    assert!(!c.update(&p, 4, 4));
}

#[test]
fn interaction_resets_accuracy_without_parameter_change() {
    let mut c = Canvas::with_min_accuracy(8);
    let p = params(1.0);
    render(&mut c, &p, 4, 4);
    for _ in 0..6 {
        c.tick();
    }
    render(&mut c, &p, 4, 4);
    assert_eq!(c.accuracy(), 1);
    c.interact();
    assert_eq!(c.accuracy(), 8);
    assert!(c.update(&p, 4, 4));
}

#[test]
fn zero_sized_viewport_is_ignored() {
    let mut c = Canvas::with_min_accuracy(4);
    let p = params(1.0);
    render(&mut c, &p, 3, 3);
    let before = c.buffer().clone();
    assert!(!c.update(&params(5.0), 0, 3));
    assert!(!c.update(&params(5.0), 3, 0));
    assert_eq!((c.width(), c.height()), (3, 3));
    assert_eq!(c.buffer(), &before);
    assert!(!c.update(&p, 3, 3));
}

#[test]
fn bit_patterns_tell_negative_zero_apart() {
    let mut c = Canvas::with_min_accuracy(4);
    let mut p = params(1.0);
    render(&mut c, &p, 2, 2);
    p.rotation_x = (-0.0f64).to_bits();
    assert!(c.update(&p, 2, 2));
}

#[test]
fn new_canvas_has_default_settings() {
    let c = Canvas::new();
    let r = c.refinement();
    assert_eq!((r.min_accuracy, r.max_timer, r.timer_step), (32, 500, 250));
    assert_eq!((c.width(), c.height()), (0, 0));
    assert!(c.buffer().is_empty());
}
