use shapalizer::canvas::SourceImage;
use shapalizer::params::{ConfigError, UserParams};
use shapalizer::rng::{RandomSource, ScriptedRandom, ThreadRandom};
use shapalizer::sketch::Sketch;

const FX: u64 = 65536;

fn solid_source(width: u32, height: u32, rgba: [u8; 4]) -> SourceImage {
    let mut data = Vec::new();
    for _ in 0..(width as usize * height as usize) {
        data.extend_from_slice(&rgba);
    }
    SourceImage { buf: image::RgbaImage::from_raw(width, height, data).unwrap() }
}

fn small_params() -> UserParams {
    UserParams {
        destination_width: 100,
        destination_height: 100,
        stroke_ratio: 32768,
        stroke_reduction: 6553,
        stroke_jitter: 0,
        stroke_inversion_threshold: 6553,
        initial_alpha: 10 * FX,
        alpha_increase: FX,
        min_edge_count: 3,
        max_edge_count: 3,
    }
}

#[test]
fn construction_yields_a_transparent_canvas_of_the_configured_size() {
    let sketch = Sketch::new(solid_source(10, 10, [1, 2, 3, 4]), small_params()).unwrap();
    let out = sketch.output();
    assert_eq!(out.buf.0.dimensions(), (100, 100));
    for p in out.buf.0.pixels() {
        assert_eq!(p.0, [0, 0, 0, 0]);
    }
}

#[test]
fn zero_cycles_leave_the_canvas_transparent() {
    let mut sketch = Sketch::new(solid_source(10, 10, [9, 9, 9, 9]), small_params()).unwrap();
    let mut rng = ThreadRandom::new();
    sketch.run_cycles(0, &mut rng);
    assert_eq!(sketch.stroke_size, 32768 * 100);
    let out = sketch.output();
    for p in out.buf.0.pixels() {
        assert_eq!(p.0, [0, 0, 0, 0]);
    }
}

#[test]
fn stroke_size_shrinks_and_alpha_grows_across_cycles() {
    let mut sketch = Sketch::new(solid_source(10, 10, [50, 60, 70, 255]), small_params()).unwrap();
    let mut rng = ThreadRandom::new();
    let mut last_size = sketch.stroke_size;
    let mut last_alpha = sketch.current_alpha;
    for _ in 0..25 {
        sketch.run_cycles(1, &mut rng);
        assert!(sketch.stroke_size < last_size);
        assert!(sketch.current_alpha > last_alpha);
        last_size = sketch.stroke_size;
        last_alpha = sketch.current_alpha;
    }
}

#[test]
fn configuration_errors_are_reported_in_order() {
    let good = small_params();
    let source = || solid_source(4, 4, [0, 0, 0, 0]);
    let empty = UserParams { destination_width: 0, ..good };
    assert_eq!(Sketch::new(source(), empty).err(), Some(ConfigError::EmptyDestination));
    let flat = UserParams { destination_height: 0, min_edge_count: 1, ..good };
    assert_eq!(Sketch::new(source(), flat).err(), Some(ConfigError::EmptyDestination));
    let few = UserParams { min_edge_count: 2, ..good };
    assert_eq!(Sketch::new(source(), few).err(), Some(ConfigError::EdgeCountBelowThree));
    let unordered = UserParams { min_edge_count: 5, max_edge_count: 4, ..good };
    assert_eq!(Sketch::new(source(), unordered).err(), Some(ConfigError::EdgeCountsOutOfOrder));
    assert!(Sketch::new(source(), good).is_ok());
}

#[test]
fn one_scripted_cycle_stamps_the_sampled_triangle() {
    // A solid red source, one cycle scripted to sample (50, 50) with no
    // jitter, three sides, rotation zero: a red triangle of alpha 10 around
    // (50, 50) with radius 50, and no outline, since the stroke size (50)
    // still exceeds its inversion share (a tenth of 50).
    let mut sketch = Sketch::new(solid_source(100, 100, [255, 0, 0, 255]), small_params()).unwrap();
    let mut rng = ScriptedRandom::new(vec![50, 50, 0, 0, 3, 0]);
    let outlined = sketch.update(&mut rng);
    assert!(!outlined);
    assert_eq!(sketch.stroke_size, 3276800 - 327650);
    assert_eq!(sketch.current_alpha, 11 * FX);
    let out = sketch.output();
    let center = out.buf.0.get_pixel(50, 50);
    assert_eq!(center.0, [255, 0, 0, 10]);
    assert_eq!(out.buf.0.get_pixel(0, 0).0, [0, 0, 0, 0]);
    assert_eq!(out.buf.0.get_pixel(99, 99).0, [0, 0, 0, 0]);
    assert_eq!(out.buf.0.get_pixel(26, 50).0, [255, 0, 0, 10]);
}

#[test]
fn outline_appears_exactly_at_the_inversion_threshold() {
    // With the threshold at one whole unit the very first cycle sits exactly
    // on the boundary (stroke size equals its share), so the outline is owed
    // at once; the sampled color is dark, so the outline is white.
    let params = UserParams {
        stroke_ratio: 13107,
        stroke_inversion_threshold: 65536,
        ..small_params()
    };
    let mut sketch = Sketch::new(solid_source(100, 100, [255, 0, 0, 255]), params).unwrap();
    let mut rng = ScriptedRandom::new(vec![50, 50, 0, 0, 3, 0]);
    let outlined = sketch.update(&mut rng);
    assert!(outlined);
    let out = sketch.output();
    // The rightmost triangle vertex lies at (69, 50); the white outline
    // passes through it, so green shows there, which the red fill alone
    // could never leave.
    assert!(out.buf.0.get_pixel(69, 50).0[1] > 0);
}

#[test]
fn outline_stays_once_the_threshold_is_crossed() {
    let params = UserParams {
        stroke_reduction: 32768,
        stroke_inversion_threshold: 13107,
        ..small_params()
    };
    let mut sketch = Sketch::new(solid_source(100, 100, [10, 10, 10, 255]), params).unwrap();
    let mut rng = ThreadRandom::new();
    let mut seen_outline = false;
    for _ in 0..8 {
        let outlined = sketch.update(&mut rng);
        if seen_outline {
            assert!(outlined, "outline vanished after the threshold was crossed");
        }
        seen_outline = seen_outline || outlined;
    }
    assert!(seen_outline, "halving the stroke eight times must cross a 0.2 threshold");
}

#[test]
fn sampled_color_comes_from_the_scripted_source_pixel() {
    // A two-pixel source: sampling the right-hand pixel must stamp its
    // color, not the left one's.
    let mut data = Vec::new();
    data.extend_from_slice(&[10, 20, 30, 255]);
    data.extend_from_slice(&[0, 200, 0, 255]);
    let source = SourceImage { buf: image::RgbaImage::from_raw(2, 1, data).unwrap() };
    assert_eq!(source.buf.dimensions(), (2, 1));
    let params = UserParams {
        stroke_jitter: 0,
        initial_alpha: 255 * FX,
        ..small_params()
    };
    let mut sketch = Sketch::new(source, params).unwrap();
    // Source pixel (1, 0) maps to destination x-scale 50, center (50, 0).
    let mut rng = ScriptedRandom::new(vec![1, 0, 0, 0, 3, 0]);
    sketch.update(&mut rng);
    let out = sketch.output();
    assert_eq!(out.buf.0.get_pixel(50, 0).0, [0, 200, 0, 255]);
}

#[test]
fn saturated_alpha_stamps_opaque_strokes() {
    let params = UserParams { initial_alpha: 300 * FX, ..small_params() };
    let mut sketch = Sketch::new(solid_source(100, 100, [255, 0, 0, 255]), params).unwrap();
    let mut rng = ScriptedRandom::new(vec![50, 50, 0, 0, 3, 0]);
    sketch.update(&mut rng);
    let out = sketch.output();
    assert_eq!(out.buf.0.get_pixel(50, 50).0, [255, 0, 0, 255]);
}

#[test]
fn default_parameters_match_their_documentation() {
    let p = UserParams::default();
    assert_eq!(p.destination_width, 3840);
    assert_eq!(p.destination_height, 2160);
    assert_eq!(p.stroke_ratio, 49152);
    assert_eq!(p.stroke_reduction, 131);
    assert_eq!(p.stroke_jitter, 25165824);
    assert_eq!(p.stroke_inversion_threshold, 3276);
    assert_eq!(p.initial_alpha, 6553);
    assert_eq!(p.alpha_increase, 393);
    assert_eq!(p.min_edge_count, 3);
    assert_eq!(p.max_edge_count, 4);
}

#[test]
fn jitter_lands_strokes_off_center() {
    // With the jitter scripted to its positive cap, the stamped triangle
    // sits 10 pixels down-right of the unjittered center.
    let params = UserParams { stroke_jitter: 10 * FX, ..small_params() };
    let mut sketch = Sketch::new(solid_source(100, 100, [255, 0, 0, 255]), params).unwrap();
    let cap = (10 * FX) as i64;
    let mut rng = ScriptedRandom::new(vec![50, 50, cap, cap, 3, 0]);
    sketch.update(&mut rng);
    let out = sketch.output();
    assert_eq!(out.buf.0.get_pixel(60, 60).0, [255, 0, 0, 10]);
    assert_eq!(out.buf.0.get_pixel(12, 50).0, [0, 0, 0, 0]);
}

#[test]
fn scripted_source_clamps_draws_into_range() {
    let mut rng = ScriptedRandom::new(vec![-5, 900, 7]);
    assert_eq!(rng.pick_u32(0, 10), 0);
    assert_eq!(rng.pick_u32(0, 10), 10);
    assert_eq!(rng.pick_u32(0, 10), 7);
    assert_eq!(rng.pick_u32(3, 10), 3);
    assert_eq!(rng.pick_i64(-4, 4), -4);
}

#[test]
fn thread_random_stays_in_range() {
    let mut rng = ThreadRandom::new();
    for _ in 0..200 {
        let v = rng.pick_u32(3, 7);
        assert!((3..=7).contains(&v));
        let w = rng.pick_i64(-9, 9);
        assert!((-9..=9).contains(&w));
    }
}
