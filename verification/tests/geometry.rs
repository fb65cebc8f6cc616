use shapalizer::geometry::{regular_polygon_points, PixelPoint};

const FX: i64 = 65536;

#[test]
fn square_at_zero_rotation_is_exact() {
    // Radius 30 around (50, 50): the quarter-point angles are exact in the
    // trig approximation, so the square's corners land exactly.
    let pts = regular_polygon_points(50 * FX, 50 * FX, (30 * FX) as u64, 4, 0);
    assert_eq!(pts.len(), 4);
    assert_eq!(pts[0], PixelPoint { x: 80, y: 50 });
    assert_eq!(pts[1], PixelPoint { x: 50, y: 80 });
    assert_eq!(pts[2], PixelPoint { x: 20, y: 50 });
    assert_eq!(pts[3], PixelPoint { x: 50, y: 20 });
}

#[test]
fn vertices_stay_near_center_and_adjacent_differ() {
    for sides in 3..9u32 {
        for rot in [0u32, 5000, 17000, 40000, 65535] {
            let pts = regular_polygon_points(200 * FX, 300 * FX, (40 * FX) as u64, sides, rot);
            assert_eq!(pts.len(), sides as usize);
            for p in &pts {
                assert!((p.x - 200).abs() <= 41, "x {} too far", p.x);
                assert!((p.y - 300).abs() <= 41, "y {} too far", p.y);
            }
            for w in pts.windows(2) {
                assert_ne!(w[0], w[1], "adjacent vertices coincide");
            }
        }
    }
}

#[test]
fn zero_radius_collapses_to_fallback() {
    let pts = regular_polygon_points(50 * FX, 60 * FX, 0, 5, 12345);
    assert_eq!(pts.len(), 2);
    assert_eq!(pts[0], PixelPoint { x: 50, y: 60 });
    assert_eq!(pts[1], PixelPoint { x: 51, y: 61 });
}

#[test]
fn tiny_radius_collapses_to_fallback() {
    // A quarter pixel of radius around the middle of a pixel rounds every
    // vertex onto that pixel.
    let center = 10 * FX + FX / 2;
    let pts = regular_polygon_points(center, center, (FX / 4) as u64, 6, 0);
    assert_eq!(pts.len(), 2);
    assert_eq!(pts[0], PixelPoint { x: 10, y: 10 });
    assert_eq!(pts[1], PixelPoint { x: 11, y: 11 });
}

#[test]
fn huge_side_count_collapses_to_fallback() {
    // With more sides than angle units the step truncates to zero, every
    // vertex repeats, and the fallback pair comes back.
    let pts = regular_polygon_points(0, 0, (90 * FX) as u64, 70000, 0);
    assert_eq!(pts.len(), 2);
    assert_eq!(pts[0], PixelPoint { x: 0, y: 0 });
    assert_eq!(pts[1], PixelPoint { x: 1, y: 1 });
}

#[test]
fn negative_center_is_allowed() {
    let pts = regular_polygon_points(-20 * FX, -20 * FX, (10 * FX) as u64, 4, 0);
    assert_eq!(pts.len(), 4);
    assert_eq!(pts[0], PixelPoint { x: -10, y: -20 });
}
