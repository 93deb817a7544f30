use towny_map::geometry::{multipolygon_area, polygon_area, ring_area, round_to_nearest_16, Point};

fn pt(x: i32, z: i32) -> Point {
    Point { x, z }
}

fn square(x0: i32, z0: i32, side: i32) -> Vec<Point> {
    vec![pt(x0, z0), pt(x0 + side, z0), pt(x0 + side, z0 + side), pt(x0, z0 + side)]
}

#[test]
fn snapping_rounds_halves_away_from_zero() {
    assert_eq!(round_to_nearest_16(0), 0);
    assert_eq!(round_to_nearest_16(7), 0);
    assert_eq!(round_to_nearest_16(8), 16);
    assert_eq!(round_to_nearest_16(24), 32);
    assert_eq!(round_to_nearest_16(-7), 0);
    assert_eq!(round_to_nearest_16(-8), -16);
    assert_eq!(round_to_nearest_16(-25), -32);
    assert_eq!(round_to_nearest_16(i32::MAX), 2147483648);
}

#[test]
fn rings_under_three_points_have_no_area() {
    assert_eq!(ring_area(&[]), 0);
    assert_eq!(ring_area(&[pt(0, 0)]), 0);
    assert_eq!(ring_area(&[pt(0, 0), pt(512, 512)]), 0);
}

#[test]
fn square_ring_area_in_half_chunks() {
    // 256 x 256 blocks = 256 chunks = 512 half-chunks
    assert_eq!(ring_area(&square(0, 0, 256)), 512);
}

#[test]
fn ring_area_uses_snapped_coordinates() {
    // corners within 7 blocks of the grid snap onto the same 256-block square
    let ring = vec![pt(5, -7), pt(250, 3), pt(263, 262), pt(-2, 249)];
    assert_eq!(ring_area(&ring), 512);
}

#[test]
fn ring_area_same_under_rotation_and_reversal() {
    let ring = vec![pt(0, 0), pt(160, 0), pt(160, 48), pt(64, 128), pt(0, 96)];
    let a = ring_area(&ring);
    assert!(a > 0);
    for k in 0..ring.len() {
        let mut rotated = ring[k..].to_vec();
        rotated.extend_from_slice(&ring[..k]);
        assert_eq!(ring_area(&rotated), a);
    }
    let mut reversed = ring.clone();
    reversed.reverse();
    assert_eq!(ring_area(&reversed), a);
}

#[test]
fn triangle_has_half_chunk_area() {
    let ring = vec![pt(0, 0), pt(16, 0), pt(0, 16)];
    assert_eq!(ring_area(&ring), 1);
    assert_eq!(polygon_area(&vec![ring]), 0);
}

#[test]
fn polygon_area_subtracts_hole() {
    let outer = square(0, 0, 256);
    let hole = square(64, 64, 32);
    assert_eq!(ring_area(&hole), 8);
    let poly = vec![outer.clone(), hole];
    assert_eq!(polygon_area(&poly), 252);
    assert!(2 * (polygon_area(&poly) as i128) <= ring_area(&outer) as i128);
}

#[test]
fn polygon_area_truncates_toward_zero() {
    // 0.5 chunk outer, 2 chunk hole: -1.5 truncates to -1
    let poly = vec![vec![pt(0, 0), pt(16, 0), pt(0, 16)], square(0, 0, 16 * 2)];
    assert_eq!(ring_area(&poly[1]), 8);
    let poly2 = vec![vec![pt(0, 0), pt(16, 0), pt(0, 16)], vec![pt(0, 0), pt(32, 0), pt(32, 16), pt(0, 16)]];
    assert_eq!(polygon_area(&poly2), -1);
    assert_eq!(polygon_area(&poly), -3);
}

#[test]
fn empty_polygon_has_no_area() {
    assert_eq!(polygon_area(&Vec::new()), 0);
}

#[test]
fn multipolygon_area_sums_polygons() {
    let a = vec![square(0, 0, 256)];
    let b = vec![square(1024, 1024, 64), square(1040, 1040, 16)];
    assert_eq!(polygon_area(&a), 256);
    assert_eq!(polygon_area(&b), 15);
    assert_eq!(multipolygon_area(&[a, b]), 271);
    assert_eq!(multipolygon_area(&[]), 0);
}

#[test]
fn huge_polygon_saturates() {
    let big = vec![pt(-1_000_000_000, -1_000_000_000), pt(1_000_000_000, -1_000_000_000), pt(1_000_000_000, 1_000_000_000), pt(-1_000_000_000, 1_000_000_000)];
    assert_eq!(polygon_area(&vec![big.clone()]), i32::MAX);
    assert_eq!(polygon_area(&vec![vec![pt(0, 0), pt(16, 0), pt(0, 16)], big]), i32::MIN);
}
