//! Territory area: the shoelace formula over coordinates snapped to the 16-block grid.
//!
//! Areas are exact integers. A ring's area is reported in half-chunk units (one unit is
//! 128 square blocks), so that the half of the shoelace sum never loses a fraction; a
//! polygon's area is reported in whole chunks (256 square blocks), truncated toward zero.
use vstd::arithmetic::div_mod::{lemma_mod_self_0, lemma_small_mod};
use vstd::prelude::*;

verus! {

/// A map coordinate `(x, z)` in whole blocks.
#[derive(Clone, Copy, Debug, PartialEq, Eq, Structural)]
pub struct Point {
    pub x: i32,
    pub z: i32,
}

/// Index of the 16-block grid line nearest to `v`; halves round away from zero.
pub open spec fn chunk_of(v: int) -> int {
    if v >= 0 {
        (v + 8) / 16
    } else {
        -((-v + 8) / 16)
    }
}

/// `v` snapped to the nearest multiple of 16.
pub open spec fn snap16(v: int) -> int {
    16 * chunk_of(v)
}

/// The shoelace cross term of the edge from point `i` to the next point (wrapping), on
/// snapped coordinates divided by 16.
pub open spec fn cross_at(ring: Seq<Point>, i: int) -> int {
    let j = (i + 1) % (ring.len() as int);
    chunk_of(ring[i].x as int) * chunk_of(ring[j].z as int) - chunk_of(ring[j].x as int)
        * chunk_of(ring[i].z as int)
}

/// Sum of the cross terms of the first `k` edges.
pub open spec fn cross_sum(ring: Seq<Point>, k: int) -> int
    decreases k,
{
    if k <= 0 {
        0
    } else {
        cross_sum(ring, k - 1) + cross_at(ring, k - 1)
    }
}

pub open spec fn abs(v: int) -> int {
    if v >= 0 {
        v
    } else {
        -v
    }
}

/// Area of a ring in half-chunk units: the absolute shoelace sum over snapped
/// coordinates, divided by 256; zero for fewer than three points.
pub open spec fn ring_area_of(ring: Seq<Point>) -> int {
    if ring.len() < 3 {
        0
    } else {
        abs(cross_sum(ring, ring.len() as int))
    }
}

/// Sum of the areas of rings `1 .. k` of a polygon (its holes), in half-chunk units.
pub open spec fn holes_area_of(polygon: Seq<Vec<Point>>, k: int) -> int
    decreases k,
{
    if k <= 1 {
        0
    } else {
        holes_area_of(polygon, k - 1) + ring_area_of(polygon[k - 1]@)
    }
}

/// Outer ring area minus the hole areas, in half-chunk units.
pub open spec fn polygon_half_area_of(polygon: Seq<Vec<Point>>) -> int {
    if polygon.len() == 0 {
        0
    } else {
        ring_area_of(polygon[0]@) - holes_area_of(polygon, polygon.len() as int)
    }
}

/// Halves `d`, truncating toward zero.
pub open spec fn half_toward_zero(d: int) -> int {
    if d >= 0 {
        d / 2
    } else {
        -((-d) / 2)
    }
}

/// `v` clamped into the range of `i32`.
pub open spec fn clamp_i32(v: int) -> int {
    if v > i32::MAX {
        i32::MAX as int
    } else if v < i32::MIN {
        i32::MIN as int
    } else {
        v
    }
}

/// Area of a polygon in chunks, truncated toward zero and saturated to `i32`.
pub open spec fn polygon_area_of(polygon: Seq<Vec<Point>>) -> int {
    clamp_i32(half_toward_zero(polygon_half_area_of(polygon)))
}

/// Sum of the areas of the first `k` polygons.
pub open spec fn polygons_sum(mp: Seq<Vec<Vec<Point>>>, k: int) -> int
    decreases k,
{
    if k <= 0 {
        0
    } else {
        polygons_sum(mp, k - 1) + polygon_area_of(mp[k - 1]@)
    }
}

/// Area of a multipolygon in chunks, saturated to `i32`.
pub open spec fn multipolygon_area_of(mp: Seq<Vec<Vec<Point>>>) -> int {
    clamp_i32(polygons_sum(mp, mp.len() as int))
}

/// Bound on one cross term: chunk indices of `i32` values are at most 2^27 in magnitude.
pub open spec fn cross_bound() -> int {
    0x80_0000_0000_0000
}

proof fn lemma_chunk_bound(v: int)
    requires
        i32::MIN <= v <= i32::MAX,
    ensures
        -0x800_0000 <= chunk_of(v) <= 0x800_0000,
{
}

proof fn lemma_product_bound(a: int, b: int)
    requires
        -0x800_0000 <= a <= 0x800_0000,
        -0x800_0000 <= b <= 0x800_0000,
    ensures
        -0x40_0000_0000_0000 <= a * b <= 0x40_0000_0000_0000,
{
    assert(-0x40_0000_0000_0000 <= a * b <= 0x40_0000_0000_0000) by (nonlinear_arith)
        requires
            -0x800_0000 <= a <= 0x800_0000,
            -0x800_0000 <= b <= 0x800_0000,
    ;
}

proof fn lemma_cross_bound(ring: Seq<Point>, i: int)
    requires
        0 <= i < ring.len(),
    ensures
        -cross_bound() <= cross_at(ring, i) <= cross_bound(),
{
    let j = (i + 1) % (ring.len() as int);
    let a = chunk_of(ring[i].x as int);
    let b = chunk_of(ring[j].z as int);
    let c = chunk_of(ring[j].x as int);
    let d = chunk_of(ring[i].z as int);
    lemma_chunk_bound(ring[i].x as int);
    lemma_chunk_bound(ring[j].z as int);
    lemma_chunk_bound(ring[j].x as int);
    lemma_chunk_bound(ring[i].z as int);
    lemma_product_bound(a, b);
    lemma_product_bound(c, d);
}

proof fn lemma_ring_area_limit(len: int, area: int)
    requires
        0 <= len <= usize::MAX,
        area <= len * cross_bound(),
    ensures
        area < 0x80_0000_0000_0000_0000_0000_0000_0000,
{
    assert(len * cross_bound() < 0x80_0000_0000_0000_0000_0000_0000_0000) by (nonlinear_arith)
        requires
            0 <= len <= usize::MAX,
    ;
}

/// Grid index of the 16-block line nearest to `v`.
fn chunk_index(v: i32) -> (r: i64)
    ensures
        r == chunk_of(v as int),
{
    if v >= 0 {
        (v as i64 + 8) / 16
    } else {
        -((-(v as i64) + 8) / 16)
    }
}

/// `v` snapped to the nearest multiple of 16, halves away from zero.
pub fn round_to_nearest_16(v: i32) -> (r: i64)
    ensures
        r == snap16(v as int),
{
    chunk_index(v) * 16
}

/// Area of a closed ring in half-chunk units (twice its area in 16x16 chunks).
pub fn ring_area(ring: &[Point]) -> (r: u128)
    ensures
        r == ring_area_of(ring@),
        ring@.len() < 3 ==> r == 0,
        r < 0x80_0000_0000_0000_0000_0000_0000_0000,
{
    let n = ring.len();
    if n < 3 {
        return 0;
    }
    let mut area: i128 = 0;
    let mut i: usize = 0;
    while i < n
        invariant
            n == ring@.len(),
            n >= 3,
            i <= n,
            area == cross_sum(ring@, i as int),
            -(i as int) * cross_bound() <= area <= (i as int) * cross_bound(),
        decreases n - i,
    {
        let j = (i + 1) % n;
        let x1 = chunk_index(ring[i].x);
        let z1 = chunk_index(ring[i].z);
        let x2 = chunk_index(ring[j].x);
        let z2 = chunk_index(ring[j].z);
        proof {
            lemma_chunk_bound(ring@[i as int].x as int);
            lemma_chunk_bound(ring@[i as int].z as int);
            lemma_chunk_bound(ring@[j as int].x as int);
            lemma_chunk_bound(ring@[j as int].z as int);
            lemma_cross_bound(ring@, i as int);
            lemma_product_bound(x1 as int, z2 as int);
            lemma_product_bound(x2 as int, z1 as int);
        }
        let p = (x1 as i128) * (z2 as i128);
        let q = (x2 as i128) * (z1 as i128);
        area = area + (p - q);
        i = i + 1;
    }
    proof {
        lemma_ring_area_limit(n as int, abs(area as int));
    }
    if area >= 0 {
        area as u128
    } else {
        (-area) as u128
    }
}

/// Cap on the running sum of hole areas; any sum at or above it leaves a polygon area
/// below `i32::MIN`, since an outer ring's area stays under 2^119.
const HOLES_CAP: u128 = 0x200_0000_0000_0000_0000_0000_0000_0000;

/// Area of a polygon in chunks: its outer ring's area minus the areas of its holes,
/// truncated toward zero and saturated to `i32`; zero for a polygon without rings.
pub fn polygon_area(polygon: &Vec<Vec<Point>>) -> (r: i32)
    ensures
        r == polygon_area_of(polygon@),
        polygon@.len() == 0 ==> r == 0,
{
    if polygon.len() == 0 {
        return 0;
    }
    let outer = ring_area(polygon[0].as_slice());
    let mut holes: u128 = 0;
    let mut k: usize = 1;
    while k < polygon.len()
        invariant
            1 <= k <= polygon@.len(),
            outer == ring_area_of(polygon@[0]@),
            outer < 0x80_0000_0000_0000_0000_0000_0000_0000,
            holes <= HOLES_CAP,
            holes_area_of(polygon@, k as int) >= 0,
            holes == (if holes_area_of(polygon@, k as int) >= HOLES_CAP {
                HOLES_CAP as int
            } else {
                holes_area_of(polygon@, k as int)
            }),
        decreases polygon@.len() - k,
    {
        let a = ring_area(polygon[k].as_slice());
        if holes + a >= HOLES_CAP {
            holes = HOLES_CAP;
        } else {
            holes = holes + a;
        }
        k = k + 1;
    }
    let d: i128 = outer as i128 - holes as i128;
    let h: i128 = if d >= 0 {
        d / 2
    } else {
        -((-d) / 2)
    };
    if h > i32::MAX as i128 {
        i32::MAX
    } else if h < i32::MIN as i128 {
        i32::MIN
    } else {
        h as i32
    }
}

/// Area of a multipolygon in chunks: the sum of its polygons' areas, saturated to `i32`.
pub fn multipolygon_area(multipolygon: &[Vec<Vec<Point>>]) -> (r: i32)
    ensures
        r == multipolygon_area_of(multipolygon@),
        multipolygon@.len() == 0 ==> r == 0,
{
    let mut sum: i128 = 0;
    let mut k: usize = 0;
    while k < multipolygon.len()
        invariant
            k <= multipolygon@.len(),
            sum == polygons_sum(multipolygon@, k as int),
            -(k as int) * 0x8000_0000 <= sum <= (k as int) * 0x8000_0000,
        decreases multipolygon@.len() - k,
    {
        let a = polygon_area(&multipolygon[k]);
        sum = sum + a as i128;
        k = k + 1;
    }
    if sum > i32::MAX as i128 {
        i32::MAX
    } else if sum < i32::MIN as i128 {
        i32::MIN
    } else {
        sum as i32
    }
}

/// `ring` rotated to start at its point `k`.
pub open spec fn rotate(ring: Seq<Point>, k: int) -> Seq<Point> {
    ring.subrange(k, ring.len() as int) + ring.subrange(0, k)
}

proof fn lemma_cyclic_next(n: int, i: int)
    requires
        0 <= i < n,
    ensures
        (i + 1) % n == if i + 1 == n {
            0
        } else {
            i + 1
        },
{
    if i + 1 == n {
        lemma_mod_self_0(n);
    } else {
        lemma_small_mod((i + 1) as nat, n as nat);
    }
}

proof fn lemma_rotate_one_prefix(ring: Seq<Point>, m: int)
    requires
        ring.len() >= 1,
        0 <= m <= ring.len() - 1,
    ensures
        cross_sum(rotate(ring, 1), m) == cross_sum(ring, m + 1) - cross_at(ring, 0),
    decreases m,
{
    let n = ring.len() as int;
    let r = rotate(ring, 1);
    if m > 0 {
        lemma_rotate_one_prefix(ring, m - 1);
        let i = m - 1;
        lemma_cyclic_next(n, i);
        lemma_cyclic_next(n, i + 1);
        assert(r[i] == ring[i + 1]);
        if i + 2 < n {
            assert(r[i + 1] == ring[i + 2]);
        } else {
            assert(r[i + 1] == ring[0]);
        }
        assert(cross_at(r, i) == cross_at(ring, i + 1));
    } else {
        assert(cross_sum(ring, 0) == 0);
    }
}

proof fn lemma_rotate_one(ring: Seq<Point>)
    requires
        ring.len() >= 1,
    ensures
        cross_sum(rotate(ring, 1), ring.len() as int) == cross_sum(ring, ring.len() as int),
{
    let n = ring.len() as int;
    let r = rotate(ring, 1);
    lemma_rotate_one_prefix(ring, n - 1);
    lemma_cyclic_next(n, n - 1);
    lemma_cyclic_next(n, 0);
    assert(r[n - 1] == ring[0]);
    if n > 1 {
        assert(r[0] == ring[1]);
    }
    assert(cross_at(r, n - 1) == cross_at(ring, 0));
}

/// A ring's area does not depend on which of its points comes first.
pub proof fn lemma_ring_area_rotation(ring: Seq<Point>, k: int)
    requires
        0 <= k <= ring.len(),
    ensures
        ring_area_of(rotate(ring, k)) == ring_area_of(ring),
    decreases k,
{
    let n = ring.len() as int;
    if k == 0 {
        assert(rotate(ring, 0) =~= ring);
    } else {
        lemma_ring_area_rotation(ring, k - 1);
        let prev = rotate(ring, k - 1);
        assert(rotate(prev, 1) =~= rotate(ring, k));
        lemma_rotate_one(prev);
    }
}

proof fn lemma_reverse_prefix(ring: Seq<Point>, m: int)
    requires
        ring.len() >= 1,
        0 <= m <= ring.len() - 1,
    ensures
        cross_sum(ring.reverse(), m) == cross_sum(ring, ring.len() - 1 - m) - cross_sum(
            ring,
            ring.len() - 1,
        ),
    decreases m,
{
    let n = ring.len() as int;
    let r = ring.reverse();
    if m > 0 {
        lemma_reverse_prefix(ring, m - 1);
        let i = m - 1;
        lemma_cyclic_next(n, i);
        lemma_cyclic_next(n, n - 2 - i);
        assert(r[i] == ring[n - 1 - i]);
        assert(r[i + 1] == ring[n - 2 - i]);
        assert(cross_at(r, i) == -cross_at(ring, n - 2 - i)) by (nonlinear_arith)
            requires
                cross_at(r, i) == chunk_of(ring[n - 1 - i].x as int) * chunk_of(
                    ring[n - 2 - i].z as int,
                ) - chunk_of(ring[n - 2 - i].x as int) * chunk_of(ring[n - 1 - i].z as int),
                cross_at(ring, n - 2 - i) == chunk_of(ring[n - 2 - i].x as int) * chunk_of(
                    ring[n - 1 - i].z as int,
                ) - chunk_of(ring[n - 1 - i].x as int) * chunk_of(ring[n - 2 - i].z as int),
        ;
    }
}

/// A ring's area does not depend on the direction in which its points are listed.
pub proof fn lemma_ring_area_reversal(ring: Seq<Point>)
    ensures
        ring_area_of(ring.reverse()) == ring_area_of(ring),
{
    let n = ring.len() as int;
    if n >= 3 {
        let r = ring.reverse();
        lemma_reverse_prefix(ring, n - 1);
        lemma_cyclic_next(n, n - 1);
        assert(r[n - 1] == ring[0]);
        assert(r[0] == ring[n - 1]);
        assert(cross_at(r, n - 1) == -cross_at(ring, n - 1)) by (nonlinear_arith)
            requires
                cross_at(r, n - 1) == chunk_of(ring[0].x as int) * chunk_of(ring[n - 1].z as int)
                    - chunk_of(ring[n - 1].x as int) * chunk_of(ring[0].z as int),
                cross_at(ring, n - 1) == chunk_of(ring[n - 1].x as int) * chunk_of(
                    ring[0].z as int,
                ) - chunk_of(ring[0].x as int) * chunk_of(ring[n - 1].z as int),
        ;
    }
}

/// A ring of fewer than three points has no area.
pub proof fn lemma_small_ring_has_no_area(ring: Seq<Point>)
    requires
        ring.len() < 3,
    ensures
        ring_area_of(ring) == 0,
{
}

/// A polygon made of an outer ring and one hole has the outer ring's area less the
/// hole's, truncated toward zero, and never more than the outer ring's area.
pub proof fn lemma_polygon_with_one_hole(outer: Vec<Point>, hole: Vec<Point>)
    ensures
        polygon_half_area_of(seq![outer, hole]) == ring_area_of(outer@) - ring_area_of(hole@),
        polygon_area_of(seq![outer, hole]) == clamp_i32(
            half_toward_zero(ring_area_of(outer@) - ring_area_of(hole@)),
        ),
        2 * polygon_area_of(seq![outer, hole]) <= ring_area_of(outer@),
{
    let p = seq![outer, hole];
    assert(p[0] == outer);
    assert(p[1] == hole);
    assert(holes_area_of(p, 1) == 0);
    assert(holes_area_of(p, 2) == ring_area_of(hole@));
}

proof fn lemma_polygons_sum_prefix(a: Seq<Vec<Vec<Point>>>, b: Seq<Vec<Vec<Point>>>, k: int)
    requires
        0 <= k <= a.len(),
    ensures
        polygons_sum(a + b, k) == polygons_sum(a, k),
    decreases k,
{
    if k > 0 {
        lemma_polygons_sum_prefix(a, b, k - 1);
        assert((a + b)[k - 1] == a[k - 1]);
    }
}

proof fn lemma_polygons_sum_concat(a: Seq<Vec<Vec<Point>>>, b: Seq<Vec<Vec<Point>>>, k: int)
    requires
        0 <= k <= b.len(),
    ensures
        polygons_sum(a + b, a.len() + k) == polygons_sum(a, a.len() as int) + polygons_sum(b, k),
    decreases k,
{
    if k == 0 {
        lemma_polygons_sum_prefix(a, b, a.len() as int);
    } else {
        lemma_polygons_sum_concat(a, b, k - 1);
        assert((a + b)[a.len() + k - 1] == b[k - 1]);
    }
}

/// The area of a multipolygon is the sum of its polygons' areas (saturated to `i32`):
/// joining two multipolygons adds their sums, and an empty one has no area.
pub proof fn lemma_multipolygon_area_is_sum(a: Seq<Vec<Vec<Point>>>, b: Seq<Vec<Vec<Point>>>)
    ensures
        multipolygon_area_of(a + b) == clamp_i32(
            polygons_sum(a, a.len() as int) + polygons_sum(b, b.len() as int),
        ),
        multipolygon_area_of(Seq::<Vec<Vec<Point>>>::empty()) == 0,
{
    lemma_polygons_sum_concat(a, b, b.len() as int);
}

} // verus!
