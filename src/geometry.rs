//! Fixed-point circle geometry: the radius of each level and the number of
//! vertices a circle of a given radius is drawn with.
use vstd::prelude::*;

verus! {

/// Radii are held in fixed point, in thousandths of a world unit.
pub const RADIUS_SCALE: u64 = 1000;

/// Numerator of the rational 355/113 that stands for pi (off by less than 3e-7).
pub const PI_NUM: u64 = 355;

/// Denominator of the rational that stands for pi.
pub const PI_DEN: u64 = 113;

/// Squared radius scale times the denominator of pi: the factor that turns an
/// area into `PI_NUM` times the squared fixed-point radius.
pub const AREA_FACTOR: u64 = RADIUS_SCALE * RADIUS_SCALE * PI_DEN;

/// `r` is the integer square root of `n`, rounded down.
pub open spec fn is_floor_sqrt(n: int, r: int) -> bool {
    0 <= r && r * r <= n && n < (r + 1) * (r + 1)
}

/// The integer square root of `n`, rounded down.
pub open spec fn floor_sqrt(n: nat) -> nat {
    choose|r: nat| is_floor_sqrt(n as int, r as int)
}

/// The radius, in thousandths, of a circle whose area is `area` square units:
/// `floor(RADIUS_SCALE * sqrt(area / pi))`.
pub open spec fn radius_of_area(area: nat) -> nat {
    floor_sqrt((area * AREA_FACTOR / PI_NUM as int) as nat)
}

proof fn lemma_square_le(a: int, b: int)
    requires
        0 <= a <= b,
    ensures
        a * a <= b * b,
{
    assert(a * a <= b * b) by (nonlinear_arith)
        requires
            0 <= a <= b,
    ;
}

proof fn lemma_floor_sqrt_unique(n: int, r1: int, r2: int)
    requires
        is_floor_sqrt(n, r1),
        is_floor_sqrt(n, r2),
    ensures
        r1 == r2,
{
    if r1 < r2 {
        lemma_square_le(r1 + 1, r2);
    } else if r2 < r1 {
        lemma_square_le(r2 + 1, r1);
    }
}

proof fn lemma_floor_sqrt_exists(n: nat)
    ensures
        exists|r: nat| is_floor_sqrt(n as int, r as int),
    decreases n,
{
    if n == 0 {
        assert(is_floor_sqrt(0, 0));
    } else {
        let prev = (n - 1) as nat;
        lemma_floor_sqrt_exists(prev);
        let r: nat = choose|r: nat| is_floor_sqrt(prev as int, r as int);
        if (r + 1) * (r + 1) <= n {
            assert((r + 1) * (r + 1) == r * r + 2 * r + 1) by (nonlinear_arith);
            assert((r + 2) * (r + 2) == (r + 1) * (r + 1) + 2 * r + 3) by (nonlinear_arith);
            assert(is_floor_sqrt(n as int, r + 1 as int));
        } else {
            assert(is_floor_sqrt(n as int, r as int));
        }
    }
}

/// `floor_sqrt(n)` meets its defining bounds, and is the only value that does.
pub proof fn lemma_floor_sqrt(n: nat, r: int)
    ensures
        is_floor_sqrt(n as int, floor_sqrt(n) as int),
        is_floor_sqrt(n as int, r) ==> r == floor_sqrt(n),
{
    lemma_floor_sqrt_exists(n);
    if is_floor_sqrt(n as int, r) {
        lemma_floor_sqrt_unique(n as int, r, floor_sqrt(n) as int);
    }
}

/// The rounded-down square root never decreases as its argument grows.
pub proof fn lemma_floor_sqrt_monotonic(m: nat, n: nat)
    requires
        m <= n,
    ensures
        floor_sqrt(m) <= floor_sqrt(n),
{
    lemma_floor_sqrt(m, 0);
    lemma_floor_sqrt(n, 0);
    if floor_sqrt(m) > floor_sqrt(n) {
        lemma_square_le(floor_sqrt(n) + 1 as int, floor_sqrt(m) as int);
    }
}

/// A larger area never gives a smaller radius.
pub proof fn lemma_radius_of_area_monotonic(a: nat, b: nat)
    requires
        a <= b,
    ensures
        radius_of_area(a) <= radius_of_area(b),
{
    let k: int = AREA_FACTOR as int;
    assert(a * k <= b * k) by (nonlinear_arith)
        requires
            a <= b,
            k >= 0,
    ;
    vstd::arithmetic::div_mod::lemma_div_is_ordered(a * k, b * k, PI_NUM as int);
    lemma_floor_sqrt_monotonic((a * k / PI_NUM as int) as nat, (b * k / PI_NUM as int) as nat);
}

/// The radius of any area that a `u32` holds fits in a `u32`.
pub proof fn lemma_radius_of_area_fits(area: nat)
    requires
        area <= 0xffff_ffff,
    ensures
        radius_of_area(area) <= 0xffff_ffff,
{
    let k: int = AREA_FACTOR as int;
    assert(area * k <= 0xffff_ffff * 113_000_000) by (nonlinear_arith)
        requires
            area <= 0xffff_ffff,
            k == 113_000_000,
    ;
    let n = (area * k / PI_NUM as int) as nat;
    lemma_floor_sqrt(n, 0);
    if floor_sqrt(n) > 0xffff_ffff {
        lemma_square_le(0x1_0000_0000, floor_sqrt(n) as int);
    }
}

/// The integer square root of `n`, rounded down, found by bisection.
pub fn floor_sqrt_u64(n: u64) -> (r: u64)
    ensures
        r == floor_sqrt(n as nat),
{
    let mut lo: u128 = 0;
    let mut hi: u128 = n as u128 + 1;
    assert(n < hi * hi) by (nonlinear_arith)
        requires
            hi == n + 1,
    ;
    while lo + 1 < hi
        invariant
            lo < hi <= n as int + 1,
            lo * lo <= n,
            n < hi * hi,
        decreases hi - lo,
    {
        let mid: u128 = lo + (hi - lo) / 2;
        assert(mid * mid < 0x1_0000_0000_0000_0000_0000_0000_0000_0000) by (nonlinear_arith)
            requires
                mid < 0x1_0000_0000_0000_0000,
        ;
        if mid * mid <= n as u128 {
            lo = mid;
        } else {
            hi = mid;
        }
    }
    proof {
        lemma_floor_sqrt(n as nat, lo as int);
    }
    lo as u64
}

/// The radius, in thousandths, of the circle whose area is `area` square units.
pub fn radius_for_area(area: u32) -> (r: u32)
    ensures
        r == radius_of_area(area as nat),
{
    assert(area as u64 * AREA_FACTOR <= 0xffff_ffff * 113_000_000) by (nonlinear_arith)
        requires
            area <= 0xffff_ffff,
            AREA_FACTOR == 113_000_000,
    ;
    let scaled: u64 = area as u64 * AREA_FACTOR / PI_NUM;
    let r = floor_sqrt_u64(scaled);
    proof {
        lemma_floor_sqrt(scaled as nat, 0);
        if r >= 0x1_0000_0000 {
            lemma_square_le(0x1_0000_0000, r as int);
        }
    }
    r as u32
}

/// Base detail `k` of the vertex-count rule `max(MIN_VERTICES, round(k * r^0.4))`.
pub const BASE_DETAIL: u64 = 32;

/// Fewest vertices a circle mesh is drawn with, whatever its radius (a radius of
/// zero included).
pub const MIN_VERTICES: u64 = 8;

/// `32 * BASE_DETAIL^5`: with `r = q / RADIUS_SCALE`, `round(k * r^0.4) = n` holds
/// exactly when `(2n - 1)^5 * RADIUS_SCALE^2 <= DETAIL_FACTOR * q^2 < (2n + 1)^5 * RADIUS_SCALE^2`.
pub const DETAIL_FACTOR: u64 = 32 * BASE_DETAIL * BASE_DETAIL * BASE_DETAIL * BASE_DETAIL * BASE_DETAIL;

/// The square of the radius scale.
pub const SCALE_SQUARED: u64 = RADIUS_SCALE * RADIUS_SCALE;

/// `x` to the fifth power.
pub open spec fn pow5(x: int) -> int {
    x * x * x * x * x
}

/// The right-hand side of the rounding bounds for a radius of `q` thousandths.
pub open spec fn detail_target(q: nat) -> int {
    DETAIL_FACTOR * (q * q)
}

/// `n` is `k * r^0.4` rounded to the nearest integer (halves round up), where
/// `detail_target(q) == t` for the radius `r = q / RADIUS_SCALE`.
pub open spec fn is_rounded_detail(t: int, n: int) -> bool {
    0 <= n && pow5(2 * n - 1) * SCALE_SQUARED <= t && t < pow5(2 * n + 1) * SCALE_SQUARED
}

/// `round(BASE_DETAIL * (q / RADIUS_SCALE)^0.4)`.
pub open spec fn rounded_detail(q: nat) -> nat {
    choose|n: nat| is_rounded_detail(detail_target(q), n as int)
}

/// The vertex count of a circle of radius `q` thousandths:
/// `max(MIN_VERTICES, round(BASE_DETAIL * (q / RADIUS_SCALE)^0.4))`.
pub open spec fn vertex_count(q: nat) -> nat {
    if rounded_detail(q) < MIN_VERTICES {
        MIN_VERTICES as nat
    } else {
        rounded_detail(q)
    }
}

proof fn lemma_pow5_monotonic(a: int, b: int)
    requires
        0 <= a <= b,
    ensures
        pow5(a) <= pow5(b),
        a <= pow5(b) || b == 0,
{
    assert(a * a <= b * b) by (nonlinear_arith)
        requires
            0 <= a <= b,
    ;
    assert(a * a * a <= b * b * b) by (nonlinear_arith)
        requires
            0 <= a <= b,
            a * a <= b * b,
    ;
    assert(a * a * a * a <= b * b * b * b) by (nonlinear_arith)
        requires
            0 <= a <= b,
            a * a * a <= b * b * b,
    ;
    assert(a * a * a * a * a <= b * b * b * b * b) by (nonlinear_arith)
        requires
            0 <= a <= b,
            a * a * a * a <= b * b * b * b,
    ;
    assert(b >= 1 ==> b <= b * b * b * b * b) by (nonlinear_arith);
}

proof fn lemma_rounded_detail_search(t: int, n: int)
    requires
        t >= 0,
        n >= 0,
        n <= t + 1,
        pow5(2 * n - 1) * SCALE_SQUARED <= t,
    ensures
        exists|m: nat| is_rounded_detail(t, m as int),
    decreases t + 1 - n,
{
    if t < pow5(2 * n + 1) * SCALE_SQUARED {
        assert(is_rounded_detail(t, n));
    } else {
        lemma_pow5_monotonic(2 * n + 1, 2 * n + 1);
        assert(pow5(2 * n + 1) <= pow5(2 * n + 1) * SCALE_SQUARED) by (nonlinear_arith)
            requires
                pow5(2 * n + 1) >= 0,
        ;
        lemma_rounded_detail_search(t, n + 1);
    }
}

proof fn lemma_rounded_detail_unique(t: int, n1: int, n2: int)
    requires
        is_rounded_detail(t, n1),
        is_rounded_detail(t, n2),
    ensures
        n1 == n2,
{
    if n1 < n2 {
        lemma_pow5_monotonic(2 * n1 + 1, 2 * n2 - 1);
    } else if n2 < n1 {
        lemma_pow5_monotonic(2 * n2 + 1, 2 * n1 - 1);
    }
}

/// `rounded_detail(q)` meets its defining bounds, and is the only value that does.
pub proof fn lemma_rounded_detail(q: nat, n: int)
    ensures
        is_rounded_detail(detail_target(q), rounded_detail(q) as int),
        is_rounded_detail(detail_target(q), n) ==> n == rounded_detail(q),
{
    assert(q * q >= 0) by (nonlinear_arith);
    assert(pow5(-1) == -1);
    lemma_rounded_detail_search(detail_target(q), 0);
    if is_rounded_detail(detail_target(q), n) {
        lemma_rounded_detail_unique(detail_target(q), n, rounded_detail(q) as int);
    }
}

/// A larger radius never gets fewer vertices, and every circle, the one of
/// radius zero included, gets at least `MIN_VERTICES`.
pub proof fn lemma_vertex_count_monotonic(q1: nat, q2: nat)
    requires
        q1 <= q2,
    ensures
        vertex_count(q1) <= vertex_count(q2),
        MIN_VERTICES <= vertex_count(q1),
{
    lemma_rounded_detail(q1, 0);
    lemma_rounded_detail(q2, 0);
    lemma_square_le(q1 as int, q2 as int);
    assert(DETAIL_FACTOR == 0x4000_0000);
    assert(SCALE_SQUARED == 1_000_000);
    let n1 = rounded_detail(q1) as int;
    let n2 = rounded_detail(q2) as int;
    if n1 > n2 {
        lemma_pow5_monotonic(2 * n2 + 1, 2 * n1 - 1);
    }
}

/// `pow5(2 * n + 1) * SCALE_SQUARED`, for every `n` that the vertex search reaches.
fn odd_pow5_scaled(n: u64) -> (r: u128)
    requires
        n <= 14500,
    ensures
        r == pow5(2 * n as int + 1) * SCALE_SQUARED,
{
    let m: u128 = 2 * n as u128 + 1;
    assert(m * m <= 29001 * 29001) by (nonlinear_arith)
        requires
            0 <= m <= 29001,
    ;
    assert(m * m * m <= 29001 * 29001 * 29001) by (nonlinear_arith)
        requires
            0 <= m <= 29001,
            m * m <= 29001 * 29001,
    ;
    assert(m * m * m * m <= 29001 * 29001 * 29001 * 29001) by (nonlinear_arith)
        requires
            0 <= m <= 29001,
            m * m * m <= 29001 * 29001 * 29001,
    ;
    assert(m * m * m * m * m <= 29001 * 29001 * 29001 * 29001 * 29001) by (nonlinear_arith)
        requires
            0 <= m <= 29001,
            m * m * m * m <= 29001 * 29001 * 29001 * 29001,
    ;
    m * m * m * m * m * (SCALE_SQUARED as u128)
}

/// The vertex count of a circle whose radius is `radius` thousandths of a unit.
pub fn circle_vertices(radius: u32) -> (v: u64)
    ensures
        v == vertex_count(radius as nat),
{
    let q: u128 = radius as u128;
    assert(q * q <= 0xffff_ffff * 0xffff_ffff) by (nonlinear_arith)
        requires
            0 <= q <= 0xffff_ffff,
    ;
    assert(DETAIL_FACTOR == 0x4000_0000);
    assert(SCALE_SQUARED == 1_000_000);
    assert(pow5(-1) == -1);
    let target: u128 = (DETAIL_FACTOR as u128) * (q * q);
    assert(target < pow5(29001) * SCALE_SQUARED) by (nonlinear_arith)
        requires
            target == DETAIL_FACTOR * (q * q),
            q * q <= 0xffff_ffff * 0xffff_ffff,
    ;
    let mut n: u64 = 0;
    while odd_pow5_scaled(n) <= target
        invariant
            n <= 14500,
            target == detail_target(radius as nat),
            target < pow5(29001) * SCALE_SQUARED,
            pow5(2 * n as int - 1) * SCALE_SQUARED <= target,
        decreases 14500 - n,
    {
        proof {
            if n >= 14500 {
                lemma_pow5_monotonic(29001, 2 * n as int + 1);
            }
        }
        n = n + 1;
    }
    proof {
        lemma_rounded_detail(radius as nat, n as int);
    }
    if n < MIN_VERTICES {
        MIN_VERTICES
    } else {
        n
    }
}

} // verus!
