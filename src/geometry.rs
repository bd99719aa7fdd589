use vstd::prelude::*;

verus! {

/// Sub-pixels per pixel, and the length of a unit direction vector.
pub const UNIT: i64 = 1024;

/// Largest coordinate magnitude that a position or offset may have.
pub const MAX_COORD: i64 = 0x4000_0000;

/// A point or vector with integer components.
#[derive(Clone, Copy, Debug, PartialEq, Eq, Structural)]
pub struct Vector {
    pub x: i64,
    pub y: i64,
}

/// The side of a brick that a ball touches.
#[derive(Clone, Copy, Debug, PartialEq, Eq, Structural)]
pub enum Collision {
    Left,
    Right,
    Top,
    Bottom,
}

pub open spec fn abs(v: int) -> int {
    if v < 0 { -v } else { v }
}

pub open spec fn in_range(v: Vector, bound: int) -> bool {
    abs(v.x as int) <= bound && abs(v.y as int) <= bound
}

/// `r` is the integer square root of `n`.
pub open spec fn is_isqrt(n: int, r: int) -> bool {
    0 <= r && r * r <= n < (r + 1) * (r + 1)
}

pub open spec fn isqrt_spec(n: nat) -> int {
    choose|r: int| is_isqrt(n as int, r)
}

proof fn lemma_isqrt_unique(n: int, r1: int, r2: int)
    requires
        is_isqrt(n, r1),
        is_isqrt(n, r2),
    ensures
        r1 == r2,
{
    if r1 < r2 {
        assert((r1 + 1) * (r1 + 1) <= r2 * r2) by (nonlinear_arith)
            requires 0 <= r1 + 1 <= r2;
    } else if r2 < r1 {
        assert((r2 + 1) * (r2 + 1) <= r1 * r1) by (nonlinear_arith)
            requires 0 <= r2 + 1 <= r1;
    }
}

/// Integer square root, by bisection.
pub fn isqrt(n: u128) -> (r: u128)
    requires
        n < 0x4000_0000_0000_0000_0000_0000_0000_0000,
    ensures
        is_isqrt(n as int, r as int),
        r == isqrt_spec(n as nat),
{
    let mut lo: u128 = 0;
    let mut hi: u128 = 0x8000_0000_0000_0000;
    assert(hi * hi == 0x4000_0000_0000_0000_0000_0000_0000_0000) by (nonlinear_arith)
        requires hi == 0x8000_0000_0000_0000u128;
    while hi - lo > 1
        invariant
            lo < hi <= 0x8000_0000_0000_0000,
            (lo as int) * (lo as int) <= n,
            n < (hi as int) * (hi as int),
        decreases hi - lo,
    {
        let mid: u128 = lo + (hi - lo) / 2;
        assert((mid as int) * (mid as int) <= 0x8000_0000_0000_0000 * 0x8000_0000_0000_0000)
            by (nonlinear_arith)
            requires 0 <= mid <= 0x8000_0000_0000_0000;
        if mid * mid <= n {
            lo = mid;
        } else {
            hi = mid;
        }
    }
    proof {
        let r = choose|r: int| is_isqrt(n as int, r);
        assert(is_isqrt(n as int, lo as int));
        lemma_isqrt_unique(n as int, r, lo as int);
    }
    lo
}

/// `c` scaled by `UNIT / len`, truncated toward zero.
pub open spec fn scale_component(c: int, len: int) -> int {
    if c >= 0 {
        (UNIT * c) / len
    } else {
        -((UNIT * -c) / len)
    }
}

/// Length of `v` measured in `1 / UNIT` steps, rounded down.
pub open spec fn length_spec(v: Vector) -> int {
    isqrt_spec((UNIT * UNIT * (v.x * v.x + v.y * v.y)) as nat)
}

/// `v` rescaled to length `UNIT`, each component truncated toward zero.
pub open spec fn normalized(v: Vector) -> Vector {
    Vector {
        x: scale_component(UNIT * v.x, length_spec(v)) as i64,
        y: scale_component(UNIT * v.y, length_spec(v)) as i64,
    }
}

/// Squared length of a vector.
pub open spec fn norm2(d: Vector) -> int {
    d.x * d.x + d.y * d.y
}

/// Within rounding of unit length: the squared length lies strictly between
/// `UNIT² - 4·UNIT - 2` and `(UNIT + 1)²`.
pub open spec fn near_unit(d: Vector) -> bool {
    UNIT * UNIT - 4 * UNIT - 2 < norm2(d) < (UNIT + 1) * (UNIT + 1)
}

/// A direction of unit length, up to rounding, and no longer than a unit
/// per component; such a vector is never zero.
pub open spec fn is_unit_direction(d: Vector) -> bool {
    abs(d.x as int) <= UNIT && abs(d.y as int) <= UNIT && near_unit(d)
}

proof fn lemma_scale_bounds(a: int, other: int, len: int)
    requires
        0 <= a,
        0 <= other,
        1 <= len,
        a * a + other * other < (len + 1) * (len + 1),
    ensures
        0 <= (UNIT * a) / len <= UNIT,
{
    assert(a <= len) by (nonlinear_arith)
        requires 0 <= a, 0 <= other, 1 <= len, a * a + other * other < (len + 1) * (len + 1);
    assert(UNIT * a <= UNIT * len) by (nonlinear_arith)
        requires 0 <= a <= len;
    assert((UNIT * a) / len <= (UNIT * len) / len) by (nonlinear_arith)
        requires 0 <= UNIT * a <= UNIT * len, 1 <= len;
    assert((UNIT * len) / len == UNIT) by (nonlinear_arith)
        requires 1 <= len;
}

/// Rescales a non-zero vector to unit length (`UNIT`), up to rounding.
pub fn normalize(v: Vector) -> (r: Vector)
    requires
        v.x != 0 || v.y != 0,
        in_range(v, MAX_COORD as int),
    ensures
        r == normalized(v),
        is_unit_direction(r),
{
    let mx: u128 = if v.x < 0 { (-v.x) as u128 } else { v.x as u128 };
    let my: u128 = if v.y < 0 { (-v.y) as u128 } else { v.y as u128 };
    assert(mx == abs(v.x as int) && my == abs(v.y as int));
    assert(mx <= MAX_COORD && my <= MAX_COORD);
    let ax: u128 = mx * 1024;
    let ay: u128 = my * 1024;
    assert(ax == UNIT * abs(v.x as int) && ay == UNIT * abs(v.y as int));
    let ghost a = ax as int;
    let ghost b = ay as int;
    proof {
        lemma_square_le(a, 0x100_0000_0000);
        lemma_square_le(b, 0x100_0000_0000);
    }
    assert(a * a <= 0x1_0000_0000_0000_0000_0000 && b * b <= 0x1_0000_0000_0000_0000_0000);
    assert(ax * ax == a * a && ay * ay == b * b);
    let n: u128 = ax * ax + ay * ay;
    let len: u128 = isqrt(n);
    let ghost l = len as int;
    proof {
        let x = v.x as int;
        let y = v.y as int;
        lemma_square_of_product(-1, x);
        lemma_square_of_product(-1, y);
        lemma_square_of_product(UNIT as int, abs(x));
        lemma_square_of_product(UNIT as int, abs(y));
        assert(abs(x) * abs(x) == x * x && abs(y) * abs(y) == y * y);
        assert(n == UNIT * UNIT * (x * x + y * y)) by (nonlinear_arith)
            requires
                n == a * a + b * b,
                a == UNIT * abs(x),
                b == UNIT * abs(y),
                abs(x) * abs(x) == x * x,
                abs(y) * abs(y) == y * y;
        lemma_square_le(0, abs(x));
        lemma_square_le(0, abs(y));
        if x != 0 {
            lemma_square_le(1, abs(x));
        } else {
            lemma_square_le(1, abs(y));
        }
        lemma_mul_le_left(UNIT * UNIT, 1, x * x + y * y);
        lemma_rescaled_near_unit(a, b, l);
        assert(l >= 1);
    }
    let qx: u128 = (UNIT as u128 * ax) / len;
    let qy: u128 = (UNIT as u128 * ay) / len;
    let rx: i64 = if v.x < 0 { -(qx as i64) } else { qx as i64 };
    let ry: i64 = if v.y < 0 { -(qy as i64) } else { qy as i64 };
    let r = Vector { x: rx, y: ry };
    proof {
        lemma_square_of_product(-1, qx as int);
        lemma_square_of_product(-1, qy as int);
    }
    r
}

/// Contact classification of two axis-aligned squares given by centre and
/// half extent: `None` without overlap, otherwise the side of `b` that `a`
/// touches, on the axis with the smaller penetration.
pub open spec fn collide_spec(a: Vector, a_half: int, b: Vector, b_half: int) -> Option<Collision> {
    let dx = a.x - b.x;
    let dy = a.y - b.y;
    let reach = a_half + b_half;
    if abs(dx) < reach && abs(dy) < reach {
        if abs(dx) > abs(dy) {
            if dx < 0 { Some(Collision::Left) } else { Some(Collision::Right) }
        } else {
            if dy < 0 { Some(Collision::Bottom) } else { Some(Collision::Top) }
        }
    } else {
        None
    }
}

/// Overlap test and side classification of two axis-aligned squares.
pub fn collide(a: Vector, a_half: i64, b: Vector, b_half: i64) -> (r: Option<Collision>)
    requires
        in_range(a, MAX_COORD as int),
        in_range(b, MAX_COORD as int),
        0 <= a_half <= MAX_COORD,
        0 <= b_half <= MAX_COORD,
    ensures
        r == collide_spec(a, a_half as int, b, b_half as int),
{
    let dx: i64 = a.x - b.x;
    let dy: i64 = a.y - b.y;
    let adx: i64 = if dx < 0 { -dx } else { dx };
    let ady: i64 = if dy < 0 { -dy } else { dy };
    let reach: i64 = a_half + b_half;
    if adx < reach && ady < reach {
        if adx > ady {
            if dx < 0 { Some(Collision::Left) } else { Some(Collision::Right) }
        } else {
            if dy < 0 { Some(Collision::Bottom) } else { Some(Collision::Top) }
        }
    } else {
        None
    }
}

proof fn lemma_square_le(x: int, y: int)
    requires
        0 <= x <= y,
    ensures
        x * x <= y * y,
{
    assert(x * x <= y * y) by (nonlinear_arith)
        requires 0 <= x <= y;
}

proof fn lemma_square_lt(x: int, y: int)
    requires
        0 <= x < y,
    ensures
        x * x < y * y,
{
    assert(x * x < y * y) by (nonlinear_arith)
        requires 0 <= x < y;
}

proof fn lemma_mul_lt_cancel(p: int, q: int, k: int)
    requires
        0 < k,
        p * k < q * k,
    ensures
        p < q,
{
    assert(p < q) by (nonlinear_arith)
        requires 0 < k, p * k < q * k;
}

proof fn lemma_mul_le_left(k: int, x: int, y: int)
    requires
        0 <= k,
        x <= y,
    ensures
        k * x <= k * y,
{
    assert(k * x <= k * y) by (nonlinear_arith)
        requires 0 <= k, x <= y;
}

proof fn lemma_mul_lt_left(k: int, x: int, y: int)
    requires
        0 < k,
        x < y,
    ensures
        k * x < k * y,
{
    assert(k * x < k * y) by (nonlinear_arith)
        requires 0 < k, x < y;
}

proof fn lemma_square_of_product(x: int, y: int)
    ensures
        (x * y) * (x * y) == (x * x) * (y * y),
{
    assert((x * y) * (x * y) == (x * x) * (y * y)) by (nonlinear_arith);
}

proof fn lemma_distribute(x: int, y: int, k: int)
    ensures
        x * k + y * k == (x + y) * k,
{
    assert(x * k + y * k == (x + y) * k) by (nonlinear_arith);
}

/// Bounds on one rescaled component `q = (UNIT * a) / len`.
proof fn lemma_component_bounds(a: int, len: int)
    requires
        0 <= a,
        1 <= len,
    ensures
        ((UNIT * a) / len) * len <= UNIT * a,
        UNIT * a < ((UNIT * a) / len + 1) * len,
        0 <= (UNIT * a) / len,
{
    let q = (UNIT * a) / len;
    let m = (UNIT * a) % len;
    assert(UNIT * a == q * len + m && 0 <= m < len) by (nonlinear_arith)
        requires 1 <= len, q == (UNIT * a) / len, m == (UNIT * a) % len;
    assert((q + 1) * len == q * len + len) by (nonlinear_arith);
    assert(0 <= q) by (nonlinear_arith)
        requires 0 <= a, 1 <= len, q == (UNIT * a) / len;
}

/// Rescaling `(a, b)` by `UNIT / l`, where `l` is the integer square root
/// of `a² + b² ≥ UNIT²`, gives components of at most `UNIT` whose squares sum
/// to within rounding of `UNIT²`.
proof fn lemma_rescaled_near_unit(a: int, b: int, l: int)
    requires
        0 <= a,
        0 <= b,
        a * a + b * b >= UNIT * UNIT,
        is_isqrt(a * a + b * b, l),
    ensures
        0 <= (UNIT * a) / l <= UNIT,
        0 <= (UNIT * b) / l <= UNIT,
        UNIT * UNIT - 4 * UNIT - 2 < ((UNIT * a) / l) * ((UNIT * a) / l) + ((UNIT * b) / l) * ((
        UNIT * b) / l) < (UNIT + 1) * (UNIT + 1),
{
    let n = a * a + b * b;
    if l < UNIT {
        lemma_square_le(l + 1, UNIT as int);
        assert(false);
    }
    lemma_scale_bounds(a, b, l);
    lemma_scale_bounds(b, a, l);
    let qa = (UNIT * a) / l;
    let qb = (UNIT * b) / l;
    lemma_component_bounds(a, l);
    lemma_component_bounds(b, l);
    let ll = l * l;
    let nn = qa * qa + qb * qb;
    // Upper bound: nn·l² ≤ UNIT²·n < UNIT²·(l + 1)² ≤ (UNIT + 1)²·l².
    lemma_square_le(0, qa * l);
    lemma_square_le(qa * l, UNIT * a);
    lemma_square_le(qb * l, UNIT * b);
    lemma_square_of_product(qa, l);
    lemma_square_of_product(qb, l);
    lemma_square_of_product(UNIT as int, a);
    lemma_square_of_product(UNIT as int, b);
    lemma_distribute(qa * qa, qb * qb, ll);
    assert(UNIT * UNIT * (a * a) + UNIT * UNIT * (b * b) == UNIT * UNIT * n) by (nonlinear_arith)
        requires n == a * a + b * b;
    assert(nn * ll <= UNIT * UNIT * n);
    lemma_mul_lt_left(UNIT * UNIT, n, (l + 1) * (l + 1));
    lemma_square_le(UNIT * (l + 1), (UNIT + 1) * l);
    lemma_square_of_product(UNIT as int, l + 1);
    lemma_square_of_product(UNIT + 1, l);
    assert(nn * ll < (UNIT + 1) * (UNIT + 1) * ll);
    lemma_square_lt(0, l);
    lemma_mul_lt_cancel(nn, (UNIT + 1) * (UNIT + 1), ll);
    // Lower bound: UNIT²·l² ≤ UNIT²·n < ((qa + 1)² + (qb + 1)²)·l².
    lemma_square_lt(UNIT * a, (qa + 1) * l);
    lemma_square_lt(UNIT * b, (qb + 1) * l);
    lemma_square_of_product(qa + 1, l);
    lemma_square_of_product(qb + 1, l);
    let mm = (qa + 1) * (qa + 1) + (qb + 1) * (qb + 1);
    lemma_distribute((qa + 1) * (qa + 1), (qb + 1) * (qb + 1), ll);
    assert(UNIT * UNIT * n < mm * ll);
    lemma_mul_le_left(UNIT * UNIT, ll, n);
    assert((UNIT * UNIT) * ll < mm * ll);
    lemma_mul_lt_cancel(UNIT * UNIT, mm, ll);
    assert((qa + 1) * (qa + 1) == qa * qa + 2 * qa + 1) by (nonlinear_arith);
    assert((qb + 1) * (qb + 1) == qb * qb + 2 * qb + 1) by (nonlinear_arith);
}
} // verus!
