//! Integer plane geometry: vectors, fixed-point normalisation and
//! circle overlap.
use vstd::prelude::*;

verus! {

/// Fixed-point scale used when normalising a direction vector.
pub const UNIT: i64 = 256;

/// Largest magnitude of a vector component that can be normalised.
pub const COMPONENT_LIMIT: i64 = 4194304;

/// Largest numerator of a length that a direction can be scaled to.
pub const LENGTH_LIMIT: i64 = 16777216;

/// Largest denominator of a length that a direction can be scaled to.
pub const DIVISOR_LIMIT: i64 = 1048576;

/// A point or a vector of the plane.
#[derive(Clone, Copy, Debug, PartialEq, Eq, Structural)]
pub struct Vec2 {
    pub x: i64,
    pub y: i64,
}

impl Vec2 {
    pub open spec fn is_zero(self) -> bool {
        self.x == 0 && self.y == 0
    }

    pub open spec fn within(self, limit: int) -> bool {
        -limit <= self.x <= limit && -limit <= self.y <= limit
    }
}

/// Square of the Euclidean length of `(x, y)`.
pub open spec fn norm_sq(x: int, y: int) -> int {
    x * x + y * y
}

/// `r` is the integer square root of `n`, rounded down.
pub open spec fn is_floor_sqrt(n: int, r: int) -> bool {
    0 <= r && r * r <= n && n < (r + 1) * (r + 1)
}

/// Integer square root of `n`, rounded down.
pub open spec fn floor_sqrt(n: nat) -> nat
    decreases n,
{
    if n == 0 {
        0
    } else {
        let r = floor_sqrt((n - 1) as nat);
        if (r + 1) * (r + 1) <= n {
            r + 1
        } else {
            r
        }
    }
}

/// Division rounding toward zero, so that opposite vectors scale to
/// opposite results.
pub open spec fn trunc_div(a: int, b: int) -> int {
    if a >= 0 {
        a / b
    } else {
        -((-a) / b)
    }
}

/// Length of `(x, y)` in fixed point: `UNIT` times the Euclidean length,
/// rounded down.
pub open spec fn scaled_norm(x: int, y: int) -> int {
    floor_sqrt((norm_sq(x, y) * UNIT * UNIT) as nat) as int
}

/// One component of the vector of length `num / den` pointing along
/// `(x, y)`; `c` is the component (`x` or `y`) being scaled.
pub open spec fn along_component(c: int, x: int, y: int, num: int, den: int) -> int {
    trunc_div(c * UNIT * num, scaled_norm(x, y) * den)
}

/// The vector of length `num / den` pointing along `d`, the zero vector for
/// a zero `d`.
pub open spec fn along(d: Vec2, num: int, den: int) -> (int, int) {
    if d.is_zero() {
        (0, 0)
    } else {
        (
            along_component(d.x as int, d.x as int, d.y as int, num, den),
            along_component(d.y as int, d.x as int, d.y as int, num, den),
        )
    }
}

/// Two circles overlap: the distance between their centres is strictly less
/// than the sum of their radii.
pub open spec fn circles_overlap(a: Vec2, ra: int, b: Vec2, rb: int) -> bool {
    norm_sq(a.x - b.x, a.y - b.y) < (ra + rb) * (ra + rb)
}

proof fn lemma_square_monotone(a: int, b: int)
    requires
        0 <= a <= b,
    ensures
        a * a <= b * b,
{
    assert(a * a <= b * b) by (nonlinear_arith)
        requires
            0 <= a <= b,
    ;
}

/// The recursive definition meets the defining property of the square root.
pub proof fn lemma_floor_sqrt(n: nat)
    ensures
        is_floor_sqrt(n as int, floor_sqrt(n) as int),
    decreases n,
{
    if n > 0 {
        lemma_floor_sqrt((n - 1) as nat);
        let r = floor_sqrt((n - 1) as nat) as int;
        assert((r + 1) * (r + 1) < (r + 2) * (r + 2)) by (nonlinear_arith)
            requires
                0 <= r,
        ;
    }
}

/// The integer square root rounded down is unique.
pub proof fn lemma_floor_sqrt_unique(n: nat, r: int)
    requires
        is_floor_sqrt(n as int, r),
    ensures
        r == floor_sqrt(n),
{
    lemma_floor_sqrt(n);
    let s = floor_sqrt(n) as int;
    if r < s {
        lemma_square_monotone(r + 1, s);
    } else if s < r {
        lemma_square_monotone(s + 1, r);
    }
}

/// Integer square root rounded down, by bisection.
pub fn isqrt(n: u64) -> (r: u64)
    requires
        n <= 0x4000_0000_0000_0000,
    ensures
        r == floor_sqrt(n as nat),
        is_floor_sqrt(n as int, r as int),
{
    let mut lo: u64 = 0;
    let mut hi: u64 = 0x8000_0001;
    assert(0x8000_0001 * 0x8000_0001 > 0x4000_0000_0000_0000) by (nonlinear_arith);
    while hi - lo > 1
        invariant
            lo < hi <= 0x8000_0001,
            lo * lo <= n,
            n < hi * hi,
        decreases hi - lo,
    {
        let mid: u64 = lo + (hi - lo) / 2;
        assert(mid * mid <= 0x8000_0001 * 0x8000_0001) by (nonlinear_arith)
            requires
                mid <= 0x8000_0001,
        ;
        if mid * mid <= n {
            lo = mid;
        } else {
            hi = mid;
        }
    }
    proof {
        lemma_floor_sqrt_unique(n as nat, lo as int);
    }
    lo
}

/// Square of the length of `(x, y)`, for components within
/// `COMPONENT_LIMIT`.
pub fn norm_squared(x: i64, y: i64) -> (r: u64)
    requires
        -COMPONENT_LIMIT * 4 <= x <= COMPONENT_LIMIT * 4,
        -COMPONENT_LIMIT * 4 <= y <= COMPONENT_LIMIT * 4,
    ensures
        r == norm_sq(x as int, y as int),
{
    assert(x * x <= 0x1_0000_0000_0000 && y * y <= 0x1_0000_0000_0000) by (nonlinear_arith)
        requires
            -0x100_0000 <= x <= 0x100_0000,
            -0x100_0000 <= y <= 0x100_0000,
    ;
    assert(0 <= x * x && 0 <= y * y) by (nonlinear_arith);
    let xx: i64 = x * x;
    let yy: i64 = y * y;
    (xx + yy) as u64
}

/// A component is at most the length of its vector: `|c| * UNIT` never
/// exceeds the fixed-point norm.
proof fn lemma_component_below_norm(c: int, x: int, y: int)
    requires
        c == x || c == y,
    ensures
        (if c >= 0 { c } else { -c }) * UNIT <= scaled_norm(x, y),
{
    let n = (norm_sq(x, y) * UNIT * UNIT) as int;
    assert(n >= 0) by (nonlinear_arith)
        requires
            n == (x * x + y * y) * 256 * 256,
    ;
    lemma_floor_sqrt(n as nat);
    let s = scaled_norm(x, y);
    let m = (if c >= 0 { c } else { -c }) * UNIT;
    assert(m * m <= n) by (nonlinear_arith)
        requires
            c == x || c == y,
            m == (if c >= 0 { c } else { -c }) * 256,
            n == (x * x + y * y) * 256 * 256,
    ;
    if m > s {
        lemma_square_monotone(s + 1, m);
    }
}

proof fn lemma_quotient_bound(a: int, k: int, num: int, den: int)
    requires
        0 <= a <= k * num,
        0 < k,
        0 < den,
    ensures
        (a / (k * den)) * den <= num,
        a / (k * den) >= 0,
{
    let q = a / (k * den);
    assert(0 < k * den) by (nonlinear_arith)
        requires
            0 < k,
            0 < den,
    ;
    vstd::arithmetic::div_mod::lemma_fundamental_div_mod(a, k * den);
    assert(0 <= q) by (nonlinear_arith)
        requires
            q == a / (k * den),
            0 <= a,
            0 < k * den,
    ;
    assert(q * den <= num) by (nonlinear_arith)
        requires
            a == (k * den) * q + a % (k * den),
            0 <= a % (k * den),
            a <= k * num,
            0 < k,
            0 <= q,
    ;
}

/// One component of `(x, y)` scaled to length `num / den`, given the
/// fixed-point norm `norm` of `(x, y)`.
fn scale_component(c: i64, x: Ghost<int>, y: Ghost<int>, norm: i64, num: i64, den: i64) -> (r: i64)
    requires
        c == x@ || c == y@,
        -COMPONENT_LIMIT <= c <= COMPONENT_LIMIT,
        norm == scaled_norm(x@, y@),
        0 < norm <= 0x8000_0000,
        0 <= num <= LENGTH_LIMIT,
        1 <= den <= DIVISOR_LIMIT,
    ensures
        r == along_component(c as int, x@, y@, num as int, den as int),
        (if r >= 0 { r as int } else { -r }) * den <= num,
{
    proof {
        lemma_component_below_norm(c as int, x@, y@);
    }
    let mag: i64 = if c >= 0 { c } else { -c };
    assert(mag * UNIT * num <= norm * num) by (nonlinear_arith)
        requires
            mag * 256 <= norm,
            0 <= num,
    ;
    assert(norm * num <= 0x8000_0000 * 0x100_0000) by (nonlinear_arith)
        requires
            0 < norm <= 0x8000_0000,
            0 <= num <= 0x100_0000,
    ;
    assert(norm * den <= 0x8000_0000 * 0x10_0000 && 0 < norm * den) by (nonlinear_arith)
        requires
            0 < norm <= 0x8000_0000,
            1 <= den <= 0x10_0000,
    ;
    assert(0 <= mag * UNIT * num) by (nonlinear_arith)
        requires
            0 <= mag,
            0 <= num,
    ;
    let a: i64 = mag * UNIT * num;
    let b: i64 = norm * den;
    let q: i64 = a / b;
    proof {
        lemma_quotient_bound(a as int, norm as int, num as int, den as int);
        if c < 0 {
            assert(c * UNIT * num == -(mag * UNIT * num)) by (nonlinear_arith)
                requires
                    mag == -c,
            ;
        } else {
            assert(c * UNIT * num == mag * UNIT * num);
        }
    }
    if c >= 0 {
        q
    } else {
        -q
    }
}

/// The vector of length `num / den` along `d`, in fixed point; the zero
/// vector stays zero.
pub fn scale_along(d: Vec2, num: i64, den: i64) -> (r: Vec2)
    requires
        d.within(COMPONENT_LIMIT as int),
        0 <= num <= LENGTH_LIMIT,
        1 <= den <= DIVISOR_LIMIT,
    ensures
        (r.x as int, r.y as int) == along(d, num as int, den as int),
        (if r.x >= 0 { r.x as int } else { -r.x }) * den <= num,
        (if r.y >= 0 { r.y as int } else { -r.y }) * den <= num,
{
    if d.x == 0 && d.y == 0 {
        assert(0 * den == 0);
        return Vec2 { x: 0, y: 0 };
    }
    let sq: u64 = norm_squared(d.x, d.y);
    assert(sq * 65536 <= 0x4000_0000_0000_0000) by (nonlinear_arith)
        requires
            sq == d.x * d.x + d.y * d.y,
            -0x40_0000 <= d.x <= 0x40_0000,
            -0x40_0000 <= d.y <= 0x40_0000,
    ;
    let root: u64 = isqrt(sq * 65536);
    proof {
        assert(sq >= 1) by (nonlinear_arith)
            requires
                sq == d.x * d.x + d.y * d.y,
                !(d.x == 0 && d.y == 0),
        ;
        if root < 256 {
            lemma_square_monotone(root + 1, 256);
        }
        if root > 0x8000_0000 {
            lemma_square_monotone(0x8000_0001, root as int);
        }
        assert(sq * 65536 == norm_sq(d.x as int, d.y as int) * UNIT * UNIT);
    }
    let norm: i64 = root as i64;
    let x: i64 = scale_component(d.x, Ghost(d.x as int), Ghost(d.y as int), norm, num, den);
    let y: i64 = scale_component(d.y, Ghost(d.x as int), Ghost(d.y as int), norm, num, den);
    Vec2 { x, y }
}

} // verus!
