//! Fixed-point plane geometry: points and vectors with integer coordinates,
//! measured in thousandths of a distance unit.
use vstd::prelude::*;

verus! {

/// Steps per distance unit; a unit direction vector has length `SCALE`.
pub const SCALE: i64 = 1000;

/// Largest coordinate magnitude that the geometric operations accept.
pub const LIMIT: i64 = 2147483648;

/// A point or a vector of the plane, in steps of `1 / SCALE` units.
#[derive(Clone, Copy, Debug, PartialEq, Eq, Structural)]
pub struct Vec2 {
    pub x: i64,
    pub y: i64,
}

/// Division that rounds toward zero, as integer division does in Rust.
pub open spec fn tdiv(a: int, b: int) -> int {
    if a >= 0 {
        a / b
    } else {
        -((-a) / b)
    }
}

pub open spec fn norm_sq(v: Vec2) -> int {
    v.x * v.x + v.y * v.y
}

pub open spec fn dist_sq(a: Vec2, b: Vec2) -> int {
    (a.x - b.x) * (a.x - b.x) + (a.y - b.y) * (a.y - b.y)
}

/// `r` is the integer square root of `n`, rounded down.
pub open spec fn is_root(n: int, r: int) -> bool {
    0 <= r && r * r <= n && n < (r + 1) * (r + 1)
}

pub open spec fn root(n: int) -> int {
    choose|r: int| is_root(n, r)
}

pub open spec fn in_range(v: Vec2, lim: int) -> bool {
    -lim <= v.x <= lim && -lim <= v.y <= lim
}

pub open spec fn is_zero(v: Vec2) -> bool {
    v.x == 0 && v.y == 0
}

pub open spec fn plus(a: Vec2, b: Vec2) -> Vec2 {
    Vec2 { x: (a.x + b.x) as i64, y: (a.y + b.y) as i64 }
}

pub open spec fn minus(a: Vec2, b: Vec2) -> Vec2 {
    Vec2 { x: (a.x - b.x) as i64, y: (a.y - b.y) as i64 }
}

pub open spec fn negated(v: Vec2) -> Vec2 {
    Vec2 { x: -v.x as i64, y: -v.y as i64 }
}

/// `v * m / d`, each coordinate rounded toward zero.
pub open spec fn scaled(v: Vec2, m: int, d: int) -> Vec2 {
    Vec2 { x: tdiv(v.x * m, d) as i64, y: tdiv(v.y * m, d) as i64 }
}

/// The length of `v`, rounded down.
pub open spec fn length_of(v: Vec2) -> int {
    root(norm_sq(v))
}

/// The length of `v`, rounded up.
pub open spec fn ceil_length_of(v: Vec2) -> int {
    let r = root(norm_sq(v));
    if r * r == norm_sq(v) {
        r
    } else {
        r + 1
    }
}

/// The direction of `v`, scaled by `SCALE` over its rounded-down length and
/// rounded toward zero: of length `SCALE` up to that rounding (a short vector
/// may come out longer); none for the zero vector.
pub open spec fn unit_of(v: Vec2) -> Option<Vec2> {
    if is_zero(v) {
        None
    } else {
        Some(scaled(v, SCALE as int, length_of(v)))
    }
}

/// `v` itself where its length is at most `c`; else `v` scaled by `c` over its
/// rounded-up length, which is never longer than `c`.
pub open spec fn clamped(v: Vec2, c: int) -> Vec2 {
    if norm_sq(v) <= c * c {
        v
    } else {
        scaled(v, c, ceil_length_of(v))
    }
}

/// `|tdiv(x * c, l)| * l <= |x| * c`, squared.
proof fn lemma_tdiv_square(x: int, c: int, l: int)
    requires
        l > 0,
        c >= 0,
    ensures
        tdiv(x * c, l) * tdiv(x * c, l) * (l * l) <= x * x * (c * c),
{
    let a = tdiv(x * c, l);
    if x >= 0 {
        let p = x * c;
        assert(p >= 0) by (nonlinear_arith)
            requires
                x >= 0,
                c >= 0,
                p == x * c,
        ;
        assert(0 <= a && a * l <= p) by (nonlinear_arith)
            requires
                a == p / l,
                p >= 0,
                l > 0,
        ;
        assert(a * a * (l * l) <= p * p) by (nonlinear_arith)
            requires
                0 <= a * l <= p,
                a >= 0,
                l > 0,
        ;
        assert(p * p == x * x * (c * c)) by (nonlinear_arith)
            requires
                p == x * c,
        ;
    } else {
        let p = (-x) * c;
        assert(p >= 0 && x * c == -p) by (nonlinear_arith)
            requires
                x < 0,
                c >= 0,
                p == (-x) * c,
        ;
        let q = p / l;
        assert(a == -q);
        assert(0 <= q && q * l <= p) by (nonlinear_arith)
            requires
                q == p / l,
                p >= 0,
                l > 0,
        ;
        assert(q * q * (l * l) <= p * p) by (nonlinear_arith)
            requires
                0 <= q * l <= p,
                q >= 0,
                l > 0,
        ;
        assert(a * a == q * q) by (nonlinear_arith)
            requires
                a == -q,
        ;
        assert(p * p == x * x * (c * c)) by (nonlinear_arith)
            requires
                p == (-x) * c,
        ;
    }
}

/// Scaling by `c / l`, where `l` is at least the length, gives at most `c`.
pub proof fn lemma_rescaled_short(v: Vec2, c: int, l: int)
    requires
        l > 0,
        0 <= c <= LIMIT,
        norm_sq(v) <= l * l,
    ensures
        norm_sq(scaled(v, c, l)) <= c * c,
        -c <= tdiv(v.x * c, l) <= c,
        -c <= tdiv(v.y * c, l) <= c,
{
    let a = tdiv(v.x * c, l);
    let b = tdiv(v.y * c, l);
    lemma_tdiv_square(v.x as int, c, l);
    lemma_tdiv_square(v.y as int, c, l);
    assert((a * a + b * b) * (l * l) <= (v.x * v.x + v.y * v.y) * (c * c)) by (nonlinear_arith)
        requires
            a * a * (l * l) <= v.x * v.x * (c * c),
            b * b * (l * l) <= v.y * v.y * (c * c),
    ;
    assert((v.x * v.x + v.y * v.y) * (c * c) <= (l * l) * (c * c)) by (nonlinear_arith)
        requires
            v.x * v.x + v.y * v.y <= l * l,
            c >= 0,
    ;
    assert(a * a + b * b <= c * c) by (nonlinear_arith)
        requires
            (a * a + b * b) * (l * l) <= (l * l) * (c * c),
            l > 0,
    ;
    assert(a * a <= c * c && b * b <= c * c) by (nonlinear_arith)
        requires
            a * a + b * b <= c * c,
    ;
    assert(-c <= a <= c && -c <= b <= c) by (nonlinear_arith)
        requires
            a * a <= c * c,
            b * b <= c * c,
            c >= 0,
    ;
    assert(scaled(v, c, l).x == a && scaled(v, c, l).y == b);
}

proof fn lemma_square_mono(a: int, b: int)
    requires
        0 <= a <= b,
    ensures
        a * a <= b * b,
{
    assert(a * a <= b * b) by (nonlinear_arith)
        requires
            0 <= a <= b,
    ;
}

/// The integer square root is unique.
pub proof fn lemma_root_is(n: int, r: int)
    requires
        is_root(n, r),
    ensures
        root(n) == r,
{
    let q = root(n);
    assert(is_root(n, q));
    if q < r {
        lemma_square_mono(q + 1, r);
    } else if r < q {
        lemma_square_mono(r + 1, q);
    }
}

/// A number whose square stays below `n` is at most the root of `n`.
pub proof fn lemma_below_root(n: int, k: int)
    requires
        0 <= k,
        k * k <= n,
    ensures
        root(n) >= 0,
        k <= root(n),
{
    if n >= 0 {
        lemma_root_exists(n);
    }
    let r = root(n);
    if r < k {
        lemma_square_mono(r + 1, k);
    }
}

/// Every non-negative number has an integer square root.
pub proof fn lemma_root_exists(n: int)
    requires
        n >= 0,
    ensures
        is_root(n, root(n)),
{
    lemma_root_exists_below(n, n);
}

proof fn lemma_root_exists_below(n: int, k: int)
    requires
        0 <= k <= n,
    ensures
        is_root(n, root(n)),
    decreases k,
{
    if (k + 1) * (k + 1) > n && k * k <= n {
        assert(is_root(n, k));
    } else if k * k > n {
        assert(k > 0) by (nonlinear_arith)
            requires
                k * k > n,
                n >= 0,
                k >= 0,
        ;
        lemma_root_exists_below(n, k - 1);
    } else {
        assert(k * k <= n && (k + 1) * (k + 1) <= n);
        assert(k + 1 <= n) by (nonlinear_arith)
            requires
                (k + 1) * (k + 1) <= n,
                k >= 0,
        ;
        assert((k + 1) * (k + 1) <= n);
        lemma_root_step_up(n, k + 1);
    }
}

proof fn lemma_root_step_up(n: int, k: int)
    requires
        0 <= k <= n,
        k * k <= n,
    ensures
        is_root(n, root(n)),
    decreases n - k,
{
    if (k + 1) * (k + 1) > n {
        assert(is_root(n, k));
    } else {
        assert(k + 1 <= n) by (nonlinear_arith)
            requires
                (k + 1) * (k + 1) <= n,
                k >= 0,
        ;
        lemma_root_step_up(n, k + 1);
    }
}

/// Integer square root of `n`, rounded down, by bisection.
pub fn isqrt(n: u64) -> (r: u64)
    ensures
        is_root(n as int, r as int),
        r as int == root(n as int),
{
    let mut lo: u64 = 0;
    let mut hi: u64 = 4294967296;
    assert(hi * hi > n) by (nonlinear_arith)
        requires
            hi == 4294967296,
            n < 18446744073709551616,
    ;
    while hi - lo > 1
        invariant
            lo < hi <= 4294967296,
            lo * lo <= n,
            n < hi * hi,
        decreases hi - lo,
    {
        let mid: u64 = lo + (hi - lo) / 2;
        assert(mid * mid <= 4294967295 * 4294967295) by (nonlinear_arith)
            requires
                mid <= 4294967295,
        ;
        if mid * mid <= n {
            lo = mid;
        } else {
            hi = mid;
        }
    }
    assert(hi == lo + 1);
    proof {
        lemma_root_is(n as int, lo as int);
    }
    lo
}

/// `a * m / d` rounded toward zero.
pub fn mul_div(a: i64, m: i64, d: i64) -> (r: i64)
    requires
        -LIMIT <= a <= LIMIT,
        0 <= m <= LIMIT,
        d > 0,
    ensures
        r == tdiv(a * m, d as int),
{
    assert(-LIMIT * m <= a * m <= LIMIT * m) by (nonlinear_arith)
        requires
            -LIMIT <= a <= LIMIT,
            0 <= m,
    ;
    if a >= 0 {
        let p: u64 = (a * m) as u64;
        let q = p / (d as u64);
        assert(q * d <= p) by (nonlinear_arith)
            requires
                q == p as int / d as int,
                d > 0,
        ;
        q as i64
    } else {
        assert(0 <= (-a) * m <= LIMIT * LIMIT && (-a) * m == -(a * m)) by (nonlinear_arith)
            requires
                0 <= -a <= LIMIT,
                0 <= m <= LIMIT,
        ;
        let p: u64 = ((-a) * m) as u64;
        let q = p / (d as u64);
        assert(q * d <= p && q <= p) by (nonlinear_arith)
            requires
                q == p as int / d as int,
                d > 0,
                p >= 0,
        ;
        -(q as i64)
    }
}

/// Squared distance between two points.
pub fn distance_sq(a: Vec2, b: Vec2) -> (r: u64)
    requires
        in_range(a, LIMIT as int / 2),
        in_range(b, LIMIT as int / 2),
    ensures
        r == dist_sq(a, b),
{
    let dx = a.x - b.x;
    let dy = a.y - b.y;
    assert(dx * dx <= LIMIT * LIMIT && dy * dy <= LIMIT * LIMIT) by (nonlinear_arith)
        requires
            -LIMIT <= dx <= LIMIT,
            -LIMIT <= dy <= LIMIT,
    ;
    assert(0 <= dx * dx && 0 <= dy * dy) by (nonlinear_arith);
    (dx * dx) as u64 + (dy * dy) as u64
}

/// Distance between two points, rounded down.
pub fn distance(a: Vec2, b: Vec2) -> (r: u64)
    requires
        in_range(a, LIMIT as int / 2),
        in_range(b, LIMIT as int / 2),
    ensures
        r == root(dist_sq(a, b)),
{
    isqrt(distance_sq(a, b))
}

/// Length of `v`, rounded down.
pub fn length(v: Vec2) -> (r: u64)
    requires
        in_range(v, LIMIT as int),
    ensures
        r == length_of(v),
        r <= LIMIT * 2,
        -r <= v.x <= r,
        -r <= v.y <= r,
{
    assert(v.x * v.x <= LIMIT * LIMIT && v.y * v.y <= LIMIT * LIMIT) by (nonlinear_arith)
        requires
            in_range(v, LIMIT as int),
    ;
    assert(0 <= v.x * v.x && 0 <= v.y * v.y) by (nonlinear_arith);
    let n: u64 = (v.x * v.x) as u64 + (v.y * v.y) as u64;
    let r = isqrt(n);
    proof {
        lemma_components_within_length(v);
        if r > LIMIT * 2 {
            lemma_square_mono(LIMIT * 2, r as int);
        }
    }
    r
}

/// Each coordinate of a vector is at most its length.
pub proof fn lemma_components_within_length(v: Vec2)
    ensures
        length_of(v) >= 0,
        -length_of(v) <= v.x <= length_of(v),
        -length_of(v) <= v.y <= length_of(v),
{
    let n = norm_sq(v);
    assert(v.x * v.x <= n && v.y * v.y <= n && (-v.x) * (-v.x) == v.x * v.x && (-v.y) * (-v.y)
        == v.y * v.y) by (nonlinear_arith)
        requires
            n == v.x * v.x + v.y * v.y,
    ;
    if v.x >= 0 {
        lemma_below_root(n, v.x as int);
    } else {
        lemma_below_root(n, -v.x);
    }
    if v.y >= 0 {
        lemma_below_root(n, v.y as int);
    } else {
        lemma_below_root(n, -v.y);
    }
}

/// A rescaled vector keeps each coordinate within `c` when `c / len` is applied.
proof fn lemma_scaled_within(v: Vec2, c: int, len: int)
    requires
        len > 0,
        0 <= c,
        -len <= v.x <= len,
        -len <= v.y <= len,
    ensures
        -c <= tdiv(v.x * c, len) <= c,
        -c <= tdiv(v.y * c, len) <= c,
{
    lemma_tdiv_within(v.x as int, c, len);
    lemma_tdiv_within(v.y as int, c, len);
}

/// Rescaling a coordinate no larger than `len` by `c / len` gives at most `c`.
pub proof fn lemma_tdiv_within(a: int, c: int, len: int)
    requires
        len > 0,
        0 <= c,
        -len <= a <= len,
    ensures
        -c <= tdiv(a * c, len) <= c,
{
    if a >= 0 {
        assert(a * c <= len * c && a * c >= 0) by (nonlinear_arith)
            requires
                0 <= a <= len,
                0 <= c,
        ;
        assert((a * c) / len <= (len * c) / len) by (nonlinear_arith)
            requires
                0 <= a * c <= len * c,
                len > 0,
        ;
        assert((len * c) / len == c) by (nonlinear_arith)
            requires
                len > 0,
        ;
        assert((a * c) / len >= 0) by (nonlinear_arith)
            requires
                a * c >= 0,
                len > 0,
        ;
    } else {
        assert((-a) * c <= len * c && (-a) * c >= 0 && -(a * c) == (-a) * c) by (nonlinear_arith)
            requires
                0 <= -a <= len,
                0 <= c,
        ;
        assert(((-a) * c) / len <= (len * c) / len) by (nonlinear_arith)
            requires
                0 <= (-a) * c <= len * c,
                len > 0,
        ;
        assert((len * c) / len == c) by (nonlinear_arith)
            requires
                len > 0,
        ;
        assert(((-a) * c) / len >= 0) by (nonlinear_arith)
            requires
                (-a) * c >= 0,
                len > 0,
        ;
    }
}

/// The direction of `v`, scaled to length `SCALE` over the rounded-down
/// length of `v` and rounded toward zero (see `unit_of`); none for the zero
/// vector, whose direction is undefined.
pub fn normalize(v: Vec2) -> (r: Option<Vec2>)
    requires
        in_range(v, LIMIT as int),
    ensures
        r == unit_of(v),
        r is Some ==> in_range(r->0, SCALE as int),
{
    if v.x == 0 && v.y == 0 {
        return None;
    }
    let len = length(v);
    proof {
        if len == 0 {
            assert(v.x == 0 && v.y == 0);
        }
        lemma_scaled_within(v, SCALE as int, len as int);
    }
    let x = mul_div(v.x, SCALE, len as i64);
    let y = mul_div(v.y, SCALE, len as i64);
    Some(Vec2 { x, y })
}

/// `v` where its length is at most `c`, else `v` rescaled to length `c`.
pub fn clamp_magnitude(v: Vec2, c: i64) -> (r: Vec2)
    requires
        in_range(v, LIMIT as int),
        0 <= c <= LIMIT,
    ensures
        r == clamped(v, c as int),
        in_range(r, c as int),
        norm_sq(r) <= c * c,
{
    assert(v.x * v.x <= LIMIT * LIMIT && v.y * v.y <= LIMIT * LIMIT) by (nonlinear_arith)
        requires
            in_range(v, LIMIT as int),
    ;
    assert(0 <= v.x * v.x && 0 <= v.y * v.y) by (nonlinear_arith);
    let n: u64 = (v.x * v.x) as u64 + (v.y * v.y) as u64;
    assert(c * c <= LIMIT * LIMIT) by (nonlinear_arith)
        requires
            0 <= c <= LIMIT,
    ;
    if n <= (c * c) as u64 {
        proof {
            lemma_components_within_length(v);
            let len = length_of(v);
            assert(norm_sq(v) == n);
            lemma_root_exists(n as int);
            if len > c {
                lemma_square_mono(c + 1, len);
                assert((c + 1) * (c + 1) > c * c) by (nonlinear_arith)
                    requires
                        c >= 0,
                ;
            }
        }
        return v;
    }
    let low = length(v);
    proof {
        lemma_root_exists(n as int);
        assert(norm_sq(v) == n);
        assert(low * low <= n);
    }
    let len = if low * low == n {
        low
    } else {
        low + 1
    };
    proof {
        assert(len * len >= n) by (nonlinear_arith)
            requires
                low * low <= n < (low + 1) * (low + 1),
                len == low || len == low + 1,
                len == low ==> low * low == n,
        ;
        if len == 0 {
            assert(n == 0);
        }
        lemma_rescaled_short(v, c as int, len as int);
    }
    let x = mul_div(v.x, c, len as i64);
    let y = mul_div(v.y, c, len as i64);
    Vec2 { x, y }
}

/// `v * m / d`, each coordinate rounded toward zero.
pub fn scale(v: Vec2, m: i64, d: i64) -> (r: Vec2)
    requires
        in_range(v, LIMIT as int),
        0 <= m <= LIMIT,
        d > 0,
    ensures
        r == scaled(v, m as int, d as int),
{
    Vec2 { x: mul_div(v.x, m, d), y: mul_div(v.y, m, d) }
}

/// A coordinate of at most `a` rescaled by `m / d` is at most `a * m / d`.
pub proof fn lemma_tdiv_bound(x: int, a: int, m: int, d: int)
    requires
        -a <= x <= a,
        0 <= m,
        d > 0,
    ensures
        -((a * m) / d) <= tdiv(x * m, d) <= (a * m) / d,
{
    if x >= 0 {
        assert(0 <= x * m <= a * m) by (nonlinear_arith)
            requires
                0 <= x <= a,
                0 <= m,
        ;
        vstd::arithmetic::div_mod::lemma_div_is_ordered(x * m, a * m, d);
        vstd::arithmetic::div_mod::lemma_div_pos_is_pos(x * m, d);
    } else {
        assert(0 <= (-x) * m <= a * m && (-x) * m == -(x * m)) by (nonlinear_arith)
            requires
                0 <= -x <= a,
                0 <= m,
        ;
        vstd::arithmetic::div_mod::lemma_div_is_ordered((-x) * m, a * m, d);
        vstd::arithmetic::div_mod::lemma_div_pos_is_pos((-x) * m, d);
    }
}

} // verus!
