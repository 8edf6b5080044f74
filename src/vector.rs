//! Planar vectors, their squared length and clamping of their length.
use vstd::prelude::*;

verus! {

/// A vector of the plane in fixed-point world units.
#[derive(Clone, Copy, Debug, PartialEq, Eq, Structural)]
pub struct Vec2 {
    pub x: i64,
    pub y: i64,
}

impl View for Vec2 {
    type V = (int, int);

    open spec fn view(&self) -> (int, int) {
        (self.x as int, self.y as int)
    }
}

/// Squared Euclidean length.
pub open spec fn norm2(v: (int, int)) -> int {
    v.0 * v.0 + v.1 * v.1
}

/// `s` is the least natural number whose square reaches `n`.
pub open spec fn is_ceil_sqrt(n: int, s: int) -> bool {
    0 <= s && n <= s * s && (s == 0 || (s - 1) * (s - 1) < n)
}

/// The least natural number whose square reaches `n`.
pub open spec fn ceil_sqrt(n: int) -> int {
    choose|s: int| is_ceil_sqrt(n, s)
}

/// `c * m / s`, truncated toward zero.
pub open spec fn scale_component(c: int, m: int, s: int) -> int {
    if c >= 0 {
        (c * m) / s
    } else {
        -((-c * m) / s)
    }
}

/// `v` when its length is at most `max`; otherwise `v` scaled by
/// `max / ceil_sqrt(|v|^2)`, each component truncated toward zero, which keeps
/// its direction up to rounding and brings its length to at most `max`.
pub open spec fn clamped(v: (int, int), max: int) -> (int, int) {
    if norm2(v) <= max * max {
        v
    } else {
        let s = ceil_sqrt(norm2(v));
        (scale_component(v.0, max, s), scale_component(v.1, max, s))
    }
}

pub proof fn lemma_ceil_sqrt_exists(n: int)
    requires
        n >= 0,
    ensures
        exists|s: int| is_ceil_sqrt(n, s),
    decreases n,
{
    if n == 0 {
        assert(is_ceil_sqrt(0, 0));
    } else {
        lemma_ceil_sqrt_exists(n - 1);
        let t = ceil_sqrt(n - 1);
        if n <= t * t {
            assert(is_ceil_sqrt(n, t));
        } else {
            assert((t + 1) * (t + 1) == t * t + 2 * t + 1) by (nonlinear_arith);
            assert(t * t >= 0) by (nonlinear_arith);
            assert(is_ceil_sqrt(n, t + 1));
        }
    }
}

pub proof fn lemma_ceil_sqrt_unique(n: int, s: int, t: int)
    requires
        is_ceil_sqrt(n, s),
        is_ceil_sqrt(n, t),
    ensures
        s == t,
{
    if s < t {
        assert(s * s <= (t - 1) * (t - 1)) by (nonlinear_arith)
            requires
                0 <= s <= t - 1,
        ;
    } else if t < s {
        assert(t * t <= (s - 1) * (s - 1)) by (nonlinear_arith)
            requires
                0 <= t <= s - 1,
        ;
    }
}

/// The value that `ceil_sqrt` picks is the least one whose square reaches `n`.
pub proof fn lemma_ceil_sqrt(n: int)
    requires
        n >= 0,
    ensures
        is_ceil_sqrt(n, ceil_sqrt(n)),
{
    lemma_ceil_sqrt_exists(n);
}

/// The least `s` with `n <= s * s`.
pub fn ceil_sqrt_u128(n: u128) -> (r: u128)
    requires
        n <= 0x8000_0000_0000_0000_0000_0000_0000_0000u128,
    ensures
        is_ceil_sqrt(n as int, r as int),
        r as int == ceil_sqrt(n as int),
{
    let mut lo: u128 = 0;
    let mut hi: u128 = 0xffff_ffff_ffff_ffffu128;
    assert(n <= hi * hi) by (nonlinear_arith)
        requires
            hi == 0xffff_ffff_ffff_ffffu128,
            n <= 0x8000_0000_0000_0000_0000_0000_0000_0000u128,
    ;
    while lo < hi
        invariant
            lo <= hi <= 0xffff_ffff_ffff_ffffu128,
            n <= hi * hi,
            lo == 0 || (lo - 1) * (lo - 1) < n,
        decreases hi - lo,
    {
        let mid: u128 = lo + (hi - lo) / 2;
        assert(mid * mid <= 0xffff_ffff_ffff_ffffu128 * 0xffff_ffff_ffff_ffffu128) by (nonlinear_arith)
            requires
                mid <= 0xffff_ffff_ffff_ffffu128,
        ;
        if mid * mid >= n {
            hi = mid;
        } else {
            lo = mid + 1;
        }
    }
    proof {
        lemma_ceil_sqrt(n as int);
        lemma_ceil_sqrt_unique(n as int, lo as int, ceil_sqrt(n as int));
    }
    lo
}

/// Once the length has been scaled down, it is at most `m`.
proof fn lemma_scaled_bound(ax: int, ay: int, m: int, s: int, qx: int, qy: int)
    requires
        ax >= 0,
        ay >= 0,
        m >= 0,
        s > 0,
        qx >= 0,
        qy >= 0,
        qx * s <= ax * m,
        qy * s <= ay * m,
        ax * ax + ay * ay <= s * s,
    ensures
        qx * qx + qy * qy <= m * m,
{
    assert((qx * s) * (qx * s) <= (ax * m) * (ax * m)) by (nonlinear_arith)
        requires
            0 <= qx * s <= ax * m,
    ;
    assert((qy * s) * (qy * s) <= (ay * m) * (ay * m)) by (nonlinear_arith)
        requires
            0 <= qy * s <= ay * m,
    ;
    assert((qx * qx + qy * qy) * (s * s) == (qx * s) * (qx * s) + (qy * s) * (qy * s))
        by (nonlinear_arith);
    assert((ax * ax + ay * ay) * (m * m) == (ax * m) * (ax * m) + (ay * m) * (ay * m))
        by (nonlinear_arith);
    assert((ax * ax + ay * ay) * (m * m) <= (s * s) * (m * m)) by (nonlinear_arith)
        requires
            ax * ax + ay * ay <= s * s,
    ;
    assert(qx * qx + qy * qy <= m * m) by (nonlinear_arith)
        requires
            (qx * qx + qy * qy) * (s * s) <= (s * s) * (m * m),
            s > 0,
    ;
}

/// A clamped vector is never longer than `max`.
pub proof fn lemma_clamped_within(v: (int, int), max: int)
    requires
        max >= 0,
    ensures
        norm2(clamped(v, max)) <= max * max,
{
    if norm2(v) > max * max {
        let n = norm2(v);
        assert(v.0 * v.0 >= 0 && v.1 * v.1 >= 0) by (nonlinear_arith);
        lemma_ceil_sqrt(n);
        let s = ceil_sqrt(n);
        assert(s > 0) by (nonlinear_arith)
            requires
                n <= s * s,
                n > max * max,
                max * max >= 0,
                s >= 0,
        ;
        let ax = if v.0 >= 0 { v.0 } else { -v.0 };
        let ay = if v.1 >= 0 { v.1 } else { -v.1 };
        assert(ax * ax == v.0 * v.0 && ay * ay == v.1 * v.1) by (nonlinear_arith)
            requires
                ax == v.0 || ax == -v.0,
                ay == v.1 || ay == -v.1,
        ;
        assert(ax * max >= 0 && ay * max >= 0) by (nonlinear_arith)
            requires
                ax >= 0,
                ay >= 0,
                max >= 0,
        ;
        let qx = (ax * max) / s;
        let qy = (ay * max) / s;
        assert(qx * s <= ax * max && qx >= 0) by (nonlinear_arith)
            requires
                qx == (ax * max) / s,
                s > 0,
                ax * max >= 0,
        ;
        assert(qy * s <= ay * max && qy >= 0) by (nonlinear_arith)
            requires
                qy == (ay * max) / s,
                s > 0,
                ay * max >= 0,
        ;
        lemma_scaled_bound(ax, ay, max, s, qx, qy);
        let r = clamped(v, max);
        if v.0 < 0 {
            assert(-v.0 * max == ax * max);
        }
        if v.1 < 0 {
            assert(-v.1 * max == ay * max);
        }
        assert(r.0 == qx || r.0 == -qx);
        assert(r.1 == qy || r.1 == -qy);
        assert(r.0 * r.0 == qx * qx && r.1 * r.1 == qy * qy) by (nonlinear_arith)
            requires
                r.0 == qx || r.0 == -qx,
                r.1 == qy || r.1 == -qy,
        ;
    }
}

/// The size of a component scaled down by `m / s`, where the component's
/// size is at most `s`.
fn scale_magnitude(a: u128, m: u32, s: u128) -> (q: u128)
    requires
        s > 0,
        a <= s,
        a <= 0x8000_0000_0000_0000u128,
    ensures
        q as int == (a * m) as int / (s as int),
        q <= m,
        q * s <= a * m,
{
    assert(a * (m as u128) <= 0x8000_0000_0000_0000u128 * 0xffff_ffffu128) by (nonlinear_arith)
        requires
            a <= 0x8000_0000_0000_0000u128,
            m <= 0xffff_ffffu32,
    ;
    let q = a * (m as u128) / s;
    assert(q * s <= a * m) by (nonlinear_arith)
        requires
            q as int == (a as int * m as int) / (s as int),
            s > 0,
    ;
    assert(q <= m) by (nonlinear_arith)
        requires
            q * s <= a * m,
            a <= s,
            s > 0,
    ;
    q
}

/// The magnitude of `c`.
fn magnitude(c: i64) -> (a: u128)
    ensures
        a as int == (if c >= 0 { c as int } else { -c }),
        a <= 0x8000_0000_0000_0000u128,
{
    if c >= 0 {
        c as u128
    } else {
        (-(c as i128)) as u128
    }
}

/// Shortens `v` to length `max` where it is longer: see `clamped`. The result
/// is never longer than `max`.
pub fn clamp_length_max(v: Vec2, max: u32) -> (r: Vec2)
    ensures
        r@ == clamped(v@, max as int),
        norm2(r@) <= max * max,
{
    let n = v.length_squared();
    let m = max as u128;
    assert(m * m <= 0xffff_ffffu128 * 0xffff_ffffu128) by (nonlinear_arith)
        requires
            m <= 0xffff_ffffu128,
    ;
    if n <= m * m {
        v
    } else {
        let s = ceil_sqrt_u128(n);
        let ax = magnitude(v.x);
        let ay = magnitude(v.y);
        assert((ax as int) * (ax as int) == (v.x as int) * (v.x as int)) by (nonlinear_arith)
            requires
                ax as int == v.x as int || ax as int == -(v.x as int),
        ;
        assert((ay as int) * (ay as int) == (v.y as int) * (v.y as int)) by (nonlinear_arith)
            requires
                ay as int == v.y as int || ay as int == -(v.y as int),
        ;
        assert(ax * ax <= s * s && ay * ay <= s * s) by (nonlinear_arith)
            requires
                ax * ax == v.x * v.x,
                ay * ay == v.y * v.y,
                n == v.x * v.x + v.y * v.y,
                n <= s * s,
        ;
        assert(s > 0) by (nonlinear_arith)
            requires
                n <= s * s,
                n > m * m,
                m * m >= 0,
        ;
        assert(ax <= s && ay <= s) by (nonlinear_arith)
            requires
                ax * ax <= s * s,
                ay * ay <= s * s,
                ax >= 0,
                ay >= 0,
                s > 0,
        ;
        let qx = scale_magnitude(ax, max, s);
        let qy = scale_magnitude(ay, max, s);
        proof {
            lemma_scaled_bound(ax as int, ay as int, m as int, s as int, qx as int, qy as int);
        }
        let x: i64 = if v.x >= 0 { qx as i64 } else { -(qx as i64) };
        let y: i64 = if v.y >= 0 { qy as i64 } else { -(qy as i64) };
        assert((x as int) * (x as int) == (qx as int) * (qx as int)) by (nonlinear_arith)
            requires
                x as int == qx as int || x as int == -(qx as int),
        ;
        assert((y as int) * (y as int) == (qy as int) * (qy as int)) by (nonlinear_arith)
            requires
                y as int == qy as int || y as int == -(qy as int),
        ;
        if v.x < 0 {
            assert((-(v.x as int)) * (m as int) == (ax as int) * (m as int));
        }
        if v.y < 0 {
            assert((-(v.y as int)) * (m as int) == (ay as int) * (m as int));
        }
        Vec2 { x, y }
    }
}

impl Vec2 {
    /// The zero vector.
    pub fn zero() -> (r: Vec2)
        ensures
            r@ == (0int, 0int),
    {
        Vec2 { x: 0, y: 0 }
    }

    pub fn new(x: i64, y: i64) -> (r: Vec2)
        ensures
            r.x == x,
            r.y == y,
    {
        Vec2 { x, y }
    }

    /// Whether both components are exactly zero.
    pub fn is_zero(&self) -> (r: bool)
        ensures
            r == (self@ == (0int, 0int)),
    {
        self.x == 0 && self.y == 0
    }

    /// Squared length, exact.
    pub fn length_squared(&self) -> (r: u128)
        ensures
            r as int == norm2(self@),
            r <= 0x8000_0000_0000_0000_0000_0000_0000_0000u128,
    {
        let x = self.x as i128;
        let y = self.y as i128;
        assert(x * x <= 0x4000_0000_0000_0000_0000_0000_0000_0000i128) by (nonlinear_arith)
            requires
                -0x8000_0000_0000_0000i128 <= x <= 0x7fff_ffff_ffff_ffffi128,
        ;
        assert(y * y <= 0x4000_0000_0000_0000_0000_0000_0000_0000i128) by (nonlinear_arith)
            requires
                -0x8000_0000_0000_0000i128 <= y <= 0x7fff_ffff_ffff_ffffi128,
        ;
        assert(x * x >= 0 && y * y >= 0) by (nonlinear_arith);
        let xx = (x * x) as u128;
        let yy = (y * y) as u128;
        xx + yy
    }
}

} // verus!
