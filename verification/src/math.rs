//! Fixed-point plane geometry, and the random draws that place things.

use rand::Rng;
use vstd::prelude::*;

verus! {

/// A point or a displacement in the plane, in fixed-point steps.
#[derive(Clone, Copy, Debug, PartialEq, Eq, Structural)]
pub struct Vec2 {
    pub x: i32,
    pub y: i32,
}

/// The nearest value to `v` that an `i32` holds.
pub open spec fn clamp_i32(v: int) -> i32 {
    if v < i32::MIN {
        i32::MIN
    } else if v > i32::MAX {
        i32::MAX
    } else {
        v as i32
    }
}

/// `r` is the square root of `n`, rounded down.
pub open spec fn is_floor_sqrt(n: nat, r: nat) -> bool {
    r * r <= n && n < (r + 1) * (r + 1)
}

/// The square root of `n`, rounded down.
pub open spec fn floor_sqrt(n: nat) -> nat {
    choose|r: nat| is_floor_sqrt(n, r)
}

/// Lengths are measured to one part in `FINE` of a step before a vector is
/// rescaled, so that even the shortest vectors keep their direction.
pub const FINE: u64 = 65_536;

/// The length of `(dx, dy)` in units of `1 / FINE` steps, rounded down.
pub open spec fn fine_length(dx: int, dy: int) -> nat {
    floor_sqrt(((dx * dx + dy * dy) * FINE * FINE) as nat)
}

/// One coordinate `c` of a vector of fine length `norm`, after the vector has
/// been stretched or shrunk to `length`: `c * length / |v|`, rounded toward zero.
pub open spec fn scale_part(c: int, norm: nat, length: nat) -> int {
    if c >= 0 {
        (c * length * FINE) / (norm as int)
    } else {
        -((-c * length * FINE) / (norm as int))
    }
}

/// The vector `(dx, dy)` brought to the given length, keeping its direction.
/// The zero vector has no direction and stays zero.
pub open spec fn scaled(dx: int, dy: int, length: nat) -> Vec2 {
    if dx == 0 && dy == 0 {
        Vec2 { x: 0, y: 0 }
    } else {
        Vec2 {
            x: clamp_i32(scale_part(dx, fine_length(dx, dy), length)),
            y: clamp_i32(scale_part(dy, fine_length(dx, dy), length)),
        }
    }
}

/// `base` moved by `(dx, dy)`, each coordinate stopping at the edge of the
/// representable plane.
pub open spec fn shifted(base: Vec2, dx: int, dy: int) -> Vec2 {
    Vec2 { x: clamp_i32(base.x + dx), y: clamp_i32(base.y + dy) }
}

/// The point at distance `dist` from `pos` in direction `dir`.
pub open spec fn placed(pos: Vec2, dir: Vec2, dist: u32) -> Vec2 {
    let offset = scaled(dir.x as int, dir.y as int, dist as nat);
    shifted(pos, offset.x as int, offset.y as int)
}

/// Random directions are drawn from the disc of this radius.
pub const DIRECTION_RADIUS: i32 = 1_000_000;

/// How often a direction is drawn before a fixed one is used instead.
pub const DIRECTION_ATTEMPTS: u32 = 64;

/// `d` can serve as a direction: it is not zero and lies in the disc that
/// directions are drawn from.
pub open spec fn is_direction(d: Vec2) -> bool {
    (d.x != 0 || d.y != 0) && d.x * d.x + d.y * d.y <= DIRECTION_RADIUS * DIRECTION_RADIUS
}

/// `pos` lies around `center`: in some direction from it, at some distance
/// in `dist_min .. dist_max`.
pub open spec fn is_around(center: Vec2, pos: Vec2, dist_min: u32, dist_max: u32) -> bool {
    exists|dir: Vec2, dist: u32|
        is_direction(dir) && dist_min <= dist < dist_max && pos == #[trigger] placed(
            center,
            dir,
            dist,
        )
}

/// There is only one rounded-down square root.
pub proof fn lemma_floor_sqrt_unique(n: nat, a: nat, b: nat)
    requires
        is_floor_sqrt(n, a),
        is_floor_sqrt(n, b),
    ensures
        a == b,
{
    if a < b {
        assert((a + 1) * (a + 1) <= b * b) by (nonlinear_arith)
            requires
                a + 1 <= b,
        ;
    }
    if b < a {
        assert((b + 1) * (b + 1) <= a * a) by (nonlinear_arith)
            requires
                b + 1 <= a,
        ;
    }
}

/// A number that passes the test is the rounded-down square root.
pub proof fn lemma_floor_sqrt_is(n: nat, r: nat)
    requires
        is_floor_sqrt(n, r),
    ensures
        floor_sqrt(n) == r,
{
    lemma_floor_sqrt_unique(n, r, floor_sqrt(n));
}

/// Every number has a rounded-down square root.
pub proof fn lemma_floor_sqrt_exists(n: nat)
    ensures
        is_floor_sqrt(n, floor_sqrt(n)),
    decreases n,
{
    if n == 0 {
        assert(0nat * 0nat == 0 && (0nat + 1) * (0nat + 1) == 1) by (nonlinear_arith);
        assert(is_floor_sqrt(0, 0));
    } else {
        lemma_floor_sqrt_exists((n - 1) as nat);
        let r = floor_sqrt((n - 1) as nat);
        if n < (r + 1) * (r + 1) {
            assert(is_floor_sqrt(n, r));
        } else {
            assert((r + 1) * (r + 1) < (r + 2) * (r + 2)) by (nonlinear_arith);
            assert(is_floor_sqrt(n, r + 1));
        }
    }
}

/// The length of a vector along the x axis is the size of its x coordinate.
pub proof fn lemma_fine_length_on_axis(d: int)
    ensures
        fine_length(d, 0) == (if d >= 0 {
            d
        } else {
            -d
        }) * FINE,
        fine_length(0, d) == fine_length(d, 0),
{
    let m: int = if d >= 0 {
        d
    } else {
        -d
    };
    let n = ((d * d + 0 * 0) * FINE * FINE) as nat;
    let r = (m * FINE) as nat;
    assert((d * d + 0 * 0) * FINE * FINE >= 0) by (nonlinear_arith)
        requires
            FINE == 65_536,
    ;
    assert(r * r == n && n < (r + 1) * (r + 1)) by (nonlinear_arith)
        requires
            r == m * FINE,
            n == (d * d + 0 * 0) * FINE * FINE,
            m == d || m == -d,
            m >= 0,
            FINE == 65_536,
    ;
    lemma_floor_sqrt_is(n, r);
    assert((0 * 0 + d * d) * FINE * FINE == (d * d + 0 * 0) * FINE * FINE) by (nonlinear_arith);
}

/// A vector along the x axis, brought to a length, is that length along the
/// same side of the axis.
pub proof fn lemma_scaled_along_x(dx: int, length: nat)
    requires
        dx != 0,
        length <= i32::MAX,
    ensures
        scaled(dx, 0, length) == (Vec2 {
            x: if dx > 0 {
                length as i32
            } else {
                (-length) as i32
            },
            y: 0,
        }),
{
    lemma_fine_length_on_axis(dx);
    let m: int = if dx >= 0 {
        dx
    } else {
        -dx
    };
    let norm = fine_length(dx, 0);
    assert((m * length * FINE) / (norm as int) == length) by (nonlinear_arith)
        requires
            norm == m * FINE,
            m > 0,
            FINE == 65_536,
    ;
    assert((0 * length * FINE) / (norm as int) == 0) by (nonlinear_arith)
        requires
            norm > 0,
    ;
    assert(-dx * length * FINE == m * length * FINE || dx * length * FINE == m * length * FINE);
}

/// A vector along the y axis, brought to a length, is that length along the
/// same side of the axis.
pub proof fn lemma_scaled_along_y(dy: int, length: nat)
    requires
        dy != 0,
        length <= i32::MAX,
    ensures
        scaled(0, dy, length) == (Vec2 {
            x: 0,
            y: if dy > 0 {
                length as i32
            } else {
                (-length) as i32
            },
        }),
{
    lemma_fine_length_on_axis(dy);
    let m: int = if dy >= 0 {
        dy
    } else {
        -dy
    };
    let norm = fine_length(0, dy);
    assert((m * length * FINE) / (norm as int) == length) by (nonlinear_arith)
        requires
            norm == m * FINE,
            m > 0,
            FINE == 65_536,
    ;
    assert((0 * length * FINE) / (norm as int) == 0) by (nonlinear_arith)
        requires
            norm > 0,
    ;
    assert(-dy * length * FINE == m * length * FINE || dy * length * FINE == m * length * FINE);
}

/// No coordinate of a rescaled vector is longer than the length asked for.
pub proof fn lemma_scale_part_bounded(c: int, other: int, length: nat)
    requires
        c != 0 || other != 0,
    ensures
        -length <= scale_part(c, fine_length(c, other), length) <= length,
        -length <= scale_part(c, fine_length(other, c), length) <= length,
        c >= 0 ==> scale_part(c, fine_length(c, other), length) >= 0,
        c <= 0 ==> scale_part(c, fine_length(c, other), length) <= 0,
        fine_length(c, other) == fine_length(other, c),
        fine_length(c, other) >= FINE,
{
    let m: int = if c >= 0 {
        c
    } else {
        -c
    };
    let n = ((c * c + other * other) * FINE * FINE) as nat;
    assert((c * c + other * other) * FINE * FINE == (other * other + c * c) * FINE * FINE)
        by (nonlinear_arith);
    assert((c * c + other * other) * FINE * FINE >= FINE * FINE && (c * c + other * other) * FINE
        * FINE >= (m * FINE) * (m * FINE)) by (nonlinear_arith)
        requires
            c != 0 || other != 0,
            m == c || m == -c,
            FINE == 65_536,
    ;
    lemma_floor_sqrt_exists(n);
    let norm = floor_sqrt(n);
    assert(norm >= m * FINE && norm >= FINE) by (nonlinear_arith)
        requires
            n < (norm + 1) * (norm + 1),
            n >= (m * FINE) * (m * FINE),
            n >= FINE * FINE,
            m >= 0,
            FINE == 65_536,
    ;
    let q = (m * length * FINE) / (norm as int);
    assert(0 <= q <= length) by (nonlinear_arith)
        requires
            q == (m * length * FINE) / (norm as int),
            norm >= m * FINE,
            norm > 0,
            m >= 0,
            length >= 0,
            FINE == 65_536,
    ;
    assert(-c * length * FINE == m * length * FINE || c * length * FINE == m * length * FINE);
    if c == 0 {
        assert(c * length * FINE == 0) by (nonlinear_arith)
            requires
                c == 0,
        ;
        assert(0int / (norm as int) == 0) by (nonlinear_arith)
            requires
                norm > 0,
        ;
    }
}

/// A rescaled vector is no longer along either axis than the length asked
/// for, and points to the same side of each axis as the vector it came from.
pub proof fn lemma_scaled_bounded(dx: int, dy: int, length: nat)
    requires
        length <= i32::MAX,
    ensures
        -length <= scaled(dx, dy, length).x <= length,
        -length <= scaled(dx, dy, length).y <= length,
        dx >= 0 ==> scaled(dx, dy, length).x >= 0,
        dx <= 0 ==> scaled(dx, dy, length).x <= 0,
        dy >= 0 ==> scaled(dx, dy, length).y >= 0,
        dy <= 0 ==> scaled(dx, dy, length).y <= 0,
{
    if dx != 0 || dy != 0 {
        lemma_scale_part_bounded(dx, dy, length);
        lemma_scale_part_bounded(dy, dx, length);
    }
}

/// The square of the distance between two points.
pub open spec fn distance_squared(a: Vec2, b: Vec2) -> int {
    (a.x - b.x) * (a.x - b.x) + (a.y - b.y) * (a.y - b.y)
}

/// The size of one coordinate of a rescaled vector is the quotient of
/// `|c| * length * FINE` by the fine length.
proof fn lemma_scale_part_quotient(c: int, norm: nat, length: nat) -> (q: int)
    requires
        norm > 0,
    ensures
        q >= 0,
        scale_part(c, norm, length) == q || scale_part(c, norm, length) == -q,
        c == 0 ==> q == 0,
        q * norm <= (if c >= 0 {
            c
        } else {
            -c
        }) * (length * FINE),
        (if c >= 0 {
            c
        } else {
            -c
        }) * (length * FINE) < (q + 1) * norm,
{
    let a: int = if c >= 0 {
        c
    } else {
        -c
    };
    let x = a * length * FINE;
    assert(x == a * (length * FINE) && x >= 0) by (nonlinear_arith)
        requires
            x == a * length * FINE,
            a >= 0,
            FINE == 65_536,
    ;
    assert(-c * length * FINE == x || c * length * FINE == x);
    let q = x / (norm as int);
    assert(0 <= q && q * norm <= x < (q + 1) * norm) by (nonlinear_arith)
        requires
            q == x / (norm as int),
            norm > 0,
            x >= 0,
    ;
    if c == 0 {
        assert(x == 0) by (nonlinear_arith)
            requires
                x == a * (length * FINE),
                a == 0,
        ;
    }
    q
}

/// Squares grow with their roots.
proof fn lemma_square_grows(u: int, v: int)
    requires
        0 <= u <= v,
    ensures
        u * u <= v * v,
        u < v ==> u * u < v * v,
{
    assert(u * u <= v * v) by (nonlinear_arith)
        requires
            0 <= u <= v,
    ;
    if u < v {
        assert(u * u < v * v) by (nonlinear_arith)
            requires
                0 <= u < v,
        ;
    }
}

/// How long a rescaled vector is. Rounding each coordinate toward zero makes
/// it a little shorter than the length asked for, but by less than one step
/// along each axis; and it is longer only by as much as the vector's own
/// length was rounded down, which is less than one part in `FINE`.
pub proof fn lemma_scaled_length(dx: int, dy: int, length: nat)
    requires
        dx != 0 || dy != 0,
        0 < length <= i32::MAX,
    ensures
        ({
            let s = scaled(dx, dy, length);
            let n = fine_length(dx, dy);
            let ax: int = if s.x >= 0 {
                s.x as int
            } else {
                -s.x
            };
            let ay: int = if s.y >= 0 {
                s.y as int
            } else {
                -s.y
            };
            &&& n >= FINE
            &&& (n * n) * (s.x * s.x + s.y * s.y) < ((n + 1) * (n + 1)) * (length * length)
            &&& (ax + 1) * (ax + 1) + (ay + 1) * (ay + 1) > length * length
        }),
{
    lemma_scale_part_bounded(dx, dy, length);
    lemma_scale_part_bounded(dy, dx, length);
    let n: int = fine_length(dx, dy) as int;
    let big: int = (dx * dx + dy * dy) * FINE * FINE;
    lemma_floor_sqrt_exists(((dx * dx + dy * dy) * FINE * FINE) as nat);
    assert((dx * dx + dy * dy) * FINE * FINE >= 0) by (nonlinear_arith)
        requires
            FINE == 65_536,
    ;
    let qx = lemma_scale_part_quotient(dx, n as nat, length);
    let qy = lemma_scale_part_quotient(dy, n as nat, length);
    let s = scaled(dx, dy, length);
    assert(s.x == qx || s.x == -qx);
    assert(s.y == qy || s.y == -qy);
    let a: int = if dx >= 0 {
        dx
    } else {
        -dx
    };
    let b: int = if dy >= 0 {
        dy
    } else {
        -dy
    };
    let k: int = length * FINE;
    assert(k >= 0) by (nonlinear_arith)
        requires
            k == length * FINE,
            FINE == 65_536,
    ;
    assert(a * k >= 0 && b * k >= 0) by (nonlinear_arith)
        requires
            a >= 0,
            b >= 0,
            k >= 0,
    ;
    assert(qx * n >= 0 && qy * n >= 0) by (nonlinear_arith)
        requires
            n >= 0,
            qx >= 0,
            qy >= 0,
    ;
    lemma_square_grows(qx * n, a * k);
    lemma_square_grows(qy * n, b * k);
    lemma_square_grows(a * k, (qx + 1) * n);
    lemma_square_grows(b * k, (qy + 1) * n);
    let total = (a * k) * (a * k) + (b * k) * (b * k);
    assert(total == big * (length * length)) by (nonlinear_arith)
        requires
            total == (a * k) * (a * k) + (b * k) * (b * k),
            k == length * FINE,
            big == (dx * dx + dy * dy) * FINE * FINE,
            a == dx || a == -dx,
            b == dy || b == -dy,
    ;
    assert((qx * n) * (qx * n) + (qy * n) * (qy * n) == (n * n) * (s.x * s.x + s.y * s.y))
        by (nonlinear_arith)
        requires
            s.x == qx || s.x == -qx,
            s.y == qy || s.y == -qy,
    ;
    assert(big * (length * length) < ((n + 1) * (n + 1)) * (length * length))
        by (nonlinear_arith)
        requires
            big < (n + 1) * (n + 1),
            length > 0,
    ;
    let ax: int = if s.x >= 0 {
        s.x as int
    } else {
        -s.x
    };
    let ay: int = if s.y >= 0 {
        s.y as int
    } else {
        -s.y
    };
    assert(ax == qx && ay == qy);
    assert(((qx + 1) * n) * ((qx + 1) * n) + ((qy + 1) * n) * ((qy + 1) * n) == (n * n) * ((qx
        + 1) * (qx + 1) + (qy + 1) * (qy + 1))) by (nonlinear_arith);
    assert((n * n) * (length * length) <= big * (length * length)) by (nonlinear_arith)
        requires
            n * n <= big,
            length >= 0,
    ;
    assert((ax + 1) * (ax + 1) + (ay + 1) * (ay + 1) > length * length) by (nonlinear_arith)
        requires
            (n * n) * ((ax + 1) * (ax + 1) + (ay + 1) * (ay + 1)) > (n * n) * (length * length),
            n >= 65_536,
    ;
}

/// A point placed around a center lies in the ring that the distances
/// describe, up to rounding: no nearer than 3 steps short of the least
/// distance, and less than 9 steps beyond the greatest. This holds where the
/// center is far enough from the edge of the plane for the ring to fit, for
/// distances of at least 6 steps and at most ten times `FINE`.
pub proof fn lemma_around_is_in_ring(center: Vec2, pos: Vec2, dist_min: u32, dist_max: u32)
    requires
        is_around(center, pos, dist_min, dist_max),
        6 <= dist_min,
        dist_max <= 10 * FINE,
        -i32::MAX + dist_max <= center.x <= i32::MAX - dist_max,
        -i32::MAX + dist_max <= center.y <= i32::MAX - dist_max,
    ensures
        (dist_min - 3) * (dist_min - 3) < distance_squared(pos, center),
        distance_squared(pos, center) < (dist_max + 9) * (dist_max + 9),
{
    let (dir, dist): (Vec2, u32) = choose|dir: Vec2, dist: u32|
        is_direction(dir) && dist_min <= dist < dist_max && pos == #[trigger] placed(
            center,
            dir,
            dist,
        );
    let len = dist as int;
    let s = scaled(dir.x as int, dir.y as int, dist as nat);
    let n = fine_length(dir.x as int, dir.y as int) as int;
    lemma_scaled_bounded(dir.x as int, dir.y as int, dist as nat);
    lemma_scaled_length(dir.x as int, dir.y as int, dist as nat);
    assert(pos.x - center.x == s.x && pos.y - center.y == s.y);
    let d2 = s.x * s.x + s.y * s.y;
    assert(distance_squared(pos, center) == d2);
    let ax: int = if s.x >= 0 {
        s.x as int
    } else {
        -s.x
    };
    let ay: int = if s.y >= 0 {
        s.y as int
    } else {
        -s.y
    };
    // not too near
    assert(d2 == ax * ax + ay * ay) by (nonlinear_arith)
        requires
            d2 == s.x * s.x + s.y * s.y,
            ax == s.x || ax == -s.x,
            ay == s.y || ay == -s.y,
    ;
    assert(d2 > len * len - 4 * len - 2) by (nonlinear_arith)
        requires
            d2 == ax * ax + ay * ay,
            (ax + 1) * (ax + 1) + (ay + 1) * (ay + 1) > len * len,
            0 <= ax <= len,
            0 <= ay <= len,
    ;
    assert(len * len - 4 * len - 2 >= (dist_min - 3) * (dist_min - 3)) by (nonlinear_arith)
        requires
            6 <= dist_min <= len,
    ;
    // not too far
    assert(((n + 1) * (n + 1)) * (len * len) <= (n * n) * ((len + 10) * (len + 10)))
        by (nonlinear_arith)
        requires
            n >= 65_536,
            0 <= len <= 655_360,
    ;
    assert(d2 < (len + 10) * (len + 10)) by (nonlinear_arith)
        requires
            (n * n) * d2 < (n * n) * ((len + 10) * (len + 10)),
            n >= 65_536,
    ;
    assert((len + 10) * (len + 10) <= (dist_max + 9) * (dist_max + 9)) by (nonlinear_arith)
        requires
            0 <= len + 1 <= dist_max,
    ;
}

/// The square root of `n`, rounded down.
pub fn isqrt(n: u128) -> (r: u64)
    ensures
        is_floor_sqrt(n as nat, r as nat),
        r as nat == floor_sqrt(n as nat),
{
    let mut lo: u128 = 0;
    let mut hi: u128 = 0x1_0000_0000_0000_0000;
    assert(0x1_0000_0000_0000_0000int * 0x1_0000_0000_0000_0000int
        == 0x1_0000_0000_0000_0000_0000_0000_0000_0000int) by (nonlinear_arith);
    while hi - lo > 1
        invariant
            lo < hi <= 0x1_0000_0000_0000_0000,
            lo * lo <= n,
            n < hi * hi,
        decreases hi - lo,
    {
        let mid: u128 = lo + (hi - lo) / 2;
        assert(mid * mid <= 0xffff_ffff_ffff_ffff * 0xffff_ffff_ffff_ffff) by (nonlinear_arith)
            requires
                0 <= mid <= 0xffff_ffff_ffff_ffff,
        ;
        if mid * mid <= n {
            lo = mid;
        } else {
            hi = mid;
        }
    }
    proof {
        assert(hi == lo + 1);
        lemma_floor_sqrt_is(n as nat, lo as nat);
    }
    lo as u64
}

/// The nearest `i32` to `v`.
pub fn clamp_to_i32(v: i128) -> (r: i32)
    ensures
        r == clamp_i32(v as int),
{
    if v < -0x8000_0000 {
        -0x8000_0000
    } else if v > 0x7fff_ffff {
        0x7fff_ffff
    } else {
        v as i32
    }
}

/// The size of `c`, without its sign.
fn magnitude(c: i64) -> (m: u128)
    requires
        -0xffff_ffff <= c <= 0xffff_ffff,
    ensures
        m == if c >= 0 { c as int } else { -c as int },
        m <= 0xffff_ffff,
{
    if c >= 0 {
        c as u128
    } else {
        (-c) as u128
    }
}

/// One coordinate of the rescaled vector.
fn scale_coordinate(c: i64, norm: u64, length: u32) -> (r: i32)
    requires
        -0xffff_ffff <= c <= 0xffff_ffff,
        norm > 0,
    ensures
        r == clamp_i32(scale_part(c as int, norm as nat, length as nat)),
{
    let m: u128 = magnitude(c);
    assert(m * length <= 0xffff_fffe_0000_0001) by (nonlinear_arith)
        requires
            0 <= m <= 0xffff_ffff,
            0 <= length <= 0xffff_ffff,
    ;
    let scaled_up: u128 = m * (length as u128) * (FINE as u128);
    let q: u128 = scaled_up / (norm as u128);
    assert(q <= scaled_up) by (nonlinear_arith)
        requires
            q == scaled_up / (norm as u128),
            norm > 0,
            scaled_up >= 0,
    ;
    if c >= 0 {
        clamp_to_i32(q as i128)
    } else {
        clamp_to_i32(-(q as i128))
    }
}

/// Brings the vector `(dx, dy)`, the difference of two points of the plane,
/// to the given length, keeping its direction. The zero vector stays zero.
pub(crate) fn scale_to_length(dx: i64, dy: i64, length: u32) -> (r: Vec2)
    requires
        -0xffff_ffff <= dx <= 0xffff_ffff,
        -0xffff_ffff <= dy <= 0xffff_ffff,
    ensures
        r == scaled(dx as int, dy as int, length as nat),
{
    if dx == 0 && dy == 0 {
        return Vec2 { x: 0, y: 0 };
    }
    let mx: u128 = magnitude(dx);
    let my: u128 = magnitude(dy);
    assert(mx * mx <= 0xffff_fffe_0000_0001) by (nonlinear_arith)
        requires
            0 <= mx <= 0xffff_ffff,
    ;
    assert(my * my <= 0xffff_fffe_0000_0001) by (nonlinear_arith)
        requires
            0 <= my <= 0xffff_ffff,
    ;
    assert(mx * mx == dx * dx) by (nonlinear_arith)
        requires
            mx == dx || mx == -dx,
    ;
    assert(my * my == dy * dy) by (nonlinear_arith)
        requires
            my == dy || my == -dy,
    ;
    assert(mx * mx + my * my >= 1) by (nonlinear_arith)
        requires
            mx > 0 || my > 0,
            mx >= 0,
            my >= 0,
    ;
    let sum: u128 = mx * mx + my * my;
    assert(65_536 <= sum * FINE * FINE <= 0x1_ffff_fffc_0000_0002_0000_0000 && sum * FINE
        <= 0x1_ffff_fffc_0000_0002_0000) by (nonlinear_arith)
        requires
            1 <= sum <= 0x1_ffff_fffc_0000_0002,
            FINE == 65_536,
    ;
    let square: u128 = sum * (FINE as u128) * (FINE as u128);
    let norm: u64 = isqrt(square);
    assert(norm > 0) by {
        // the square is at least FINE * FINE, so its root is at least FINE
        if norm == 0 {
            assert((norm + 1) * (norm + 1) == 1) by (nonlinear_arith)
                requires
                    norm == 0,
            ;
        }
    }
    Vec2 { x: scale_coordinate(dx, norm, length), y: scale_coordinate(dy, norm, length) }
}

impl Vec2 {
    /// The origin, and the displacement that moves nothing.
    pub open spec fn zero() -> Vec2 {
        Vec2 { x: 0, y: 0 }
    }

    pub fn new(x: i32, y: i32) -> (v: Vec2)
        ensures
            v == (Vec2 { x, y }),
    {
        Vec2 { x, y }
    }

    /// This vector brought to the given length, keeping its direction. The
    /// zero vector has no direction and stays zero.
    pub fn with_length(self, length: u32) -> (r: Vec2)
        ensures
            r == scaled(self.x as int, self.y as int, length as nat),
    {
        scale_to_length(self.x as i64, self.y as i64, length)
    }

    /// The displacement of the given length that points from `self` to
    /// `target`; zero where the two coincide.
    pub fn toward(self, target: Vec2, length: u32) -> (r: Vec2)
        ensures
            r == scaled(target.x - self.x, target.y - self.y, length as nat),
    {
        scale_to_length(target.x as i64 - self.x as i64, target.y as i64 - self.y as i64, length)
    }

    /// This point moved by `(dx, dy)`, stopping at the edge of the plane.
    pub fn shift(self, dx: i64, dy: i64) -> (r: Vec2)
        ensures
            r == shifted(self, dx as int, dy as int),
    {
        Vec2 {
            x: clamp_to_i32(self.x as i128 + dx as i128),
            y: clamp_to_i32(self.y as i128 + dy as i128),
        }
    }
}

/// The point at distance `dist` from `pos` in direction `dir`. A zero `dir`
/// gives `pos` itself.
pub fn place_around(pos: Vec2, dir: Vec2, dist: u32) -> (r: Vec2)
    ensures
        r == placed(pos, dir, dist),
{
    let offset = dir.with_length(dist);
    pos.shift(offset.x as i64, offset.y as i64)
}

/// Calls `rand::Rng::gen_range(lo..hi)` on `rand::thread_rng()`, the generator
/// of the calling thread, which the operating system seeds. The range must not
/// be empty, or the call panics; the draw then lies in the range, its lower
/// end included and its upper end excluded. This is taken on trust from the
/// `rand` crate, and nothing else is claimed of a draw: two calls with the
/// same range may differ.
#[verifier::external_body]
pub(crate) fn uniform(lo: i64, hi: i64) -> (r: i64)
    requires
        lo < hi,
    ensures
        lo <= r < hi,
{
    rand::thread_rng().gen_range(lo..hi)
}

/// Decides whether a point drawn from the square around the origin can serve
/// as a direction: it can if it is not the origin and lies in the disc. Points
/// in the corners are turned down, so that every angle is as likely as any other.
pub fn accept_direction(x: i64, y: i64) -> (r: Option<Vec2>)
    ensures
        r is Some <==> (x != 0 || y != 0) && x * x + y * y <= DIRECTION_RADIUS * DIRECTION_RADIUS,
        r is Some ==> r->0.x == x && r->0.y == y && is_direction(r->0),
{
    if x < -(DIRECTION_RADIUS as i64) || x > DIRECTION_RADIUS as i64 || y < -(
    DIRECTION_RADIUS as i64) || y > DIRECTION_RADIUS as i64 {
        assert(x * x + y * y > DIRECTION_RADIUS * DIRECTION_RADIUS) by (nonlinear_arith)
            requires
                x < -DIRECTION_RADIUS || x > DIRECTION_RADIUS || y < -DIRECTION_RADIUS || y
                    > DIRECTION_RADIUS,
                DIRECTION_RADIUS == 1_000_000,
        ;
        return None;
    }
    assert(0 <= x * x <= 1_000_000 * 1_000_000) by (nonlinear_arith)
        requires
            -1_000_000 <= x <= 1_000_000,
    ;
    assert(0 <= y * y <= 1_000_000 * 1_000_000) by (nonlinear_arith)
        requires
            -1_000_000 <= y <= 1_000_000,
    ;
    if x == 0 && y == 0 {
        return None;
    }
    if x * x + y * y > (DIRECTION_RADIUS as i64) * (DIRECTION_RADIUS as i64) {
        return None;
    }
    Some(Vec2 { x: x as i32, y: y as i32 })
}

/// Draws a direction, every angle being as likely as any other: points of the
/// square around the origin are drawn until one is accepted. After
/// `DIRECTION_ATTEMPTS` refusals in a row the direction along +x is taken.
pub fn random_direction() -> (d: Vec2)
    ensures
        is_direction(d),
{
    let mut tries: u32 = 0;
    while tries < DIRECTION_ATTEMPTS
        invariant
            tries <= DIRECTION_ATTEMPTS,
        decreases DIRECTION_ATTEMPTS - tries,
    {
        let x: i64 = uniform(-(DIRECTION_RADIUS as i64), DIRECTION_RADIUS as i64 + 1);
        let y: i64 = uniform(-(DIRECTION_RADIUS as i64), DIRECTION_RADIUS as i64 + 1);
        if let Some(d) = accept_direction(x, y) {
            return d;
        }
        tries = tries + 1;
    }
    Vec2 { x: DIRECTION_RADIUS, y: 0 }
}

/// Draws a distance from `dist_min .. dist_max`.
pub fn random_distance(dist_min: u32, dist_max: u32) -> (d: u32)
    requires
        dist_min < dist_max,
    ensures
        dist_min <= d < dist_max,
{
    uniform(dist_min as i64, dist_max as i64) as u32
}

/// A random position around `pos`: in a direction in which every angle is as
/// likely as any other, at a distance drawn evenly from `dist_min .. dist_max`.
pub fn get_random_position_around(pos: Vec2, dist_min: u32, dist_max: u32) -> (r: Vec2)
    requires
        dist_min < dist_max,
    ensures
        is_around(pos, r, dist_min, dist_max),
{
    let dir = random_direction();
    let dist: u32 = random_distance(dist_min, dist_max);
    place_around(pos, dir, dist)
}

} // verus!
