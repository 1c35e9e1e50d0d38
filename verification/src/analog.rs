use vstd::prelude::*;

verus! {

/// Full deflection: the fixed-point value that stands for 1.0. Every analog
/// value of the library is a whole number of these millionths.
pub const UNIT: u32 = 1_000_000;

/// A sum of samples, cut off at full deflection.
pub open spec fn clamp_to_unit(total: nat) -> u32 {
    if total >= UNIT {
        UNIT
    } else {
        total as u32
    }
}

/// A raw value as it is reported: itself where it reaches the deadzone,
/// zero below it. The threshold is inclusive.
pub open spec fn deadzone_applied(raw: u32, deadzone: u32) -> u32 {
    if raw >= deadzone {
        raw
    } else {
        0
    }
}

/// Applies the deadzone to a raw value.
pub fn apply_deadzone(raw: u32, deadzone: u32) -> (value: u32)
    ensures
        value == deadzone_applied(raw, deadzone),
{
    if raw >= deadzone {
        raw
    } else {
        0
    }
}

/// `m` is the least natural number whose square reaches `n`.
pub open spec fn is_ceil_sqrt(n: nat, m: nat) -> bool {
    n <= m * m && (m == 0 || (m - 1) * (m - 1) < n)
}

/// The square root of `n`, rounded up.
pub open spec fn ceil_sqrt(n: nat) -> nat {
    choose|m: nat| is_ceil_sqrt(n, m)
}

/// At most one number is the rounded-up square root of `n`.
pub proof fn lemma_ceil_sqrt_unique(n: nat, a: nat, b: nat)
    requires
        is_ceil_sqrt(n, a),
        is_ceil_sqrt(n, b),
    ensures
        a == b,
{
    if a < b {
        assert(a * a <= (b - 1) * (b - 1)) by (nonlinear_arith)
            requires
                0 <= a <= b - 1,
        ;
    }
    if b < a {
        assert(b * b <= (a - 1) * (a - 1)) by (nonlinear_arith)
            requires
                0 <= b <= a - 1,
        ;
    }
}

/// Whatever satisfies `is_ceil_sqrt` is the value of `ceil_sqrt`.
pub proof fn lemma_ceil_sqrt_is(n: nat, m: nat)
    requires
        is_ceil_sqrt(n, m),
    ensures
        ceil_sqrt(n) == m,
{
    lemma_ceil_sqrt_unique(n, ceil_sqrt(n), m);
}

/// Every natural number has a rounded-up square root.
pub proof fn lemma_ceil_sqrt_exists(n: nat)
    ensures
        is_ceil_sqrt(n, ceil_sqrt(n)),
    decreases n,
{
    if n == 0 {
        assert(is_ceil_sqrt(0, 0));
    } else {
        lemma_ceil_sqrt_exists((n - 1) as nat);
        let r = ceil_sqrt((n - 1) as nat);
        if n <= r * r {
            assert(is_ceil_sqrt(n, r));
        } else {
            assert((r + 1) * (r + 1) >= n) by (nonlinear_arith)
                requires
                    r * r == n - 1,
                    r >= 0,
            ;
            assert(is_ceil_sqrt(n, (r + 1) as nat));
        }
    }
}

/// Computes the square root of `n`, rounded up, by bisection.
pub fn ceil_sqrt_u64(n: u64) -> (m: u64)
    ensures
        is_ceil_sqrt(n as nat, m as nat),
        m as nat == ceil_sqrt(n as nat),
        m <= 0x1_0000_0000,
{
    let mut lo: u64 = 0;
    let mut hi: u64 = 0x1_0000_0000;
    assert(n <= hi * hi) by (nonlinear_arith)
        requires
            hi == 0x1_0000_0000,
            n <= u64::MAX,
    ;
    while lo < hi
        invariant
            lo <= hi <= 0x1_0000_0000,
            n <= hi * hi,
            lo == 0 || (lo - 1) * (lo - 1) < n,
        decreases hi - lo,
    {
        let mid: u64 = lo + (hi - lo) / 2;
        assert(mid * mid <= 0xFFFF_FFFF * 0xFFFF_FFFF) by (nonlinear_arith)
            requires
                0 <= mid <= 0xFFFF_FFFF,
        ;
        if mid * mid >= n {
            hi = mid;
        } else {
            lo = mid + 1;
        }
    }
    proof {
        lemma_ceil_sqrt_is(n as nat, lo as nat);
    }
    lo
}

/// The size of a signed value.
pub open spec fn magnitude(c: int) -> nat {
    if c >= 0 {
        c as nat
    } else {
        (-c) as nat
    }
}

/// The squared length of the vector `(x, y)`.
pub open spec fn length_squared(x: int, y: int) -> nat {
    (x * x + y * y) as nat
}

/// One component of a vector of length `m`, after the vector is rescaled
/// to unit length: `c * UNIT / m`, rounded towards zero.
pub open spec fn rescaled(c: int, m: int) -> int {
    if c >= 0 {
        (c * UNIT) / m
    } else {
        -((-c * UNIT) / m)
    }
}

/// Whether the vector `(x, y)` is longer than full deflection.
pub open spec fn exceeds_unit(x: int, y: int) -> bool {
    length_squared(x, y) > UNIT * UNIT
}

/// The vector `(x, y)`, rescaled to unit length where it is longer than
/// that. The length is rounded up before dividing and each quotient is
/// rounded towards zero, so the result is never longer than `UNIT`.
pub open spec fn unit_clamped(x: int, y: int) -> (int, int) {
    if exceeds_unit(x, y) {
        let m = ceil_sqrt(length_squared(x, y)) as int;
        (rescaled(x, m), rescaled(y, m))
    } else {
        (x, y)
    }
}

proof fn lemma_square_bound(a: nat, bound: nat)
    requires
        a <= bound,
    ensures
        a * a <= bound * bound,
{
    assert(a * a <= bound * bound) by (nonlinear_arith)
        requires
            0 <= a <= bound,
    ;
}

proof fn lemma_root_dominates(a: nat, n: nat, m: nat)
    requires
        a * a <= n,
        n <= m * m,
    ensures
        a <= m,
{
    if a > m {
        assert(a * a >= (m + 1) * (m + 1)) by (nonlinear_arith)
            requires
                a >= m + 1,
                m >= 0,
        ;
        assert((m + 1) * (m + 1) > m * m) by (nonlinear_arith)
            requires
                m >= 0,
        ;
    }
}

proof fn lemma_quotient(a: int, m: int)
    requires
        a >= 0,
        m > 0,
    ensures
        ((a * UNIT) / m) * m <= a * UNIT,
        a * UNIT < ((a * UNIT) / m + 1) * m,
        0 <= (a * UNIT) / m,
{
    let t: int = a * UNIT;
    assert((t / m) * m <= t && t < (t / m + 1) * m && 0 <= t / m) by (nonlinear_arith)
        requires
            m > 0,
            t >= 0,
    ;
}

proof fn lemma_rescaled_sizes(a: int, b: int, m: int)
    requires
        a >= 0,
        b >= 0,
        m >= UNIT,
        a * a + b * b <= m * m,
    ensures
        ({
            let p = (a * UNIT) / m;
            let q = (b * UNIT) / m;
            p * p + q * q <= UNIT * UNIT && p <= a && q <= b && p <= UNIT && q <= UNIT
        }),
{
    let u = UNIT as int;
    let p = (a * UNIT) / m;
    let q = (b * UNIT) / m;
    lemma_quotient(a, m);
    lemma_quotient(b, m);
    let pm = p * m;
    let qm = q * m;
    let au = a * u;
    let bu = b * u;
    assert(pm * pm <= au * au) by (nonlinear_arith)
        requires
            0 <= pm <= au,
    ;
    assert(qm * qm <= bu * bu) by (nonlinear_arith)
        requires
            0 <= qm <= bu,
    ;
    assert(pm * pm == (p * p) * (m * m)) by (nonlinear_arith)
        requires
            pm == p * m,
    ;
    assert(qm * qm == (q * q) * (m * m)) by (nonlinear_arith)
        requires
            qm == q * m,
    ;
    assert(au * au + bu * bu == (a * a + b * b) * (u * u)) by (nonlinear_arith)
        requires
            au == a * u,
            bu == b * u,
    ;
    assert((a * a + b * b) * (u * u) <= (m * m) * (u * u)) by (nonlinear_arith)
        requires
            a * a + b * b <= m * m,
    ;
    let s = p * p + q * q;
    let mm = m * m;
    let uu = u * u;
    assert(s * mm == (p * p) * mm + (q * q) * mm) by (nonlinear_arith)
        requires
            s == p * p + q * q,
    ;
    assert(mm > 0) by (nonlinear_arith)
        requires
            mm == m * m,
            m > 0,
    ;
    assert(s <= uu) by (nonlinear_arith)
        requires
            s * mm <= mm * uu,
            mm > 0,
            s >= 0,
            uu >= 0,
    ;
    assert(a * a <= m * m && b * b <= m * m) by (nonlinear_arith)
        requires
            a * a + b * b <= m * m,
    ;
    lemma_root_dominates(a as nat, (a * a) as nat, m as nat);
    lemma_root_dominates(b as nat, (b * b) as nat, m as nat);
    assert(p <= u) by (nonlinear_arith)
        requires
            p * m <= a * u,
            a <= m,
            m > 0,
            p >= 0,
            u >= 0,
    ;
    assert(q <= u) by (nonlinear_arith)
        requires
            q * m <= b * u,
            b <= m,
            m > 0,
            q >= 0,
            u >= 0,
    ;
    assert(p <= a) by (nonlinear_arith)
        requires
            p * m <= a * u,
            u <= m,
            m > 0,
            p >= 0,
            a >= 0,
            u > 0,
    ;
    assert(q <= b) by (nonlinear_arith)
        requires
            q * m <= b * u,
            u <= m,
            m > 0,
            q >= 0,
            b >= 0,
            u > 0,
    ;
}

/// A vector cut to unit length is no longer than `UNIT`, no component of
/// it has grown or changed sign, and equal components stay equal.
pub proof fn lemma_unit_clamped(x: int, y: int)
    ensures
        length_squared(unit_clamped(x, y).0, unit_clamped(x, y).1) <= UNIT * UNIT,
        magnitude(unit_clamped(x, y).0) <= magnitude(x),
        magnitude(unit_clamped(x, y).1) <= magnitude(y),
        magnitude(unit_clamped(x, y).0) <= UNIT,
        magnitude(unit_clamped(x, y).1) <= UNIT,
        x >= 0 ==> unit_clamped(x, y).0 >= 0,
        x <= 0 ==> unit_clamped(x, y).0 <= 0,
        y >= 0 ==> unit_clamped(x, y).1 >= 0,
        y <= 0 ==> unit_clamped(x, y).1 <= 0,
        x == y ==> unit_clamped(x, y).0 == unit_clamped(x, y).1,
        !exceeds_unit(x, y) ==> unit_clamped(x, y) == (x, y),
{
    let a = magnitude(x);
    let b = magnitude(y);
    assert(x * x == a * a && y * y == b * b) by (nonlinear_arith)
        requires
            a == if x >= 0 { x } else { -x },
            b == if y >= 0 { y } else { -y },
    ;
    assert(a * a >= 0 && b * b >= 0) by (nonlinear_arith);
    let n = length_squared(x, y);
    if exceeds_unit(x, y) {
        lemma_ceil_sqrt_exists(n);
        let m = ceil_sqrt(n);
        assert(m >= UNIT) by {
            if m < UNIT {
                lemma_square_bound(m, UNIT as nat);
            }
        }
        lemma_rescaled_sizes(a as int, b as int, m as int);
        let p = (a * UNIT) / (m as int);
        let q = (b * UNIT) / (m as int);
        let cx = rescaled(x, m as int);
        let cy = rescaled(y, m as int);
        assert(cx * cx == p * p) by (nonlinear_arith)
            requires
                cx == p || cx == -p,
        ;
        assert(cy * cy == q * q) by (nonlinear_arith)
            requires
                cy == q || cy == -q,
        ;
    } else {
        lemma_root_dominates(a, n, UNIT as nat);
        lemma_root_dominates(b, n, UNIT as nat);
    }
}

/// Cutting a vector to unit length keeps its proportions to within one
/// unit: with `a`, `b` the sizes of the components before and `p`, `q`
/// after, `b * p` and `a * q` differ by no more than `a` or `b`.
pub proof fn lemma_unit_clamped_proportion(x: int, y: int)
    requires
        exceeds_unit(x, y),
    ensures
        ({
            let a = magnitude(x) as int;
            let b = magnitude(y) as int;
            let p = magnitude(unit_clamped(x, y).0) as int;
            let q = magnitude(unit_clamped(x, y).1) as int;
            -b <= b * p - a * q <= a
        }),
{
    let a = magnitude(x) as int;
    let b = magnitude(y) as int;
    assert(x * x == a * a && y * y == b * b) by (nonlinear_arith)
        requires
            a == if x >= 0 { x } else { -x },
            b == if y >= 0 { y } else { -y },
    ;
    assert(a * a >= 0 && b * b >= 0) by (nonlinear_arith);
    let n = length_squared(x, y);
    lemma_ceil_sqrt_exists(n);
    let m = ceil_sqrt(n) as int;
    assert(m >= UNIT) by {
        if m < UNIT {
            lemma_square_bound(m as nat, UNIT as nat);
        }
    }
    lemma_quotient(a, m);
    lemma_quotient(b, m);
    let p = (a * UNIT) / m;
    let q = (b * UNIT) / m;
    let au = a * UNIT;
    let bu = b * UNIT;
    if a > 0 && b > 0 {
        assert(au * b == bu * a) by (nonlinear_arith)
            requires
                au == a * UNIT,
                bu == b * UNIT,
        ;
        assert(m * (b * p - a * q) < m * a && m * (b * p - a * q) > -(m * b)) by (nonlinear_arith)
            requires
                p * m <= au,
                au < (p + 1) * m,
                q * m <= bu,
                bu < (q + 1) * m,
                au * b == bu * a,
                a > 0,
                b > 0,
                m > 0,
        ;
        assert(b * p - a * q < a && b * p - a * q > -b) by (nonlinear_arith)
            requires
                m * (b * p - a * q) < m * a,
                m * (b * p - a * q) > -(m * b),
                m > 0,
        ;
    } else {
        assert(b * p == 0 && a * q == 0) by (nonlinear_arith)
            requires
                a == 0 || b == 0,
                p * m <= a * UNIT,
                q * m <= b * UNIT,
                p >= 0,
                q >= 0,
                m > 0,
        ;
    }
}

/// One component loses less than one part in `m` to the rounding.
proof fn lemma_component_reach(a: int, p: int, m: int)
    requires
        0 <= a <= m,
        m >= UNIT,
        p == (a * UNIT) / m,
    ensures
        (p * p) * (m * m) >= (a * a) * (UNIT * UNIT) - 2 * (UNIT * (m * m)),
{
    let u = UNIT as int;
    lemma_quotient(a, m);
    let e = a * u - p * m;
    assert((p + 1) * m == p * m + m) by (nonlinear_arith);
    let pm = p * m;
    let au = a * u;
    assert(pm * pm == au * au - 2 * (au * e) + e * e) by (nonlinear_arith)
        requires
            pm == au - e,
    ;
    assert(e * e >= 0) by (nonlinear_arith);
    assert(au * e <= u * (m * m)) by (nonlinear_arith)
        requires
            au == a * u,
            0 <= a <= m,
            0 <= e < m,
            u >= 0,
    ;
    assert(pm * pm == (p * p) * (m * m)) by (nonlinear_arith)
        requires
            pm == p * m,
    ;
    assert(au * au == (a * a) * (u * u)) by (nonlinear_arith)
        requires
            au == a * u,
    ;
}

/// A vector that had to be cut is all but of unit length afterwards: the
/// rounding costs it less than four units.
pub proof fn lemma_unit_clamped_reach(x: int, y: int)
    requires
        exceeds_unit(x, y),
    ensures
        length_squared(unit_clamped(x, y).0, unit_clamped(x, y).1) >= (UNIT - 4) * (UNIT - 4),
{
    let u = UNIT as int;
    let a = magnitude(x) as int;
    let b = magnitude(y) as int;
    assert(x * x == a * a && y * y == b * b) by (nonlinear_arith)
        requires
            a == if x >= 0 { x } else { -x },
            b == if y >= 0 { y } else { -y },
    ;
    assert(a * a >= 0 && b * b >= 0) by (nonlinear_arith);
    let n = length_squared(x, y) as int;
    lemma_ceil_sqrt_exists(n as nat);
    let m = ceil_sqrt(n as nat) as int;
    assert(m >= u) by {
        if m < u {
            lemma_square_bound(m as nat, u as nat);
        }
    }
    lemma_root_dominates(a as nat, n as nat, m as nat);
    lemma_root_dominates(b as nat, n as nat, m as nat);
    lemma_quotient(a, m);
    lemma_quotient(b, m);
    let p = (a * u) / m;
    let q = (b * u) / m;
    let cx = rescaled(x, m);
    let cy = rescaled(y, m);
    assert(cx * cx == p * p) by (nonlinear_arith)
        requires
            cx == p || cx == -p,
    ;
    assert(cy * cy == q * q) by (nonlinear_arith)
        requires
            cy == q || cy == -q,
    ;
    let mm = m * m;
    let um = u * mm;
    lemma_component_reach(a, p, m);
    lemma_component_reach(b, q, m);
    let s = p * p + q * q;
    assert(s * mm == (p * p) * mm + (q * q) * mm) by (nonlinear_arith)
        requires
            s == p * p + q * q,
    ;
    assert((a * a) * (u * u) + (b * b) * (u * u) == n * (u * u)) by (nonlinear_arith)
        requires
            n == a * a + b * b,
    ;
    assert(n * (u * u) > (u * u) * mm - 2 * um) by (nonlinear_arith)
        requires
            (m - 1) * (m - 1) < n,
            1 <= u <= m,
            mm == m * m,
            um == u * mm,
    ;
    assert(s * mm > (u * u - 6 * u) * mm) by (nonlinear_arith)
        requires
            s * mm == (p * p) * mm + (q * q) * mm,
            (p * p) * mm >= (a * a) * (u * u) - 2 * um,
            (q * q) * mm >= (b * b) * (u * u) - 2 * um,
            (a * a) * (u * u) + (b * b) * (u * u) == n * (u * u),
            n * (u * u) > (u * u) * mm - 2 * um,
            um == u * mm,
    ;
    assert(s > u * u - 6 * u) by (nonlinear_arith)
        requires
            s * mm > (u * u - 6 * u) * mm,
            mm == m * m,
            m > 0,
    ;
}

/// The size of a signed 32-bit value.
fn size_of(c: i32) -> (a: u64)
    ensures
        a as nat == magnitude(c as int),
        a <= 0x8000_0000,
{
    if c >= 0 {
        c as u64
    } else {
        (-(c as i64)) as u64
    }
}

/// Gives a size the sign of `like`.
fn signed_like(size: u64, like: i32) -> (c: i32)
    requires
        size <= i32::MAX,
    ensures
        c as int == if like >= 0 { size as int } else { -(size as int) },
{
    if like >= 0 {
        size as i32
    } else {
        -(size as i32)
    }
}

/// Computes the squared length of the vector `(x, y)`.
pub fn squared_length(x: i32, y: i32) -> (n: u64)
    ensures
        n as nat == length_squared(x as int, y as int),
{
    let a = size_of(x);
    let b = size_of(y);
    proof {
        lemma_square_bound(a as nat, 0x8000_0000);
        lemma_square_bound(b as nat, 0x8000_0000);
        assert(x * x == a * a && y * y == b * b) by (nonlinear_arith)
            requires
                a == if x >= 0 { x as int } else { -(x as int) },
                b == if y >= 0 { y as int } else { -(y as int) },
        ;
    }
    a * a + b * b
}

/// Cuts the vector `(x, y)` to unit length where it is longer than that,
/// keeping its direction.
pub fn clamp_to_unit_length(x: i32, y: i32) -> (r: (i32, i32))
    ensures
        (r.0 as int, r.1 as int) == unit_clamped(x as int, y as int),
{
    let n = squared_length(x, y);
    let unit: u64 = UNIT as u64;
    if n > unit * unit {
        let a = size_of(x);
        let b = size_of(y);
        let m = ceil_sqrt_u64(n);
        proof {
            assert(x * x == a * a && y * y == b * b) by (nonlinear_arith)
                requires
                    a == if x >= 0 { x as int } else { -(x as int) },
                    b == if y >= 0 { y as int } else { -(y as int) },
            ;
            assert(m >= UNIT) by {
                if m < UNIT {
                    lemma_square_bound(m as nat, UNIT as nat);
                }
            }
            lemma_rescaled_sizes(a as int, b as int, m as int);
            assert(a * unit <= 0x8000_0000 * 1_000_000) by (nonlinear_arith)
                requires
                    0 <= a <= 0x8000_0000,
                    unit == 1_000_000,
            ;
            assert(b * unit <= 0x8000_0000 * 1_000_000) by (nonlinear_arith)
                requires
                    0 <= b <= 0x8000_0000,
                    unit == 1_000_000,
            ;
        }
        let p: u64 = a * unit / m;
        let q: u64 = b * unit / m;
        (signed_like(p, x), signed_like(q, y))
    } else {
        (x, y)
    }
}

} // verus!
