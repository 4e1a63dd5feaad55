//! Integer arithmetic vocabulary shared by the contracts: Rust's rounding
//! toward zero, range predicates and integer square roots.
use vstd::prelude::*;

verus! {

pub open spec fn in_i128(x: int) -> bool {
    i128::MIN <= x <= i128::MAX
}

pub open spec fn in_i32(x: int) -> bool {
    i32::MIN <= x <= i32::MAX
}

/// Division rounding toward zero, as Rust's `/` on signed integers.
pub open spec fn tdiv(a: int, b: int) -> int {
    if a >= 0 && b > 0 {
        a / b
    } else if a < 0 && b > 0 {
        -((-a) / b)
    } else if a >= 0 && b < 0 {
        -(a / (-b))
    } else {
        (-a) / (-b)
    }
}

pub open spec fn abs(x: int) -> int {
    if x < 0 { -x } else { x }
}

pub open spec fn min(a: int, b: int) -> int {
    if a < b { a } else { b }
}

pub open spec fn max(a: int, b: int) -> int {
    if a > b { a } else { b }
}

pub open spec fn clamp(v: int, lo: int, hi: int) -> int {
    if v < lo { lo } else if v > hi { hi } else { v }
}

pub open spec fn sq(t: int) -> int {
    t * t
}

/// Every `t >= 0` with `t * t <= n` is at most `x`.
pub open spec fn bounds_roots(n: int, x: int) -> bool {
    forall|t: int| 0 <= t && #[trigger] sq(t) <= n ==> t <= x
}

/// `r` is the integer square root of `n`: the largest `r` with `r * r <= n`.
pub open spec fn is_floor_sqrt(n: int, r: int) -> bool {
    &&& r >= 0
    &&& r * r <= n
    &&& n < (r + 1) * (r + 1)
}

/// The value an integer square root routine returns: 0 for `n <= 0`,
/// the floor of the square root otherwise.
pub open spec fn sqrt_result(n: int, r: int) -> bool {
    if n <= 0 { r == 0 } else { is_floor_sqrt(n, r) }
}

pub proof fn lemma_newton_step_bounds_root(n: int, x: int, t: int)
    requires
        n > 0,
        x > 0,
        t >= 0,
        t * t <= n,
    ensures
        (x + n / x) / 2 >= t,
{
    let q = n / x;
    assert(n < x * (q + 1)) by (nonlinear_arith)
        requires x > 0, q == n / x;
    if x + q < 2 * t {
        assert(x * (q + 1) <= x * (2 * t - x)) by (nonlinear_arith)
            requires x > 0, q + 1 <= 2 * t - x;
        assert(x * (2 * t - x) <= t * t) by (nonlinear_arith);
    }
}

pub proof fn lemma_newton_step_decreases(n: int, x: int)
    requires
        n >= 0,
        x > 0,
        x * x > n,
    ensures
        (x + n / x) / 2 < x,
        n / x < x,
{
    let q = n / x;
    assert(x * q <= n) by (nonlinear_arith)
        requires x > 0, q == n / x, n >= 0;
    assert(q < x) by (nonlinear_arith)
        requires x * q <= n, n < x * x, x > 0;
}


pub proof fn lemma_newton_sum_bound(n: int, x: int)
    requires
        n > 0,
        x > 0,
        2 * x <= n + 1,
    ensures
        x + n / x <= n + 1,
        x + n / x >= 1,
{
    let q = n / x;
    assert(x * q <= n && q >= 0) by (nonlinear_arith)
        requires x > 0, q == n / x, n >= 0;
    if x * x > n {
        lemma_newton_step_decreases(n, x);
    } else {
        assert(q >= x) by (nonlinear_arith)
            requires x > 0, q == n / x, x * x <= n;
        assert(x + q <= x * q + 1) by (nonlinear_arith)
            requires x >= 1, q >= 1;
    }
}

/// Newton iteration shared by the square-root routines: from `x = n` and
/// `y = (n + 1) / 2`, step while `y < x`.
pub fn newton_isqrt(n: i128) -> (r: i128)
    requires
        n > 0,
        n < i128::MAX,
    ensures
        is_floor_sqrt(n as int, r as int),
{
    let ghost ni = n as int;
    let mut x: i128 = n;
    let mut y: i128 = (x + 1) / 2;
    proof {
        assert forall|t: int| 0 <= t && #[trigger] sq(t) <= ni implies t <= x by {
            if t > x {
                assert(t * t > x * x) by (nonlinear_arith) requires t > x, x > 0;
                assert(x * x >= x) by (nonlinear_arith) requires x > 0;
            }
        }
        assert(y == (ni + ni / ni) / 2) by {
            assert(ni / ni == 1) by (nonlinear_arith) requires ni > 0;
        }
        assert forall|t: int| 0 <= t && #[trigger] sq(t) <= ni implies t <= y by {
            lemma_newton_step_bounds_root(ni, ni, t);
        }
    }
    while y < x
        invariant
            0 < x <= n,
            0 < y,
            2 * y <= ni + 1,
            n < i128::MAX,
            ni == n as int,
            ni > 0,
            bounds_roots(ni, x as int),
            bounds_roots(ni, y as int),
            y as int == (x as int + ni / (x as int)) / 2,
        decreases x,
    {
        x = y;
        let ghost xi = x as int;
        proof {
            lemma_newton_sum_bound(ni, xi);
        }
        y = (x + n / x) / 2;
        proof {
            assert forall|t: int| 0 <= t && #[trigger] sq(t) <= ni implies t <= y by {
                lemma_newton_step_bounds_root(ni, xi, t);
            }
            lemma_newton_step_bounds_root(ni, xi, 1);
        }
    }
    proof {
        let xi = x as int;
        if xi * xi > ni {
            lemma_newton_step_decreases(ni, xi);
        }
        assert(ni < (xi + 1) * (xi + 1)) by {
            if (xi + 1) * (xi + 1) <= ni {
                assert(sq(xi + 1) <= ni);
                assert(xi + 1 <= xi);
            }
        }
    }
    x
}


/// `a / b` rounded toward zero, for a divisor of either sign.
pub fn div_toward_zero(a: i128, b: i128) -> (r: i128)
    requires
        b != 0,
        !(a == i128::MIN && b == -1),
    ensures
        r == tdiv(a as int, b as int),
{
    if b > 0 {
        a / b
    } else if b == i128::MIN {
        if a == i128::MIN { 1 } else { 0 }
    } else {
        let q = a / (-b);
        assert(q == tdiv(a as int, -(b as int)));
        assert(-q == tdiv(a as int, b as int));
        if b != -1 {
            assert(abs(tdiv(a as int, -(b as int))) <= abs(a as int) / 2) by (nonlinear_arith)
                requires -(b as int) >= 2;
        }
        -q
    }
}

}
