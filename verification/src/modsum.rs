//! Sums of `(d * j) % m` over `j = 1..=n`, computed period by period.
use vstd::arithmetic::div_mod::{lemma_fundamental_div_mod, lemma_mod_multiples_vanish};
use vstd::prelude::*;

verus! {

/// Euclid's greatest common divisor of two non-negative integers.
pub open spec fn spec_gcd(a: int, b: int) -> int
    decreases b,
    when b >= 0
{
    if b <= 0 {
        a
    } else {
        spec_gcd(b, a % b)
    }
}

/// Law: the gcd of two non-negative integers, not both zero, is a positive
/// common divisor.
pub proof fn lemma_gcd_divides(a: int, b: int)
    requires
        a >= 0,
        b >= 0,
        a + b > 0,
    ensures
        spec_gcd(a, b) > 0,
        a % spec_gcd(a, b) == 0,
        b % spec_gcd(a, b) == 0,
    decreases b,
{
    if b > 0 {
        let r = a % b;
        lemma_gcd_divides(b, r);
        let g = spec_gcd(b, r);
        lemma_fundamental_div_mod(a, b);
        lemma_fundamental_div_mod(b, g);
        lemma_fundamental_div_mod(r, g);
        let x = b / g;
        let y = r / g;
        assert(a == g * ((a / b) * x + y)) by (nonlinear_arith)
            requires
                a == b * (a / b) + r,
                b == g * x,
                r == g * y,
        ;
        lemma_mod_multiples_vanish((a / b) * x + y, 0, g);
    }
}

/// The greatest common divisor, as Euclid's algorithm computes it.
pub fn gcd(a: i64, b: i64) -> (r: i64)
    requires
        a >= 0,
        b >= 0,
    ensures
        r == spec_gcd(a as int, b as int),
{
    let mut a = a;
    let mut b = b;
    let ghost g = spec_gcd(a as int, b as int);
    while b != 0
        invariant
            a >= 0,
            b >= 0,
            spec_gcd(a as int, b as int) == g,
        decreases b,
    {
        let r = a % b;
        a = b;
        b = r;
    }
    if a < 0 {
        -a
    } else {
        a
    }
}

/// `sum of (d * j) % m for j in 1..=n`.
pub open spec fn mm_sum(d: int, m: int, n: int) -> int
    decreases n,
{
    if n <= 0 {
        0
    } else {
        mm_sum(d, m, n - 1) + (d * n) % m
    }
}

/// The sum of `i % m` over the multiples `i` of `d` in `1..=limit`.
pub open spec fn sum_multiples(limit: int, d: int, m: int) -> int {
    if limit <= 0 {
        0
    } else {
        mm_sum(d, m, limit / d)
    }
}

proof fn lemma_mm_sum_bounds(d: int, m: int, n: int)
    requires
        m > 0,
        n >= 0,
    ensures
        0 <= mm_sum(d, m, n) <= n * (m - 1),
    decreases n,
{
    if n > 0 {
        lemma_mm_sum_bounds(d, m, n - 1);
        assert((n - 1) * (m - 1) + (m - 1) == n * (m - 1)) by (nonlinear_arith);
    }
}

/// `mm_sum` over one period after any prefix is the sum over the first period.
proof fn lemma_mm_sum_shift(d: int, m: int, p: int, n: int)
    requires
        m > 0,
        p >= 0,
        (d * p) % m == 0,
        n >= 0,
    ensures
        mm_sum(d, m, n + p) - mm_sum(d, m, n) == mm_sum(d, m, p),
    decreases n,
{
    if n > 0 {
        lemma_mm_sum_shift(d, m, p, n - 1);
        // mm_sum(n + p) - mm_sum(n) == mm_sum(n - 1 + p) - mm_sum(n - 1)
        //   + (d * (n + p)) % m - (d * n) % m
        assert(mm_sum(d, m, n + p) == mm_sum(d, m, n - 1 + p) + (d * (n + p)) % m);
        lemma_fundamental_div_mod(d * p, m);
        let k = (d * p) / m;
        assert(d * (n + p) == m * k + d * n) by (nonlinear_arith)
            requires
                d * p == m * k + (d * p) % m,
                (d * p) % m == 0,
        ;
        lemma_mod_multiples_vanish(k, d * n, m);
    }
}

/// `mm_sum(q * p + r) == q * mm_sum(p) + mm_sum(r)` for a period `p`.
proof fn lemma_mm_sum_periods(d: int, m: int, p: int, q: int, r: int)
    requires
        m > 0,
        p >= 0,
        (d * p) % m == 0,
        q >= 0,
        r >= 0,
    ensures
        mm_sum(d, m, q * p + r) == q * mm_sum(d, m, p) + mm_sum(d, m, r),
    decreases q,
{
    if q > 0 {
        lemma_mm_sum_periods(d, m, p, q - 1, r);
        assert((q - 1) * p + r >= 0) by (nonlinear_arith)
            requires
                q >= 1,
                p >= 0,
                r >= 0,
        ;
        lemma_mm_sum_shift(d, m, p, (q - 1) * p + r);
        assert((q - 1) * p + r + p == q * p + r) by (nonlinear_arith);
        assert((q - 1) * mm_sum(d, m, p) + mm_sum(d, m, p) == q * mm_sum(d, m, p)) by (nonlinear_arith);
    } else {
        assert(q == 0);
        assert(q * p + r == r) by (nonlinear_arith)
            requires
                q == 0,
        ;
        assert(q * mm_sum(d, m, p) == 0) by (nonlinear_arith)
            requires
                q == 0,
        ;
    }
}

/// The sum of `i % modulus` over the multiples `i` of `divisor` in
/// `1..=limit`, computed as whole periods of `modulus / gcd(divisor,
/// modulus)` multiples plus a remainder.
pub fn sum_multiples_mod(limit: i64, divisor: i64, modulus: i64) -> (r: i64)
    requires
        0 < divisor,
        0 < modulus <= 0x7fff_ffff,
        limit <= 0x7fff_ffff,
    ensures
        r == sum_multiples(limit as int, divisor as int, modulus as int),
        0 <= r <= 0x3fff_fffe_8000_0002,
{
    if limit <= 0 {
        return 0;
    }
    let count = limit / divisor;
    if count == 0 {
        return 0;
    }
    let ghost d = divisor as int;
    let ghost m = modulus as int;
    // Here divisor <= limit.
    assert(divisor <= limit) by (nonlinear_arith)
        requires
            count == limit / divisor,
            count != 0,
            divisor > 0,
            limit > 0,
    ;
    assert(count <= limit) by (nonlinear_arith)
        requires
            count == limit / divisor,
            divisor > 0,
            limit > 0,
    ;
    let g = gcd(divisor, modulus);
    proof {
        lemma_gcd_divides(d, m);
        lemma_fundamental_div_mod(d, g as int);
        lemma_fundamental_div_mod(m, g as int);
    }
    let period = modulus / g;
    proof {
        let a = d / (g as int);
        assert(period > 0 && period <= modulus) by (nonlinear_arith)
            requires
                m == g * period,
                g > 0,
                m > 0,
                period == modulus / g,
        ;
        assert(d * period == a * m) by (nonlinear_arith)
            requires
                d == g * a,
                m == g * period,
        ;
        assert((d * period) % m == 0) by {
            lemma_mod_multiples_vanish(a, 0, m);
            assert(m * a + 0 == d * period) by (nonlinear_arith)
                requires
                    d * period == a * m,
            ;
        }
    }
    let mut period_sum: i64 = 0;
    let mut j: i64 = 1;
    while j <= period
        invariant
            1 <= j <= period + 1,
            0 < period <= modulus <= 0x7fff_ffff,
            0 < divisor <= 0x7fff_ffff,
            d == divisor,
            m == modulus,
            period_sum == mm_sum(d, m, j - 1),
            0 <= period_sum <= (j - 1) * (m - 1),
        decreases period - j + 1,
    {
        assert(divisor * j <= 0x7fff_ffff * 0x7fff_ffff) by (nonlinear_arith)
            requires
                0 < divisor <= 0x7fff_ffff,
                0 < j <= 0x7fff_ffff,
        ;
        assert((j - 1) * (m - 1) <= 0x7fff_ffff * 0x7fff_ffff) by (nonlinear_arith)
            requires
                0 < j <= 0x7fff_ffff,
                0 < m <= 0x7fff_ffff,
        ;
        let term = (divisor * j) % modulus;
        period_sum = period_sum + term;
        assert((j - 1) * (m - 1) + (m - 1) == j * (m - 1)) by (nonlinear_arith);
        j = j + 1;
    }
    let full_periods = count / period;
    let rest = count % period;
    proof {
        lemma_fundamental_div_mod(count as int, period as int);
        lemma_mm_sum_bounds(d, m, period as int);
        lemma_mm_sum_periods(d, m, period as int, full_periods as int, rest as int);
        assert(full_periods * period_sum + rest * (m - 1) <= count * (m - 1)) by (nonlinear_arith)
            requires
                0 <= period_sum <= period * (m - 1),
                count == period * full_periods + rest,
                0 <= rest,
                0 <= full_periods,
                m >= 1,
        ;
        assert(count * (m - 1) <= 0x7fff_ffff * 0x7fff_fffe) by (nonlinear_arith)
            requires
                0 <= count <= 0x7fff_ffff,
                1 <= m <= 0x7fff_ffff,
        ;
        assert(0 <= full_periods * period_sum) by (nonlinear_arith)
            requires
                0 <= period_sum,
                0 <= full_periods,
        ;
    }
    let mut total: i64 = full_periods * period_sum;
    let mut j: i64 = 1;
    while j <= rest
        invariant
            1 <= j <= rest + 1,
            0 <= rest < period <= modulus <= 0x7fff_ffff,
            0 < divisor <= 0x7fff_ffff,
            d == divisor,
            m == modulus,
            total == full_periods * period_sum + mm_sum(d, m, j - 1),
            0 <= full_periods * period_sum,
            full_periods * period_sum + rest * (m - 1) <= count * (m - 1),
            count * (m - 1) <= 0x7fff_ffff * 0x7fff_fffe,
        decreases rest - j + 1,
    {
        proof {
            lemma_mm_sum_bounds(d, m, j - 1);
        }
        assert(divisor * j <= 0x7fff_ffff * 0x7fff_ffff) by (nonlinear_arith)
            requires
                0 < divisor <= 0x7fff_ffff,
                0 < j <= 0x7fff_ffff,
        ;
        assert((j - 1) * (m - 1) + (m - 1) <= rest * (m - 1)) by (nonlinear_arith)
            requires
                j <= rest,
                m >= 1,
        ;
        let term = (divisor * j) % modulus;
        total = total + term;
        j = j + 1;
    }
    proof {
        lemma_mm_sum_bounds(d, m, rest as int);
        assert(full_periods * period_sum + rest * (m - 1) <= count * (m - 1)) by (nonlinear_arith)
            requires
                0 <= period_sum <= period * (m - 1),
                count == period * full_periods + rest,
                0 <= rest,
                0 <= full_periods,
                m >= 1,
        ;
        assert(mm_sum(d, m, count as int) == full_periods * period_sum + mm_sum(d, m, rest as int)) by {
            assert(count == full_periods * period + rest) by (nonlinear_arith)
                requires
                    count == period * full_periods + rest,
            ;
        }
    }
    total
}

/// Bézout coefficients: `a * x + b * y == gcd(a, b)`.
pub proof fn lemma_bezout(a: int, b: int) -> (r: (int, int))
    requires
        a >= 0,
        b >= 0,
    ensures
        a * r.0 + b * r.1 == spec_gcd(a, b),
    decreases b,
{
    if b == 0 {
        (1, 0)
    } else {
        let q = a / b;
        let rem = a % b;
        lemma_fundamental_div_mod(a, b);
        let (x, y) = lemma_bezout(b, rem);
        assert(a * y + b * (x - q * y) == b * x + rem * y) by (nonlinear_arith)
            requires
                a == b * q + rem,
        ;
        (y, x - q * y)
    }
}

/// Law: a common multiple of `a` and `c` is a multiple of
/// `a * c / gcd(a, c)`, and conversely.
pub proof fn lemma_lcm_multiples(a: int, c: int, n: int)
    requires
        a > 0,
        c > 0,
    ensures
        (n % a == 0 && n % c == 0) == (n % (a * c / spec_gcd(a, c)) == 0),
        a * c / spec_gcd(a, c) > 0,
{
    lemma_gcd_divides(a, c);
    let g = spec_gcd(a, c);
    lemma_fundamental_div_mod(a, g);
    lemma_fundamental_div_mod(c, g);
    let a1 = a / g;
    let c1 = c / g;
    assert(a1 > 0 && c1 > 0) by (nonlinear_arith)
        requires
            a == g * a1,
            c == g * c1,
            a > 0,
            c > 0,
            g > 0,
    ;
    let l = a1 * c;
    assert(a * c == g * l) by (nonlinear_arith)
        requires
            a == g * a1,
            l == a1 * c,
    ;
    assert(a * c / g == l) by {
        lemma_fundamental_div_mod_converse_div_int(a * c, g, l);
    }
    assert(l > 0) by (nonlinear_arith)
        requires
            a1 > 0,
            c > 0,
            l == a1 * c,
    ;
    // l is a multiple of both a and c.
    assert(l == a * c1) by (nonlinear_arith)
        requires
            a == g * a1,
            c == g * c1,
            l == a1 * c,
    ;
    if n % l == 0 {
        lemma_fundamental_div_mod(n, l);
        let k = n / l;
        assert(n == a * (c1 * k)) by (nonlinear_arith)
            requires
                n == l * k,
                l == a * c1,
        ;
        assert(n == c * (a1 * k)) by (nonlinear_arith)
            requires
                n == l * k,
                l == a1 * c,
        ;
        lemma_mod_multiples_vanish(c1 * k, 0, a);
        lemma_mod_multiples_vanish(a1 * k, 0, c);
    }
    if n % a == 0 && n % c == 0 {
        lemma_fundamental_div_mod(n, a);
        lemma_fundamental_div_mod(n, c);
        let s = n / a;
        let t = n / c;
        let (x, y) = lemma_bezout(a, c);
        // n * g == n * (a x + c y) == c t a x + a s c y == a c (t x + s y)
        let w1 = t * x;
        let w2 = s * y;
        let u = g * l;
        assert(n * g == n * a * x + n * c * y) by (nonlinear_arith)
            requires
                a * x + c * y == g,
        ;
        assert(n * a * x == u * w1) by (nonlinear_arith)
            requires
                n == c * t,
                a * c == g * l,
                u == g * l,
                w1 == t * x,
        ;
        assert(n * c * y == u * w2) by (nonlinear_arith)
            requires
                n == a * s,
                a * c == g * l,
                u == g * l,
                w2 == s * y,
        ;
        vstd::arithmetic::mul::lemma_mul_is_distributive_add(u, w1, w2);
        assert(n * g == u * (w1 + w2));
        assert(n == l * (w1 + w2)) by (nonlinear_arith)
            requires
                n * g == u * (w1 + w2),
                u == g * l,
                g > 0,
        ;
        lemma_mod_multiples_vanish(t * x + s * y, 0, l);
    }
}

proof fn lemma_fundamental_div_mod_converse_div_int(x: int, d: int, q: int)
    requires
        d > 0,
        x == d * q,
    ensures
        x / d == q,
{
    assert(q * d + 0 == x) by (nonlinear_arith)
        requires
            x == d * q,
    ;
    vstd::arithmetic::div_mod::lemma_fundamental_div_mod_converse_div(x, d, q, 0);
}

/// One more step of `sum_multiples`: the sum up to `n` adds `n % m` to the sum
/// up to `n - 1` exactly when `n` is a multiple of `d`.
pub proof fn lemma_sum_multiples_step(n: int, d: int, m: int)
    requires
        n >= 1,
        d > 0,
        m > 0,
    ensures
        sum_multiples(n, d, m) == sum_multiples(n - 1, d, m) + (if n % d == 0 { n % m } else { 0 }),
{
    lemma_fundamental_div_mod(n, d);
    lemma_fundamental_div_mod(n - 1, d);
    let q = n / d;
    let r = n % d;
    if r == 0 {
        // n == d * q, n - 1 == d * (q - 1) + (d - 1)
        assert((q - 1) * d + (d - 1) == n - 1) by (nonlinear_arith)
            requires
                n == d * q + r,
                r == 0,
        ;
        vstd::arithmetic::div_mod::lemma_fundamental_div_mod_converse_div(n - 1, d, q - 1, d - 1);
        assert(q >= 1) by (nonlinear_arith)
            requires
                n == d * q,
                n >= 1,
                d > 0,
        ;
        assert(mm_sum(d, m, q) == mm_sum(d, m, q - 1) + (d * q) % m);
    } else {
        assert(q * d + (r - 1) == n - 1) by (nonlinear_arith)
            requires
                n == d * q + r,
        ;
        vstd::arithmetic::div_mod::lemma_fundamental_div_mod_converse_div(n - 1, d, q, r - 1);
    }
}

} // verus!
