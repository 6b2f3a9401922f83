//! Numbers of 53 binary digits, as floating-point arithmetic keeps them: every
//! result is rounded to the nearest one, and halfway to the even one.
use vstd::prelude::*;
use vstd::arithmetic::div_mod::{
    lemma_div_denominator, lemma_div_multiples_vanish, lemma_fundamental_div_mod,
    lemma_fundamental_div_mod_converse,
};
use vstd::arithmetic::power2::{
    lemma2_to64, lemma2_to64_rest, lemma_pow2_adds, lemma_pow2_pos, lemma_pow2_strictly_increases,
    lemma_pow2_unfold, pow2,
};

verus! {

/// The weight of the last digit that is kept: the least power of two of which a
/// number has less than 2^53.
pub open spec fn unit(n: nat) -> nat
    decreases n,
{
    if n < 9007199254740992 {
        1
    } else {
        2 * unit(n / 2)
    }
}

/// The nearest number of 53 binary digits; the even one of two that are equally
/// near.
pub open spec fn rounded(n: nat) -> nat {
    let u = unit(n);
    let q = n / u;
    let r = n % u;
    if 2 * r > u || (2 * r == u && q % 2 == 1) {
        (q + 1) * u
    } else {
        q * u
    }
}

/// A number has less than 2^53 of its unit, and at least 2^52 where the unit is not
/// one.
pub proof fn lemma_unit(n: nat)
    ensures
        unit(n) >= 1,
        n / unit(n) < 9007199254740992,
        unit(n) > 1 ==> n / unit(n) >= 4503599627370496,
        unit(n) > 1 ==> n >= 9007199254740992,
    decreases n,
{
    if n >= 9007199254740992 {
        let m = n / 2;
        lemma_unit(m);
        lemma_div_denominator(n as int, 2, unit(m) as int);
        if unit(m) == 1 {
            assert(m < 9007199254740992) by {
                assert(m / 1 == m);
            }
            assert(n / 2 >= 4503599627370496);
        }
    }
}

/// The exponent of a unit.
spec fn exponent(n: nat) -> nat
    decreases n,
{
    if n < 9007199254740992 {
        0
    } else {
        exponent(n / 2) + 1
    }
}

proof fn lemma_unit_is_a_power(n: nat)
    ensures
        unit(n) == pow2(exponent(n)),
    decreases n,
{
    lemma2_to64();
    if n >= 9007199254740992 {
        lemma_unit_is_a_power(n / 2);
        lemma_pow2_unfold(exponent(n));
    }
}

proof fn lemma_rounded_double(n: nat)
    ensures
        rounded(2 * n) == 2 * rounded(n),
{
    let u = unit(n);
    lemma_unit(n);
    if 2 * n >= 9007199254740992 {
        assert((2 * n) / 2 == n);
        assert(unit(2 * n) == 2 * u);
        let q = n as int / u as int;
        let r = n as int % u as int;
        lemma_fundamental_div_mod(n as int, u as int);
        assert(2 * n == (2 * u) * q + 2 * r) by (nonlinear_arith)
            requires
                n == u * q + r,
        ;
        lemma_fundamental_div_mod_converse(2 * n as int, 2 * u as int, q, 2 * r);
        assert((q + 1) * (2 * u) == 2 * ((q + 1) * u)) by (nonlinear_arith);
        assert(q * (2 * u) == 2 * (q * u)) by (nonlinear_arith);
        assert((2 * n) / (2 * u) == q && (2 * n) % (2 * u) == 2 * r);
    } else {
        assert(u == 1 && unit(2 * n) == 1);
        assert(n / 1 == n && n % 1 == 0 && (2 * n) / 1 == 2 * n && (2 * n) % 1 == 0);
    }
}

/// Rounding does not depend on where the binary point is.
pub proof fn lemma_rounded_shifted(n: nat, k: nat)
    ensures
        rounded(n * pow2(k)) == rounded(n) * pow2(k),
    decreases k,
{
    lemma2_to64();
    if k > 0 {
        let p = pow2((k - 1) as nat);
        lemma_pow2_unfold(k);
        lemma_rounded_shifted(n, (k - 1) as nat);
        lemma_rounded_double(n * p);
        assert(n * (2 * p) == 2 * (n * p)) by (nonlinear_arith);
        assert(rounded(n) * (2 * p) == 2 * (rounded(n) * p)) by (nonlinear_arith);
    } else {
        assert(n * 1 == n);
        assert(rounded(n) * 1 == rounded(n));
    }
}

/// Rounding changes a number by at most one part in 2^53.
pub proof fn lemma_rounded_is_close(n: nat)
    ensures
        (rounded(n) - n) * 9007199254740992 <= n,
        (n - rounded(n)) * 9007199254740992 <= n,
{
    let u = unit(n) as int;
    let q = n as int / u;
    let r = n as int % u;
    lemma_unit(n);
    lemma_fundamental_div_mod(n as int, u);
    assert((q + 1) * u == q * u + u) by (nonlinear_arith);
    assert(u * q == q * u) by (nonlinear_arith);
    if u > 1 {
        assert(u * 4503599627370496 <= u * q) by (nonlinear_arith)
            requires
                u >= 0,
                q >= 4503599627370496,
        ;
    }
}

/// The unit of a number.
pub fn unit_of(n: u128) -> (r: u128)
    ensures
        r == unit(n as nat),
        r >= 1,
        r <= n || r == 1,
{
    let mut u: u128 = 1;
    let mut m: u128 = n;
    while m >= 9007199254740992
        invariant
            u >= 1,
            u * m <= n,
            unit(n as nat) == u * unit(m as nat),
            u <= n || u == 1,
        decreases m,
    {
        assert(u * 9007199254740992 <= u * m) by (nonlinear_arith)
            requires
                m >= 9007199254740992,
                u >= 1,
        ;
        let half: u128 = m / 2;
        proof {
            let w = unit(half as nat) as int;
            assert(u * (2 * w) == (u * 2) * w) by (nonlinear_arith);
            assert((u * 2) * half <= u * m) by (nonlinear_arith)
                requires
                    half == m / 2,
                    u >= 1,
            ;
        }
        u = u * 2;
        m = half;
    }
    assert(u * 1 == u);
    u
}

/// The nearest number of 53 binary digits.
pub fn round_to_digits(n: u128) -> (r: u128)
    requires
        n <= 0x4000_0000_0000_0000_0000_0000_0000_0000,
    ensures
        r == rounded(n as nat),
{
    let u: u128 = unit_of(n);
    let q: u128 = n / u;
    let r: u128 = n % u;
    proof {
        lemma_fundamental_div_mod(n as int, u as int);
        assert((q + 1) * u == q * u + u) by (nonlinear_arith);
        assert(u * q == q * u) by (nonlinear_arith);
        assert(q <= n) by (nonlinear_arith)
            requires
                u * q <= n,
                u >= 1,
                q >= 0,
        ;
    }
    if 2 * r > u || (2 * r == u && q % 2 == 1) {
        (q + 1) * u
    } else {
        q * u
    }
}

/// A fifth, as the nearest number of 53 binary digits over 2^54.
pub const FIFTH: u64 = 3602879701896397;

/// 2^106.
pub open spec fn scale() -> nat {
    0x400_0000_0000_0000_0000_0000_0000
}

/// A number changed by up to a fifth: `y` is the change, from minus a fifth at zero
/// to a fifth at 2^53. Every product and the sum is rounded, and what is left behind
/// the binary point is dropped at the end. The product of the number and a fifth is
/// counted in parts of 2^54, the change and the sum in parts of 2^106.
pub open spec fn spread(base: u64, y: u64) -> nat {
    let b = rounded(base as nat);
    let fifth = rounded(b * FIFTH as nat);
    let sum = if y >= 4503599627370496 {
        rounded(b * scale() + rounded(fifth * ((y - 4503599627370496) as nat)))
    } else {
        rounded(
            (b * scale() - rounded(fifth * ((4503599627370496 - y) as nat))) as nat,
        )
    };
    let whole = sum / scale();
    if whole > u64::MAX {
        u64::MAX as nat
    } else {
        whole
    }
}

proof fn lemma_scale()
    ensures
        scale() == pow2(106),
{
    lemma2_to64();
    lemma2_to64_rest();
    lemma_pow2_adds(64, 42);
}

/// A number changed by up to a fifth.
pub fn spread_by(base: u64, y: u64) -> (r: u64)
    requires
        y < 9007199254740992,
    ensures
        r == spread(base, y),
{
    let b: u128 = round_to_digits(base as u128);
    proof {
        lemma_rounded_is_close(base as nat);
    }
    assert(b <= 0x1_0000_0000_0000_0800);
    assert(b * FIFTH <= 0x1_0000_0000_0000_0800 * 3602879701896397);
    let product: u128 = b * (FIFTH as u128);
    let u: u128 = unit_of(product);
    let fifth: u128 = round_to_digits(product);
    let ghost e = exponent(product as nat);
    proof {
        lemma_unit(product as nat);
        lemma_unit_is_a_power(product as nat);
        lemma_rounded_is_close(product as nat);
    }
    let parts: u128 = fifth / u;
    let k: u128 = 0x400_0000_0000_0000_0000_0000_0000u128 / u;
    let ghost q = product as int / u as int;
    proof {
        lemma_fundamental_div_mod(product as int, u as int);
        // The rounded product is a whole number of its units.
        let w = if fifth == q * u {
            q
        } else {
            q + 1
        };
        assert(fifth == w * u);
        lemma_div_multiples_vanish(w, u as int);
        assert(w * u == u * w) by (nonlinear_arith);
        assert(parts == w);
        // The unit divides the scale.
        lemma_scale();
        assert(u <= 0x4_0000_0000_0000_0000) by {
            if u > 1 {
                assert(u * 4503599627370496 <= u * q) by (nonlinear_arith)
                    requires
                        q >= 4503599627370496,
                        u >= 0,
                ;
            }
        }
        if e > 106 {
            lemma_pow2_strictly_increases(106, e);
        }
        lemma_pow2_adds(e, (106 - e) as nat);
        let k2 = pow2((106 - e) as nat) as int;
        lemma_pow2_pos((106 - e) as nat);
        lemma_div_multiples_vanish(k2, u as int);
        assert(u * k2 == k2 * u) by (nonlinear_arith);
        assert(k == k2);
        assert(k * u == scale());
    }
    let s: u128 = if y >= 4503599627370496 {
        (y - 4503599627370496) as u128
    } else {
        (4503599627370496 - y) as u128
    };
    assert(parts * s <= 9007199254740992 * 4503599627370496) by (nonlinear_arith)
        requires
            0 <= parts <= 9007199254740992,
            0 <= s <= 4503599627370496,
    ;
    let change: u128 = round_to_digits(parts * s);
    proof {
        lemma_rounded_is_close((parts * s) as nat);
        lemma_room(b as int, u as int, k as int, q, product as int);
        if b == 0 {
            assert(parts == 0) by {
                assert(product == 0);
                assert(q == 0);
                assert(fifth == 0);
            }
            assert(parts * s == 0) by (nonlinear_arith)
                requires
                    parts == 0,
            ;
        }
    }
    let base_parts: u128 = b * k;
    let sum: u128 = if y >= 4503599627370496 {
        base_parts + change
    } else {
        base_parts - change
    };
    let t: u128 = round_to_digits(sum);
    let whole: u128 = t / k;
    proof {
        // Everything is counted in units less than the model does.
        lemma_rounded_shifted((parts * s) as nat, e);
        assert((parts * s) * u == fifth * s) by (nonlinear_arith)
            requires
                fifth == parts * u,
        ;
        assert(b * scale() == (b * k) * u) by (nonlinear_arith)
            requires
                k * u == scale(),
        ;
        lemma_rounded_shifted(sum as nat, e);
        assert((b * k) * u + change * u == (b * k + change) * u) by (nonlinear_arith);
        assert((b * k) * u - change * u == (b * k - change) * u) by (nonlinear_arith);
        lemma_same_quotient(t as int, k as int, u as int);
    }
    if whole > u64::MAX as u128 {
        u64::MAX
    } else {
        whole as u64
    }
}

proof fn lemma_same_quotient(t: int, k: int, u: int)
    requires
        t >= 0,
        k > 0,
        u > 0,
    ensures
        (t * u) / (k * u) == t / k,
{
    let q = t / k;
    let r = t % k;
    lemma_fundamental_div_mod(t, k);
    assert(t * u == q * (k * u) + r * u) by (nonlinear_arith)
        requires
            t == k * q + r,
    ;
    assert(0 <= r * u < k * u) by (nonlinear_arith)
        requires
            0 <= r < k,
            u > 0,
    ;
    assert(k * u > 0) by (nonlinear_arith)
        requires
            k > 0,
            u > 0,
    ;
    assert(q * (k * u) == (k * u) * q) by (nonlinear_arith);
    lemma_fundamental_div_mod_converse(t * u, k * u, q, r * u);
}

/// The counted parts fit into 128 bits, and the change is less than the number.
proof fn lemma_room(b: int, u: int, k: int, q: int, product: int)
    requires
        0 <= b <= 0x1_0000_0000_0000_0800,
        product == b * 3602879701896397,
        u >= 1,
        k >= 1,
        k * u == scale(),
        q == product / u,
        q < 9007199254740992,
        u > 1 ==> q >= 4503599627370496,
        u == 1 ==> product < 9007199254740992,
    ensures
        0 <= b * k <= 0x1000_0000_0000_0000_0000_0000_0000,
        b > 0 ==> b * k >= scale(),
{
    lemma_fundamental_div_mod(product, u);
    let c = 3602879701896397int;
    assert(product < 9007199254740992 * u) by (nonlinear_arith)
        requires
            product == u * q + product % u,
            product % u < u,
            q + 1 <= 9007199254740992,
            u >= 1,
    ;
    assert(product * k <= (9007199254740992 * u) * k) by (nonlinear_arith)
        requires
            product < 9007199254740992 * u,
            k >= 1,
    ;
    assert((9007199254740992 * u) * k == 9007199254740992 * (k * u)) by (nonlinear_arith);
    assert(product * k == c * (b * k)) by (nonlinear_arith)
        requires
            product == b * c,
    ;
    assert(b * k >= 0) by (nonlinear_arith)
        requires
            b >= 0,
            k >= 1,
    ;
    if b > 0 {
        if u == 1 {
            assert(k * 1 == k);
            assert(b * k >= k) by (nonlinear_arith)
                requires
                    b >= 1,
                    k >= 1,
            ;
        } else {
            assert(product >= 4503599627370496 * u) by (nonlinear_arith)
                requires
                    product == u * q + product % u,
                    product % u >= 0,
                    q >= 4503599627370496,
                    u >= 1,
            ;
            assert(product * k >= (4503599627370496 * u) * k) by (nonlinear_arith)
                requires
                    product >= 4503599627370496 * u,
                    k >= 1,
            ;
            assert((4503599627370496 * u) * k == 4503599627370496 * (k * u)) by (nonlinear_arith);
        }
    }
}

/// A number is changed by at most a fifth of it, but for one part in 2^48 by which
/// rounding may exceed that, and for what is dropped behind the binary point. A
/// number below 2^45 is changed by at most a fifth.
pub proof fn spread_is_at_most_a_fifth(base: u64, y: u64)
    requires
        y < 9007199254740992,
    ensures
        5 * spread(base, y) * 281474976710656 <= 6 * base * 281474976710656 + base,
        5 * (spread(base, y) + 1) * 281474976710656 > 4 * base * 281474976710656 - base,
        base < 35184372088832 ==> 5 * spread(base, y) <= 6 * base,
        base < 35184372088832 ==> 5 * (spread(base, y) + 1) >= 4 * base,
{
    let b = rounded(base as nat) as int;
    let fifth = rounded(b as nat * FIFTH as nat) as int;
    let s = if y >= 4503599627370496 {
        y - 4503599627370496
    } else {
        4503599627370496 - y
    };
    assert(0 <= fifth * s <= fifth * 4503599627370496) by (nonlinear_arith)
        requires
            fifth >= 0,
            0 <= s <= 4503599627370496,
    ;
    let change = rounded((fifth * s) as nat) as int;
    lemma_rounded_is_close(base as nat);
    lemma_rounded_is_close(b as nat * FIFTH as nat);
    lemma_rounded_is_close((fifth * s) as nat);
    let exact = if y >= 4503599627370496 {
        b * scale() + change
    } else {
        b * scale() - change
    };
    let sum = rounded(exact as nat) as int;
    lemma_rounded_is_close(exact as nat);
    let all = b * 0x400_0000_0000_0000_0000_0000_0000;
    assert(b * scale() == all);
    assert(b * FIFTH == b * 3602879701896397);
    assert(9007199254740992 * fifth <= 9007199254740993 * (b * 3602879701896397));
    assert(9007199254740992 * change <= 9007199254740993 * (fifth * 4503599627370496));
    assert(change <= all);
    assert(all - change <= exact <= all + change);
    assert(9007199254740991 * exact <= 9007199254740992 * sum <= 9007199254740993 * exact);
    assert(9007199254740991 * base <= 9007199254740992 * b <= 9007199254740993 * base);
    let goal = base * 0x400_0000_0000_0000_0000_0000_0000;
    assert(5 * sum * 281474976710656 <= 6 * goal * 281474976710656 + goal);
    assert(5 * sum * 281474976710656 >= 4 * goal * 281474976710656 - goal);
    let whole = sum / 0x400_0000_0000_0000_0000_0000_0000;
    assert(sum / scale() as int == whole);
    assert(5 * whole * 281474976710656 <= 6 * base * 281474976710656 + base);
    assert(5 * (whole + 1) * 281474976710656 > 4 * base * 281474976710656 - base);
}

} // verus!
