use vstd::prelude::*;

verus! {

/// `2^n`.
pub open spec fn two_pow(n: nat) -> nat
    decreases n,
{
    if n == 0 {
        1
    } else {
        2 * two_pow((n - 1) as nat)
    }
}

/// `floor(a * b / c)` computed over the integers, when it fits in 128 bits.
pub open spec fn mul_div_spec(a: u128, b: u128, c: u128) -> Option<u128> {
    let q = (a as int * b as int) / (c as int);
    if q <= u128::MAX {
        Some(q as u128)
    } else {
        None
    }
}

proof fn lemma_digit_product(x: int, y: int)
    by (nonlinear_arith)
    requires
        0 <= x < 0x1_0000_0000_0000_0000,
        0 <= y < 0x1_0000_0000_0000_0000,
    ensures
        0 <= x * y <= 0xffff_ffff_ffff_fffe_0000_0000_0000_0001,
{
    assert(x * y <= 0xffff_ffff_ffff_ffff * y);
    assert(0xffff_ffff_ffff_ffff * y <= 0xffff_ffff_ffff_ffff * 0xffff_ffff_ffff_ffff);
}

proof fn lemma_split_product(
    a: int, b: int, a0: int, a1: int, b0: int, b1: int,
    p00: int, p01: int, p10: int, p11: int,
    p00h: int, p00l: int, p01h: int, p01l: int, p10h: int, p10l: int,
    mid: int, midh: int, midl: int,
)
    by (nonlinear_arith)
    requires
        a == a1 * 0x1_0000_0000_0000_0000 + a0,
        b == b1 * 0x1_0000_0000_0000_0000 + b0,
        p00 == a0 * b0,
        p01 == a0 * b1,
        p10 == a1 * b0,
        p11 == a1 * b1,
        p00 == p00h * 0x1_0000_0000_0000_0000 + p00l,
        p01 == p01h * 0x1_0000_0000_0000_0000 + p01l,
        p10 == p10h * 0x1_0000_0000_0000_0000 + p10l,
        mid == p00h + p01l + p10l,
        mid == midh * 0x1_0000_0000_0000_0000 + midl,
    ensures
        a * b == (p11 + p01h + p10h + midh) * 0x1_0000_0000_0000_0000_0000_0000_0000_0000int
            + (midl * 0x1_0000_0000_0000_0000 + p00l),
{
    assert(a * b == p11 * 0x1_0000_0000_0000_0000_0000_0000_0000_0000int + (p01 + p10)
        * 0x1_0000_0000_0000_0000 + p00);
}

proof fn lemma_product_bound(a: u128, b: u128)
    by (nonlinear_arith)
    ensures
        0 <= a as int * b as int <= u128::MAX as int * u128::MAX as int,
{
    assert(a as int * b as int <= u128::MAX as int * b as int);
    assert(u128::MAX as int * b as int <= u128::MAX as int * u128::MAX as int);
}

/// The full 256-bit product of two 128-bit numbers, as its high and low halves.
pub fn wide_mul(a: u128, b: u128) -> (r: (u128, u128))
    ensures
        r.0 as int * 0x1_0000_0000_0000_0000_0000_0000_0000_0000int + r.1 as int == a as int
            * b as int,
{
    let x: u128 = 0x1_0000_0000_0000_0000;
    let a0 = a % x;
    let a1 = a / x;
    let b0 = b % x;
    let b1 = b / x;
    proof {
        lemma_digit_product(a0 as int, b0 as int);
        lemma_digit_product(a0 as int, b1 as int);
        lemma_digit_product(a1 as int, b0 as int);
        lemma_digit_product(a1 as int, b1 as int);
    }
    let p00 = a0 * b0;
    let p01 = a0 * b1;
    let p10 = a1 * b0;
    let p11 = a1 * b1;
    let mid = p00 / x + p01 % x + p10 % x;
    let lo = (mid % x) * x + p00 % x;
    proof {
        lemma_split_product(
            a as int, b as int, a0 as int, a1 as int, b0 as int, b1 as int,
            p00 as int, p01 as int, p10 as int, p11 as int,
            (p00 / x) as int, (p00 % x) as int, (p01 / x) as int, (p01 % x) as int,
            (p10 / x) as int, (p10 % x) as int,
            mid as int, (mid / x) as int, (mid % x) as int,
        );
        lemma_product_bound(a, b);
    }
    let ghost hi_int: int = p11 + p01 / x + p10 / x + mid / x;
    assert(hi_int * 0x1_0000_0000_0000_0000_0000_0000_0000_0000int <= u128::MAX as int
        * u128::MAX as int);
    assert(hi_int <= u128::MAX);
    let hi = p11 + p01 / x + p10 / x + mid / x;
    (hi, lo)
}

proof fn lemma_two_pow_add_8(n: nat)
    ensures
        two_pow(n + 8) == 256 * two_pow(n),
{
    reveal_with_fuel(two_pow, 9);
}

proof fn lemma_two_pow_127()
    ensures
        two_pow(127) == 0x8000_0000_0000_0000_0000_0000_0000_0000,
{
    reveal_with_fuel(two_pow, 8);
    assert(two_pow(7) == 128);
    lemma_two_pow_add_8(7);
    lemma_two_pow_add_8(15);
    lemma_two_pow_add_8(23);
    lemma_two_pow_add_8(31);
    lemma_two_pow_add_8(39);
    lemma_two_pow_add_8(47);
    lemma_two_pow_add_8(55);
    lemma_two_pow_add_8(63);
    lemma_two_pow_add_8(71);
    lemma_two_pow_add_8(79);
    lemma_two_pow_add_8(87);
    lemma_two_pow_add_8(95);
    lemma_two_pow_add_8(103);
    lemma_two_pow_add_8(111);
    lemma_two_pow_add_8(119);
}

proof fn lemma_digit_split(rest: int, m: int, bit: int, rest2: int)
    by (nonlinear_arith)
    requires
        0 <= rest < 2 * m,
        0 < m,
        bit == rest / m,
        rest2 == rest % m,
    ensures
        rest == bit * m + rest2,
        0 <= bit <= 1,
        0 <= rest2 < m,
{
}

proof fn lemma_quotient_too_big(ab: int, hi: int, lo: int, c: int)
    by (nonlinear_arith)
    requires
        ab == hi * 0x1_0000_0000_0000_0000_0000_0000_0000_0000int + lo,
        0 <= lo,
        0 < c <= hi,
    ensures
        ab / c > u128::MAX,
{
    assert(ab >= c * 0x1_0000_0000_0000_0000_0000_0000_0000_0000int);
    assert(ab / c >= 0x1_0000_0000_0000_0000_0000_0000_0000_0000int);
}

proof fn lemma_division_step(
    ab: int, q: int, r: int, c: int, scale: int, m: int, rest: int, bit: int, rest2: int,
)
    by (nonlinear_arith)
    requires
        ab == (q * c + r) * scale + rest,
        scale == 2 * m,
        rest == bit * m + rest2,
    ensures
        ab == (2 * q * c + 2 * r + bit) * m + rest2,
{
}

proof fn lemma_step_value(q: int, r: int, c: int, bit: int, t: int, q2: int, r2: int, m: int)
    by (nonlinear_arith)
    requires
        q2 == 2 * q + t,
        r2 == 2 * r + bit - t * c,
    ensures
        (q2 * c + r2) * m == (2 * q * c + 2 * r + bit) * m,
{
    assert(q2 * c + r2 == 2 * q * c + 2 * r + bit);
}

proof fn lemma_quotient_bound(ab: int, q: int, r: int, c: int, scale: int, rest: int)
    by (nonlinear_arith)
    requires
        ab == (q * c + r) * scale + rest,
        0 <= r,
        0 <= rest,
        0 <= q,
        0 < scale,
        0 < c,
        ab < c * 0x1_0000_0000_0000_0000_0000_0000_0000_0000int,
    ensures
        q * scale < 0x1_0000_0000_0000_0000_0000_0000_0000_0000int,
{
    assert(q * c * scale <= ab);
    assert(q * scale * c < 0x1_0000_0000_0000_0000_0000_0000_0000_0000int * c);
}

proof fn lemma_small_quotient(q: int, scale: int, m: int)
    by (nonlinear_arith)
    requires
        q * scale < 0x1_0000_0000_0000_0000_0000_0000_0000_0000int,
        scale == 2 * m,
        m >= 1,
        q >= 0,
    ensures
        2 * q + 1 <= u128::MAX,
{
}

proof fn lemma_division_result(ab: int, q: int, r: int, c: int)
    by (nonlinear_arith)
    requires
        ab == q * c + r,
        0 <= r < c,
    ensures
        ab / c == q,
{
}

/// `floor(a * b / c)`, computed exactly over 256 bits; `None` when the quotient does
/// not fit in 128 bits.
pub fn mul_div(a: u128, b: u128, c: u128) -> (r: Option<u128>)
    requires
        c > 0,
    ensures
        r == mul_div_spec(a, b, c),
{
    let (hi, lo) = wide_mul(a, b);
    let ghost ab: int = a as int * b as int;
    if hi >= c {
        proof {
            lemma_quotient_too_big(ab, hi as int, lo as int, c as int);
        }
        return None;
    }
    assert(ab < c * 0x1_0000_0000_0000_0000_0000_0000_0000_0000int) by (nonlinear_arith)
        requires
            ab == hi as int * 0x1_0000_0000_0000_0000_0000_0000_0000_0000int + lo as int,
            hi < c,
            lo <= u128::MAX,
    ;
    let mut q: u128 = 0;
    let mut r: u128 = hi;
    let mut rest: u128 = lo;
    let mut m: u128 = 0x8000_0000_0000_0000_0000_0000_0000_0000;
    let mut k: u32 = 128;
    let ghost mut scale: int = 0x1_0000_0000_0000_0000_0000_0000_0000_0000int;
    proof {
        lemma_two_pow_127();
    }
    while k > 0
        invariant
            0 < c,
            k <= 128,
            ab < c * 0x1_0000_0000_0000_0000_0000_0000_0000_0000int,
            ab == (q as int * c as int + r as int) * scale + rest as int,
            r < c,
            0 <= rest < scale,
            k >= 1 ==> m as int == two_pow((k - 1) as nat) && scale == 2 * m,
            k == 0 ==> scale == 1,
        decreases k,
    {
        proof {
            lemma_quotient_bound(ab, q as int, r as int, c as int, scale, rest as int);
            lemma_small_quotient(q as int, scale, m as int);
            if k >= 2 {
                assert(two_pow((k - 1) as nat) == 2 * two_pow((k - 2) as nat));
            }
        }
        let bit: u128 = rest / m;
        let rest2: u128 = rest % m;
        proof {
            lemma_digit_split(rest as int, m as int, bit as int, rest2 as int);
            lemma_division_step(
                ab, q as int, r as int, c as int, scale, m as int, rest as int, bit as int,
                rest2 as int,
            );
        }
        let d: u128 = c - r;
        let ghost q0 = q as int;
        let ghost r0 = r as int;
        if r + bit >= d {
            r = r - (d - bit);
            q = 2 * q + 1;
            proof {
                lemma_step_value(q0, r0, c as int, bit as int, 1, q as int, r as int, m as int);
            }
        } else {
            r = r + r + bit;
            q = 2 * q;
            proof {
                lemma_step_value(q0, r0, c as int, bit as int, 0, q as int, r as int, m as int);
            }
        }
        rest = rest2;
        proof {
            scale = m as int;
        }
        if k >= 2 {
            m = m / 2;
        }
        k = k - 1;
    }
    proof {
        lemma_division_result(ab, q as int, r as int, c as int);
    }
    Some(q)
}

} // verus!
