//! Fixed-point helpers shared by the capsule decoders: Rust's truncating
//! integer division, and the conversion of q16 radians into q16 degrees.

use vstd::prelude::*;

verus! {

/// `a / b` as Rust computes it on signed integers: the quotient truncated toward zero.
pub open spec fn div_trunc(a: int, b: int) -> int
    recommends
        b > 0,
{
    if a >= 0 {
        a / b
    } else {
        -((-a) / b)
    }
}

/// `a % b` as Rust computes it on signed integers: the remainder takes the sign of `a`.
pub open spec fn rem_trunc(a: int, b: int) -> int
    recommends
        b > 0,
{
    a - b * div_trunc(a, b)
}

/// 2 raised to `n`.
pub open spec fn two_pow(n: nat) -> nat
    decreases n,
{
    if n == 0 {
        1
    } else {
        2 * two_pow((n - 1) as nat)
    }
}

/// The position of the highest set bit of `n` (0 for 0 and 1).
pub open spec fn floor_log2(n: nat) -> nat
    decreases n,
{
    if n <= 1 {
        0
    } else {
        1 + floor_log2(n / 2)
    }
}

/// The integer part of `num / den` once the quotient has been rounded to `p`
/// significant bits, ties to even; the rounding carries the quotient up to the
/// next integer exactly when that integer is within half a unit in the last
/// place. (The rule holds while `num / den < 2^(p - 1)`.)
pub open spec fn rounded_integer_part(num: nat, den: nat, p: nat) -> nat {
    let whole = num / den;
    let gap = (den - num % den) as nat;
    let shift: nat = if whole == 0 {
        p + 1
    } else {
        (p - floor_log2(whole)) as nat
    };
    if num % den != 0 && gap * two_pow(shift) <= den {
        whole + 1
    } else {
        whole
    }
}

/// π in single precision: the value nearest to 3.1415926535 is 13176795 / 2^22.
pub const PI_SINGLE_NUM: u128 = 13176795;

/// 2^22, the denominator of [`PI_SINGLE_NUM`].
pub const PI_SINGLE_DEN: u128 = 4194304;

/// π in double precision: the value nearest to 3.14159265 is 7074237743944945 / 2^51.
pub const PI_DOUBLE_NUM: u128 = 7074237743944945;

/// 2^51, the denominator of [`PI_DOUBLE_NUM`].
pub const PI_DOUBLE_DEN: u128 = 2251799813685248;

/// An angle in q16 radians converted to q16 degrees in single precision:
/// `x * 180 / π` with π = 13176795 / 2^22, the quotient rounded to 24
/// significant bits and then truncated toward zero.
pub open spec fn rad_to_deg_q16_single(x: int) -> int {
    let mag = rounded_integer_part(
        (abs_int(x) * 180 * PI_SINGLE_DEN) as nat,
        PI_SINGLE_NUM as nat,
        24,
    );
    if x < 0 {
        -mag
    } else {
        mag as int
    }
}

/// An angle in q16 radians converted to q16 degrees in double precision:
/// `x * 180 / π` with π = 7074237743944945 / 2^51, the quotient rounded to 53
/// significant bits and then truncated toward zero.
pub open spec fn rad_to_deg_q16_double(x: int) -> int {
    let mag = rounded_integer_part(
        (abs_int(x) * 180 * PI_DOUBLE_DEN) as nat,
        PI_DOUBLE_NUM as nat,
        53,
    );
    if x < 0 {
        -mag
    } else {
        mag as int
    }
}

/// The absolute value of `x`.
pub open spec fn abs_int(x: int) -> int {
    if x < 0 {
        -x
    } else {
        x
    }
}

proof fn lemma_two_pow_pos(n: nat)
    ensures
        two_pow(n) >= 1,
    decreases n,
{
    if n > 0 {
        lemma_two_pow_pos((n - 1) as nat);
    }
}

proof fn lemma_two_pow_monotone(a: nat, b: nat)
    requires
        a <= b,
    ensures
        two_pow(a) <= two_pow(b),
    decreases b,
{
    if a < b {
        lemma_two_pow_monotone(a, (b - 1) as nat);
        lemma_two_pow_pos((b - 1) as nat);
    }
}

proof fn lemma_floor_log2_bound(n: nat, k: nat)
    requires
        1 <= n < two_pow(k),
    ensures
        floor_log2(n) < k,
    decreases n,
{
    if n > 1 {
        assert(k > 0) by {
            if k == 0 {
                assert(two_pow(0) == 1);
            }
        }
        assert(n / 2 < two_pow((k - 1) as nat));
        lemma_floor_log2_bound(n / 2, (k - 1) as nat);
    }
}

/// The exec counterpart of [`rounded_integer_part`].
fn rounded_integer_part_exec(num: u128, den: u128, p: u32) -> (r: u128)
    requires
        0 < den <= u64::MAX,
        p < 64,
        num / den < two_pow(p as nat),
        num / den < u64::MAX,
    ensures
        r == rounded_integer_part(num as nat, den as nat, p as nat),
{
    let whole = num / den;
    let rem = num % den;
    if rem == 0 {
        return whole;
    }
    let gap = den - rem;
    let shift: u32 = if whole == 0 {
        p + 1
    } else {
        let mut v = whole;
        let mut e: u32 = 0;
        proof {
            lemma_floor_log2_bound(whole as nat, p as nat);
        }
        while v > 1
            invariant
                1 <= v <= whole,
                e + floor_log2(v as nat) == floor_log2(whole as nat),
                floor_log2(whole as nat) < p,
            decreases v,
        {
            v = v / 2;
            e = e + 1;
        }
        p - e
    };
    // Double the gap `shift` times, stopping as soon as it exceeds `den`.
    let mut t = gap;
    let mut i: u32 = 0;
    assert(two_pow(0) == 1);
    while i < shift && t <= den
        invariant
            0 < gap <= t,
            i <= shift,
            t == gap * two_pow(i as nat),
            t <= 2 * den,
            den <= u64::MAX,
        decreases shift - i,
    {
        assert(two_pow((i + 1) as nat) == 2 * two_pow(i as nat));
        assert(gap * two_pow((i + 1) as nat) == 2 * (gap * two_pow(i as nat))) by (nonlinear_arith)
            requires
                two_pow((i + 1) as nat) == 2 * two_pow(i as nat),
        ;
        t = t * 2;
        i = i + 1;
    }
    proof {
        lemma_two_pow_monotone(i as nat, shift as nat);
        assert(gap * two_pow(i as nat) <= gap * two_pow(shift as nat)) by (nonlinear_arith)
            requires
                two_pow(i as nat) <= two_pow(shift as nat),
                gap >= 0,
        ;
    }
    if t <= den {
        whole + 1
    } else {
        whole
    }
}

/// Converts q16 radians to q16 degrees as single-precision arithmetic does
/// (see [`rad_to_deg_q16_single`]).
pub fn rad_to_deg_q16_single_exec(x: i32) -> (r: i32)
    requires
        -65536 <= x <= 65536,
    ensures
        r == rad_to_deg_q16_single(x as int),
{
    let mag_in: u128 = if x < 0 {
        (-x) as u128
    } else {
        x as u128
    };
    let num = mag_in * 180 * PI_SINGLE_DEN;
    proof {
        reveal_with_fuel(two_pow, 25);
        assert(num / PI_SINGLE_NUM < 3800000) by (nonlinear_arith)
            requires
                num == mag_in * 180 * 4194304,
                mag_in <= 65536,
        ;
    }
    let mag = rounded_integer_part_exec(num, PI_SINGLE_NUM, 24);
    if x < 0 {
        -(mag as i32)
    } else {
        mag as i32
    }
}

/// Converts q16 radians to q16 degrees as double-precision arithmetic does
/// (see [`rad_to_deg_q16_double`]).
pub fn rad_to_deg_q16_double_exec(x: i32) -> (r: i32)
    requires
        -16777216 <= x <= 16777216,
    ensures
        r == rad_to_deg_q16_double(x as int),
{
    let mag_in: u128 = if x < 0 {
        (-x) as u128
    } else {
        x as u128
    };
    let num = mag_in * 180 * PI_DOUBLE_DEN;
    proof {
        reveal_with_fuel(two_pow, 32);
        lemma_two_pow_monotone(31, 53);
        assert(num / PI_DOUBLE_NUM < 1000000000) by (nonlinear_arith)
            requires
                num == mag_in * 180 * 2251799813685248,
                mag_in <= 16777216,
        ;
    }
    let mag = rounded_integer_part_exec(num, PI_DOUBLE_NUM, 53);
    if x < 0 {
        -(mag as i32)
    } else {
        mag as i32
    }
}

} // verus!
