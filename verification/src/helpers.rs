//! Small arithmetic helpers.

use vstd::prelude::*;

verus! {

/// Adds two numbers.
pub fn add(a: i32, b: i32) -> (r: i32)
    requires
        i32::MIN <= a + b <= i32::MAX,
    ensures
        r == a + b,
{
    a + b
}

/// Subtracts the second number from the first.
pub fn subtract(a: i32, b: i32) -> (r: i32)
    requires
        i32::MIN <= a - b <= i32::MAX,
    ensures
        r == a - b,
{
    a - b
}

/// Multiplies two numbers.
pub fn multiply(a: i32, b: i32) -> (r: i32)
    requires
        i32::MIN <= a * b <= i32::MAX,
    ensures
        r == a * b,
{
    a * b
}

/// The magnitude of an integer.
pub open spec fn abs_int(a: int) -> int {
    if a >= 0 {
        a
    } else {
        -a
    }
}

/// Integer division as the machine performs it: rounded toward zero.
pub open spec fn div_toward_zero(a: int, b: int) -> int {
    if (a >= 0) == (b >= 0) {
        abs_int(a) / abs_int(b)
    } else {
        -(abs_int(a) / abs_int(b))
    }
}

/// Divides the first number by the second, refusing a zero divisor.
pub fn divide(a: i32, b: i32) -> (r: Result<i32, &'static str>)
    requires
        !(a == i32::MIN && b == -1),
    ensures
        b == 0 <==> r is Err,
        b != 0 ==> (r matches Ok(q) && q == div_toward_zero(a as int, b as int)),
{
    if b == 0 {
        return Err("Division by zero");
    }
    // The SMT encoding of `/` on signed machine integers says little when the
    // divisor is negative, so the quotient is computed over magnitudes.
    let am: u64 = if a >= 0 {
        a as u64
    } else {
        (-(a as i64)) as u64
    };
    let bm: u64 = if b >= 0 {
        b as u64
    } else {
        (-(b as i64)) as u64
    };
    let qm: u64 = am / bm;
    proof {
        assert(am == abs_int(a as int));
        assert(bm == abs_int(b as int));
        assert(qm <= am) by (nonlinear_arith)
            requires
                qm == am / bm,
                bm >= 1,
                am >= 0,
        ;
        if qm == 0x8000_0000u64 {
            assert(am == 0x8000_0000u64) by (nonlinear_arith)
                requires
                    qm == am / bm,
                    qm == 0x8000_0000u64,
                    bm >= 1,
                    0 <= am <= 0x8000_0000u64,
            ;
            assert(bm == 1) by (nonlinear_arith)
                requires
                    qm == am / bm,
                    qm == am,
                    am >= 1,
                    bm >= 1,
            ;
        }
    }
    if (a < 0) != (b < 0) {
        Ok((-(qm as i64)) as i32)
    } else {
        Ok(qm as i32)
    }
}

/// Reports whether a number is even.
pub fn is_even(num: i32) -> (r: bool)
    ensures
        r == (num % 2 == 0),
{
    num % 2 == 0
}

/// Reports whether a number is odd.
pub fn is_odd(num: i32) -> (r: bool)
    ensures
        r == (num % 2 != 0),
{
    num % 2 != 0
}

} // verus!
