//! Arithmetic on mathematical integers that several contracts use.

use vstd::prelude::*;

verus! {

/// The smaller of two numbers.
pub open spec fn smaller(a: int, b: int) -> int {
    if a <= b {
        a
    } else {
        b
    }
}

/// The larger of two numbers.
pub open spec fn larger(a: int, b: int) -> int {
    if a >= b {
        a
    } else {
        b
    }
}

/// `a / b`, rounded up.
pub open spec fn quotient_up(a: int, b: int) -> int {
    (a + b - 1) / b
}

/// The low 32 bits of `n`.
pub open spec fn low_word(n: int) -> int {
    n % 0x1_0000_0000
}

pub(crate) proof fn lemma_low_word(n: u64)
    ensures
        n as u32 == low_word(n as int),
{
    assert(n as u32 == n % 0x1_0000_0000) by (bit_vector);
}

pub(crate) proof fn lemma_quotient_up(a: int, b: int)
    requires
        0 <= a,
        0 < b,
    ensures
        quotient_up(a, b) == if a % b == 0 {
            a / b
        } else {
            a / b + 1
        },
        quotient_up(a, b) * b >= a,
        a > 0 ==> (quotient_up(a, b) - 1) * b < a,
        0 <= quotient_up(a, b) <= a,
{
    let q = a / b;
    let r = a % b;
    vstd::arithmetic::div_mod::lemma_fundamental_div_mod(a, b);
    assert(b * q == q * b) by (nonlinear_arith);
    if r == 0 {
        assert((a + b - 1) / b == q) by (nonlinear_arith)
            requires
                a == q * b,
                b > 0,
        ;
    } else {
        assert((a + b - 1) / b == q + 1) by (nonlinear_arith)
            requires
                a == q * b + r,
                0 < r < b,
        ;
    }
    assert(0 <= q && (q + 1) * b == q * b + b && (q - 1) * b == q * b - b && q <= q * b)
        by (nonlinear_arith)
        requires
            a == q * b + r,
            0 <= r < b,
            0 <= a,
            b > 0,
    ;
}

/// The smaller of two numbers is one of them and exceeds neither; the larger one is one of them and
/// falls short of neither.
pub proof fn law_smaller_and_larger(a: int, b: int)
    ensures
        smaller(a, b) == a || smaller(a, b) == b,
        smaller(a, b) <= a,
        smaller(a, b) <= b,
        larger(a, b) == a || larger(a, b) == b,
        larger(a, b) >= a,
        larger(a, b) >= b,
{
}

/// A quotient that is rounded up is the least number of parts of size `b` that hold `a`.
pub proof fn law_quotient_up_is_the_least_that_holds(a: int, b: int)
    requires
        0 <= a,
        0 < b,
    ensures
        a <= quotient_up(a, b) * b,
        forall|q: int| a <= #[trigger] (q * b) ==> quotient_up(a, b) <= q,
{
    lemma_quotient_up(a, b);
    let least = quotient_up(a, b);
    assert forall|q: int| a <= #[trigger] (q * b) implies least <= q by {
        if q < least {
            assert(q * b <= (least - 1) * b) by (nonlinear_arith)
                requires
                    q <= least - 1,
                    b > 0,
            ;
            if a == 0 {
                assert(least == 0) by {
                    assert(0int / b == 0) by (nonlinear_arith)
                        requires
                            b > 0,
                    ;
                    assert(0int % b == 0) by (nonlinear_arith)
                        requires
                            b > 0,
                    ;
                }
                assert(q * b < 0) by (nonlinear_arith)
                    requires
                        q < 0,
                        b > 0,
                ;
            }
        }
    }
}

/// The low word of a number is a 32-bit number, and what it leaves off is a multiple of 2^32.
pub proof fn law_low_word_leaves_off_whole_words(n: int)
    ensures
        0 <= low_word(n) < 0x1_0000_0000,
        exists|high: int| n == #[trigger] (0x1_0000_0000 * high) + low_word(n),
{
    assert(n == 0x1_0000_0000 * (n / 0x1_0000_0000) + low_word(n));
}

} // verus!
