//! Decimal text of unsigned numbers, as bytes of ASCII.
use crate::ascii::{DIGIT_0, DIGIT_9};
use vstd::prelude::*;

verus! {

/// Whether `byte` is one of the digits `0` to `9`.
pub open spec fn is_digit(byte: u8) -> bool {
    DIGIT_0 <= byte <= DIGIT_9
}

/// The decimal text of `n`: its digits, the most significant first, with no
/// leading zero but for zero itself.
pub open spec fn decimal(n: nat) -> Seq<u8>
    decreases n,
{
    if n < 10 {
        seq![(DIGIT_0 + n) as u8]
    } else {
        decimal(n / 10).push((DIGIT_0 + n % 10) as u8)
    }
}

/// A decimal text is not empty and holds digits only.
pub proof fn lemma_decimal_digits(n: nat)
    ensures
        decimal(n).len() >= 1,
        forall|i: int| 0 <= i < decimal(n).len() ==> is_digit(#[trigger] decimal(n)[i]),
    decreases n,
{
    if n >= 10 {
        lemma_decimal_digits(n / 10);
    }
}

/// Different numbers have different decimal texts.
pub proof fn lemma_decimal_injective(a: nat, b: nat)
    requires
        decimal(a) == decimal(b),
    ensures
        a == b,
    decreases a,
{
    lemma_decimal_digits(a / 10);
    lemma_decimal_digits(b / 10);
    if a < 10 {
        assert(decimal(a).len() == 1);
        assert(b < 10);
        assert(decimal(a)[0] == (DIGIT_0 + a) as u8);
        assert(decimal(b)[0] == (DIGIT_0 + b) as u8);
    } else {
        assert(decimal(a).len() >= 2);
        assert(b >= 10);
        let (high_a, high_b) = (decimal(a / 10), decimal(b / 10));
        let (low_a, low_b) = ((DIGIT_0 + a % 10) as u8, (DIGIT_0 + b % 10) as u8);
        assert(high_a.push(low_a).drop_last() =~= high_a);
        assert(high_b.push(low_b).drop_last() =~= high_b);
        assert(high_a.push(low_a).last() == low_a);
        assert(high_b.push(low_b).last() == low_b);
        lemma_decimal_injective(a / 10, b / 10);
    }
}

/// Appends the decimal text of `n` to `out`.
pub fn push_decimal(out: &mut Vec<u8>, n: u32)
    ensures
        final(out)@ == old(out)@ + decimal(n as nat),
    decreases n,
{
    if n >= 10 {
        push_decimal(out, n / 10);
    }
    out.push(DIGIT_0 + (n % 10) as u8);
    assert(out@ =~= old(out)@ + decimal(n as nat));
}

} // verus!
