//! Lower-case hexadecimal text, as bytes of ASCII.
use crate::ascii::{DIGIT_0, DIGIT_9, LOWER_A, LOWER_F};
use vstd::prelude::*;

verus! {

/// The digit that stands for a value below sixteen: `0` to `9`, then `a` to
/// `f`.
pub open spec fn hex_digit(value: u8) -> u8 {
    if value < 10 {
        (DIGIT_0 + value) as u8
    } else {
        (LOWER_A + (value - 10)) as u8
    }
}

/// The value of a hexadecimal digit, `None` for any other byte. Only the
/// lower-case letters count as digits.
pub open spec fn hex_value(digit: u8) -> Option<u8> {
    if DIGIT_0 <= digit <= DIGIT_9 {
        Some((digit - DIGIT_0) as u8)
    } else if LOWER_A <= digit <= LOWER_F {
        Some((digit - LOWER_A + 10) as u8)
    } else {
        None
    }
}

/// The hexadecimal text of `bytes`: two digits for each byte, the high half
/// first.
pub open spec fn hex(bytes: Seq<u8>) -> Seq<u8> {
    Seq::new(
        2 * bytes.len(),
        |i: int|
            if i % 2 == 0 {
                hex_digit(bytes[i / 2] / 16)
            } else {
                hex_digit(bytes[i / 2] % 16)
            },
    )
}

/// A digit has the value it was made from, and every byte with a value is
/// the digit of that value.
pub proof fn lemma_hex_digit_value()
    ensures
        forall|value: u8| value < 16 ==> hex_value(#[trigger] hex_digit(value)) == Some(value),
        forall|digit: u8|
            hex_value(digit) is Some ==> hex_value(digit)->0 < 16 && hex_digit(
                #[trigger] hex_value(digit)->0,
            ) == digit,
{
}

/// Appending a byte appends its two digits.
pub proof fn lemma_hex_push(bytes: Seq<u8>, byte: u8)
    ensures
        hex(bytes.push(byte)) == hex(bytes).push(hex_digit(byte / 16)).push(hex_digit(byte % 16)),
{
    assert(hex(bytes.push(byte)) =~= hex(bytes).push(hex_digit(byte / 16)).push(
        hex_digit(byte % 16),
    ));
}

/// Different bytes have different hexadecimal texts.
pub proof fn lemma_hex_injective(a: Seq<u8>, b: Seq<u8>)
    requires
        hex(a) == hex(b),
    ensures
        a == b,
{
    assert(hex(a).len() == 2 * a.len());
    assert(hex(b).len() == 2 * b.len());
    assert forall|k: int| 0 <= k < a.len() implies a[k] == b[k] by {
        let (high_a, low_a) = ((a[k] / 16) as u8, (a[k] % 16) as u8);
        let (high_b, low_b) = ((b[k] / 16) as u8, (b[k] % 16) as u8);
        assert((2 * k) / 2 == k && (2 * k) % 2 == 0);
        assert((2 * k + 1) / 2 == k && (2 * k + 1) % 2 == 1);
        assert(hex(a)[2 * k] == hex_digit(high_a) && hex(b)[2 * k] == hex_digit(high_b));
        assert(hex(a)[2 * k + 1] == hex_digit(low_a) && hex(b)[2 * k + 1] == hex_digit(low_b));
        assert(high_a == high_b && low_a == low_b);
    }
    assert(a =~= b);
}

/// The digit of a value below sixteen.
fn digit_of(value: u8) -> (digit: u8)
    requires
        value < 16,
    ensures
        digit == hex_digit(value),
{
    if value < 10 {
        DIGIT_0 + value
    } else {
        LOWER_A + (value - 10)
    }
}

/// The value of a digit, `None` for a byte that is none.
fn value_of(digit: u8) -> (value: Option<u8>)
    ensures
        value == hex_value(digit),
{
    if DIGIT_0 <= digit && digit <= DIGIT_9 {
        Some(digit - DIGIT_0)
    } else if LOWER_A <= digit && digit <= LOWER_F {
        Some(digit - LOWER_A + 10)
    } else {
        None
    }
}

/// Appends the hexadecimal text of `bytes` to `out`.
pub fn push_hex(out: &mut Vec<u8>, bytes: &[u8])
    ensures
        final(out)@ == old(out)@ + hex(bytes@),
{
    let mut i: usize = 0;
    assert(hex(bytes@.take(0)) =~= Seq::<u8>::empty());
    while i < bytes.len()
        invariant
            i <= bytes.len(),
            out@ == old(out)@ + hex(bytes@.take(i as int)),
        decreases bytes.len() - i,
    {
        let byte = bytes[i];
        out.push(digit_of(byte / 16));
        out.push(digit_of(byte % 16));
        proof {
            lemma_hex_push(bytes@.take(i as int), byte);
            assert(bytes@.take(i + 1) =~= bytes@.take(i as int).push(byte));
        }
        i += 1;
    }
    assert(bytes@.take(bytes.len() as int) =~= bytes@);
}

/// The hexadecimal text of `bytes`.
pub fn to_hex(bytes: &[u8]) -> (text: Vec<u8>)
    ensures
        text@ == hex(bytes@),
{
    let mut text: Vec<u8> = Vec::new();
    push_hex(&mut text, bytes);
    text
}

/// The bytes that `text` is the hexadecimal text of, `None` where it is the
/// text of none: an odd length, or a byte that is no lower-case digit.
pub fn from_hex(text: &[u8]) -> (bytes: Option<Vec<u8>>)
    ensures
        match bytes {
            Some(found) => hex(found@) == text@,
            None => forall|any: Seq<u8>| hex(any) != text@,
        },
{
    if text.len() % 2 != 0 {
        assert forall|any: Seq<u8>| hex(any) != text@ by {
            assert(hex(any).len() == 2 * any.len());
        }
        return None;
    }
    let count: usize = text.len() / 2;
    let mut bytes: Vec<u8> = Vec::new();
    let mut i: usize = 0;
    assert(hex(bytes@) =~= text@.take(0));
    while i < count
        invariant
            i <= count,
            text.len() == 2 * count,
            bytes.len() == i,
            hex(bytes@) == text@.take(2 * i),
        decreases count - i,
    {
        let high = value_of(text[2 * i]);
        let low = value_of(text[2 * i + 1]);
        match (high, low) {
            (Some(h), Some(l)) => {
                proof {
                    lemma_hex_digit_value();
                    let byte = (h * 16 + l) as u8;
                    assert(byte / 16 == h && byte % 16 == l);
                    lemma_hex_push(bytes@, byte);
                    assert(text@.take(2 * (i + 1)) =~= text@.take(2 * i).push(
                        text@[2 * i],
                    ).push(text@[2 * i + 1]));
                }
                bytes.push(h * 16 + l);
            },
            _ => {
                assert forall|any: Seq<u8>| hex(any) != text@ by {
                    if hex(any) == text@ {
                        lemma_hex_digit_value();
                        assert(hex(any)[2 * i] == hex_digit(any[i as int] / 16));
                        assert(hex(any)[2 * i + 1] == hex_digit(any[i as int] % 16));
                        assert(hex_value(hex_digit((any[i as int] / 16) as u8)) is Some);
                        assert(hex_value(hex_digit((any[i as int] % 16) as u8)) is Some);
                    }
                }
                return None;
            },
        }
        i += 1;
    }
    assert(text@.take(2 * count) =~= text@);
    Some(bytes)
}

/// The array of `N` bytes that `text` is the hexadecimal text of, `None`
/// where it is the text of no such array.
pub fn array_from_hex<const N: usize>(text: &[u8]) -> (bytes: Option<[u8; N]>)
    ensures
        match bytes {
            Some(found) => hex(found@) == text@,
            None => forall|any: Seq<u8>| any.len() == N ==> hex(any) != text@,
        },
{
    match from_hex(text) {
        Some(found) => {
            if found.len() != N {
                assert forall|any: Seq<u8>| any.len() == N implies hex(any) != text@ by {
                    if hex(any) == text@ {
                        lemma_hex_injective(any, found@);
                    }
                }
                return None;
            }
            let mut bytes = [0u8; N];
            let mut i: usize = 0;
            while i < N
                invariant
                    i <= N,
                    found.len() == N,
                    bytes@.take(i as int) == found@.take(i as int),
                decreases N - i,
            {
                bytes[i] = found[i];
                assert(bytes@.take(i + 1) =~= bytes@.take(i as int).push(found@[i as int]));
                assert(found@.take(i + 1) =~= found@.take(i as int).push(found@[i as int]));
                i += 1;
            }
            assert(bytes@.take(N as int) =~= bytes@ && found@.take(N as int) =~= found@);
            Some(bytes)
        },
        None => None,
    }
}

} // verus!
