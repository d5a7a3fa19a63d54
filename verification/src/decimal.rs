//! Decimal numerals of bytes, as the character table lists them.

use vstd::prelude::*;

verus! {

/// The ASCII digit zero, `b'0'`.
pub const DIGIT_ZERO: u8 = 48;

/// The decimal numeral of `n`, with no leading zeros.
pub open spec fn decimal_digits(n: u8) -> Seq<u8> {
    if n >= 100 {
        seq![
            (DIGIT_ZERO + n / 100) as u8,
            (DIGIT_ZERO + (n % 100) / 10) as u8,
            (DIGIT_ZERO + n % 10) as u8,
        ]
    } else if n >= 10 {
        seq![(DIGIT_ZERO + n / 10) as u8, (DIGIT_ZERO + n % 10) as u8]
    } else {
        seq![(DIGIT_ZERO + n) as u8]
    }
}

/// `b` is an ASCII decimal digit.
pub open spec fn is_digit(b: u8) -> bool {
    DIGIT_ZERO <= b <= DIGIT_ZERO + 9
}

/// The number that the ASCII decimal numeral `s` denotes.
pub open spec fn numeral_value(s: Seq<u8>) -> int
    decreases s.len(),
{
    if s.len() == 0 {
        0
    } else {
        numeral_value(s.drop_last()) * 10 + (s.last() - DIGIT_ZERO)
    }
}

/// The numeral of `n` is made of one to three digits, with no leading zero, and denotes `n`.
pub proof fn lemma_decimal_digits(n: u8)
    ensures
        1 <= decimal_digits(n).len() <= 3,
        forall|i: int| 0 <= i < decimal_digits(n).len() ==> is_digit(#[trigger] decimal_digits(n)[i]),
        decimal_digits(n).len() > 1 ==> decimal_digits(n)[0] != DIGIT_ZERO,
        numeral_value(decimal_digits(n)) == n,
{
    let s = decimal_digits(n);
    assert(numeral_value(Seq::<u8>::empty()) == 0);
    if n >= 100 {
        let s1 = s.drop_last().drop_last();
        assert(s1.drop_last() =~= Seq::<u8>::empty());
        assert(numeral_value(s1) == n / 100);
        assert(numeral_value(s.drop_last()) == (n / 100) * 10 + (n % 100) / 10);
        assert((n / 100) * 10 + (n % 100) / 10 == n / 10);
    } else if n >= 10 {
        assert(s.drop_last().drop_last() =~= Seq::<u8>::empty());
        assert(numeral_value(s.drop_last()) == n / 10);
    } else {
        assert(s.drop_last() =~= Seq::<u8>::empty());
    }
}

/// The bytes that print an 8 bit number in decimal: its numeral, made of digits only, with no
/// leading zero, that denotes `n`.
pub fn print_num(n: u8) -> (r: Vec<u8>)
    ensures
        r@ == decimal_digits(n),
        1 <= r@.len() <= 3,
        forall|i: int| 0 <= i < r@.len() ==> is_digit(#[trigger] r@[i]),
        r@.len() > 1 ==> r@[0] != DIGIT_ZERO,
        numeral_value(r@) == n,
{
    let mut out: Vec<u8> = Vec::new();
    if n >= 100 {
        out.push(DIGIT_ZERO + n / 100);
    }
    if n >= 10 {
        out.push(DIGIT_ZERO + (n % 100) / 10);
    }
    out.push(DIGIT_ZERO + n % 10);
    proof {
        assert(out@ =~= decimal_digits(n));
        lemma_decimal_digits(n);
    }
    out
}

} // verus!
