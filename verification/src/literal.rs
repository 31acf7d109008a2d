//! Integer literals as decimal text, and the arithmetic on them that
//! literal-value replacement needs (done by `num_bigint`).
use vstd::prelude::*;
use num_bigint::BigInt;
use num_traits::{One, Zero};
use std::str::FromStr;

verus! {

/// Whether `c` is an ASCII decimal digit.
pub open spec fn is_digit(c: char) -> bool {
    '0' <= c && c <= '9'
}

/// Whether `s` is one or more decimal digits.
pub open spec fn is_digits(s: Seq<char>) -> bool {
    s.len() > 0 && forall|i: int| 0 <= i < s.len() ==> is_digit(#[trigger] s[i])
}

/// Whether `s` is a decimal integer: an optional `-` and one or more digits.
pub open spec fn is_decimal(s: Seq<char>) -> bool {
    if s.len() > 0 && s[0] == '-' {
        is_digits(s.drop_first())
    } else {
        is_digits(s)
    }
}

/// The value of a digit.
pub open spec fn digit_value(c: char) -> nat {
    ((c as u32) - ('0' as u32)) as nat
}

/// The value of a sequence of digits.
pub open spec fn digits_value(s: Seq<char>) -> nat
    decreases s.len(),
{
    if s.len() == 0 {
        0
    } else {
        digits_value(s.drop_last()) * 10 + digit_value(s.last())
    }
}

/// The value of a decimal integer.
pub open spec fn decimal_value(s: Seq<char>) -> int {
    if s.len() > 0 && s[0] == '-' {
        -(digits_value(s.drop_first()) as int)
    } else {
        digits_value(s) as int
    }
}

/// The digit for a value below ten.
pub open spec fn digit_char(d: nat) -> char {
    (('0' as u32) + (d as u32)) as char
}

/// The digits of `n`, without leading zeros (`"0"` for zero).
pub open spec fn digits_of(n: nat) -> Seq<char>
    decreases n,
{
    if n < 10 {
        seq![digit_char(n)]
    } else {
        digits_of(n / 10).push(digit_char(n % 10))
    }
}

/// The canonical decimal text of `i`, as an integer's `Display` writes it:
/// a `-` for negative values, then the digits without leading zeros.
pub open spec fn decimal_string(i: int) -> Seq<char> {
    if i < 0 {
        seq!['-'] + digits_of((-i) as nat)
    } else {
        digits_of(i as nat)
    }
}

/// The negation of a decimal integer, as canonical decimal text.
///
/// Calls `num_bigint`: parses with `BigInt::from_str`, negates, and writes
/// the result with `to_string`. The contract claims that the result is the
/// canonical text of the negated value.
#[verifier::external_body]
fn bigint_negated(v: &str) -> (r: String)
    requires
        is_decimal(v@),
    ensures
        r@ == decimal_string(-decimal_value(v@)),
{
    (-BigInt::from_str(v).unwrap()).to_string()
}

/// The successor of a decimal integer, as canonical decimal text.
///
/// Calls `num_bigint`: parses with `BigInt::from_str`, adds `BigInt::one()`,
/// and writes the result with `to_string`. The contract claims that the
/// result is the canonical text of the value plus one.
#[verifier::external_body]
fn bigint_successor(v: &str) -> (r: String)
    requires
        is_decimal(v@),
    ensures
        r@ == decimal_string(decimal_value(v@) + 1),
{
    (BigInt::from_str(v).unwrap() + BigInt::one()).to_string()
}

/// Whether a decimal integer is zero.
///
/// Calls `num_bigint`: parses with `BigInt::from_str` and tests with
/// `Zero::is_zero`. The contract claims the result is whether the value is 0.
#[verifier::external_body]
fn bigint_is_zero(v: &str) -> (r: bool)
    requires
        is_decimal(v@),
    ensures
        r == (decimal_value(v@) == 0),
{
    BigInt::from_str(v).unwrap().is_zero()
}

/// The negation of the literal `v`, as canonical decimal text.
pub fn negated_literal(v: &str) -> (r: String)
    requires
        is_decimal(v@),
    ensures
        r@ == decimal_string(-decimal_value(v@)),
{
    bigint_negated(v)
}

/// The literal `v` plus one, as canonical decimal text.
pub fn incremented_literal(v: &str) -> (r: String)
    requires
        is_decimal(v@),
    ensures
        r@ == decimal_string(decimal_value(v@) + 1),
{
    bigint_successor(v)
}

/// Whether the literal `v` is zero.
pub fn literal_is_zero(v: &str) -> (r: bool)
    requires
        is_decimal(v@),
    ensures
        r == (decimal_value(v@) == 0),
{
    bigint_is_zero(v)
}

/// Tests [`is_decimal`].
pub fn check_decimal(v: &str) -> (r: bool)
    ensures
        r == is_decimal(v@),
{
    let c = crate::text::chars_of(v);
    let start: usize = if c.len() > 0 && c[0] == '-' {
        1
    } else {
        0
    };
    if start >= c.len() {
        proof {
            if c@.len() > 0 && c@[0] == '-' {
                assert(c@.drop_first().len() == 0);
            }
        }
        return false;
    }
    let mut i = start;
    while i < c.len()
        invariant
            start <= i <= c@.len(),
            c@ == v@,
            start == 1 <==> (c@.len() > 0 && c@[0] == '-'),
            start == 0 || start == 1,
            forall|j: int| start <= j < i ==> is_digit(#[trigger] c@[j]),
        decreases c@.len() - i,
    {
        if !('0' <= c[i] && c[i] <= '9') {
            proof {
                assert(!is_digit(c@[i as int]));
                if start == 1 {
                    assert(c@.drop_first()[i - 1] == c@[i as int]);
                    assert(!is_digit(c@.drop_first()[i - 1]));
                    assert(!is_digits(c@.drop_first()));
                    assert(c@.len() > 0 && c@[0] == '-');
                    assert(!is_decimal(c@));
                } else {
                    assert(!is_digits(c@));
                    assert(!is_decimal(c@));
                }
                assert(c@ == v@);
            }
            return false;
        }
        i = i + 1;
    }
    proof {
        if start == 1 {
            assert forall|j: int| 0 <= j < c@.drop_first().len() implies is_digit(
                #[trigger] c@.drop_first()[j],
            ) by {
                assert(c@.drop_first()[j] == c@[j + 1]);
            }
        }
    }
    true
}

} // verus!

verus! {

/// The digit character for a value below ten.
fn digit_of(d: usize) -> (c: char)
    requires
        d < 10,
    ensures
        c == digit_char(d as nat),
{
    if d == 0 {
        '0'
    } else if d == 1 {
        '1'
    } else if d == 2 {
        '2'
    } else if d == 3 {
        '3'
    } else if d == 4 {
        '4'
    } else if d == 5 {
        '5'
    } else if d == 6 {
        '6'
    } else if d == 7 {
        '7'
    } else if d == 8 {
        '8'
    } else {
        '9'
    }
}

/// Appends the decimal digits of `n`.
fn push_digits(out: &mut String, n: usize)
    ensures
        final(out)@ == old(out)@ + digits_of(n as nat),
    decreases n,
{
    if n < 10 {
        let c = digit_of(n);
        crate::text::push_char(out, c);
        assert(digits_of(n as nat) == seq![digit_char(n as nat)]);
    } else {
        push_digits(out, n / 10);
        let c = digit_of(n % 10);
        crate::text::push_char(out, c);
        assert(digits_of(n as nat) == digits_of((n / 10) as nat).push(digit_char((n % 10) as nat)));
    }
}

/// The decimal text of `n`, as `usize`'s `Display` writes it.
pub fn decimal_text(n: usize) -> (r: String)
    ensures
        r@ == digits_of(n as nat),
{
    let mut s = String::new();
    push_digits(&mut s, n);
    s
}

} // verus!

verus! {

proof fn lemma_digit_round_trip(d: nat)
    requires
        d < 10,
    ensures
        digit_value(digit_char(d)) == d,
        is_digit(digit_char(d)),
        digit_char(d) != '-',
{
    assert(('0' as u32) == 48);
    assert(((48 + d) as u32) as char as u32 == (48 + d) as u32);
}

proof fn lemma_digits_round_trip(n: nat)
    ensures
        digits_value(digits_of(n)) == n,
        is_digits(digits_of(n)),
        digits_of(n)[0] != '-',
    decreases n,
{
    if n < 10 {
        lemma_digit_round_trip(n);
        assert(digits_of(n).drop_last() =~= Seq::<char>::empty());
        assert(digits_value(digits_of(n)) == digits_value(digits_of(n).drop_last()) * 10 + digit_value(
            digits_of(n).last(),
        ));
    } else {
        lemma_digits_round_trip(n / 10);
        lemma_digit_round_trip(n % 10);
        let s = digits_of(n);
        assert(s.drop_last() =~= digits_of(n / 10));
        assert(s.last() == digit_char(n % 10));
        assert((n / 10) * 10 + n % 10 == n) by (nonlinear_arith);
        assert(digits_value(s) == digits_value(s.drop_last()) * 10 + digit_value(s.last()));
        assert forall|i: int| 0 <= i < s.len() implies is_digit(#[trigger] s[i]) by {
            if i < s.len() - 1 {
                assert(s[i] == digits_of(n / 10)[i]);
            }
        }
        assert(s[0] == digits_of(n / 10)[0]);
    }
}

/// Decimal text reads back as the integer it was written from.
pub proof fn law_decimal_round_trip(i: int)
    ensures
        is_decimal(decimal_string(i)),
        decimal_value(decimal_string(i)) == i,
{
    if i < 0 {
        let n = (-i) as nat;
        lemma_digits_round_trip(n);
        let s = decimal_string(i);
        assert(s.drop_first() =~= digits_of(n));
    } else {
        lemma_digits_round_trip(i as nat);
    }
}

} // verus!
