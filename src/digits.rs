//! Decimal rendering of numeric totems, zero-padded to a fixed width.

use vstd::prelude::*;

verus! {

/// Width to which numeric totems are padded with leading zeros.
pub const PAD_WIDTH: usize = 6;

/// The character of a decimal digit.
pub open spec fn digit_char(d: nat) -> char {
    if d == 0 {
        '0'
    } else if d == 1 {
        '1'
    } else if d == 2 {
        '2'
    } else if d == 3 {
        '3'
    } else if d == 4 {
        '4'
    } else if d == 5 {
        '5'
    } else if d == 6 {
        '6'
    } else if d == 7 {
        '7'
    } else if d == 8 {
        '8'
    } else {
        '9'
    }
}

/// The value of a decimal digit character (other characters count as zero).
pub open spec fn digit_value(c: char) -> nat {
    if c == '1' {
        1
    } else if c == '2' {
        2
    } else if c == '3' {
        3
    } else if c == '4' {
        4
    } else if c == '5' {
        5
    } else if c == '6' {
        6
    } else if c == '7' {
        7
    } else if c == '8' {
        8
    } else if c == '9' {
        9
    } else {
        0
    }
}

/// The shortest decimal representation of `n`.
pub open spec fn decimal(n: nat) -> Seq<char>
    decreases n,
{
    if n < 10 {
        seq![digit_char(n)]
    } else {
        decimal(n / 10).push(digit_char(n % 10))
    }
}

/// `k` zero characters.
pub open spec fn zeros(k: nat) -> Seq<char> {
    Seq::new(k, |i: int| '0')
}

/// The decimal representation of `n`, with leading zeros up to `PAD_WIDTH`
/// characters; wider numbers keep their natural width and are never cut.
pub open spec fn padded_decimal(n: nat) -> Seq<char> {
    let d = decimal(n);
    if d.len() < PAD_WIDTH {
        zeros((PAD_WIDTH - d.len()) as nat) + d
    } else {
        d
    }
}

/// The number that a string of decimal digits denotes.
pub open spec fn digits_value(s: Seq<char>) -> nat
    decreases s.len(),
{
    if s.len() == 0 {
        0
    } else {
        digits_value(s.drop_last()) * 10 + digit_value(s.last())
    }
}

proof fn lemma_digit_round_trip(d: nat)
    requires
        d < 10,
    ensures
        digit_value(digit_char(d)) == d,
{
}

proof fn lemma_decimal_value(n: nat)
    ensures
        digits_value(decimal(n)) == n,
    decreases n,
{
    if n < 10 {
        lemma_digit_round_trip(n);
        assert(decimal(n).drop_last() =~= Seq::<char>::empty());
        assert(digits_value(Seq::<char>::empty()) == 0);
    } else {
        lemma_decimal_value(n / 10);
        lemma_digit_round_trip(n % 10);
        assert(decimal(n).drop_last() =~= decimal(n / 10));
        assert(decimal(n).last() == digit_char(n % 10));
        assert(n == (n / 10) * 10 + n % 10);
    }
}

proof fn lemma_zeros_value(k: nat, s: Seq<char>)
    ensures
        digits_value(zeros(k) + s) == digits_value(s),
    decreases k + s.len(),
{
    if s.len() == 0 {
        assert(zeros(k) + s =~= zeros(k));
        if k > 0 {
            assert(zeros(k).drop_last() =~= zeros((k - 1) as nat) + s);
            lemma_zeros_value((k - 1) as nat, s);
        }
    } else {
        assert((zeros(k) + s).drop_last() =~= zeros(k) + s.drop_last());
        lemma_zeros_value(k, s.drop_last());
    }
}

/// A padded numeric totem denotes the number it was made from.
pub proof fn lemma_padded_value(n: nat)
    ensures
        digits_value(padded_decimal(n)) == n,
{
    lemma_decimal_value(n);
    let d = decimal(n);
    if d.len() < PAD_WIDTH {
        lemma_zeros_value((PAD_WIDTH - d.len()) as nat, d);
    }
}

/// Distinct numbers give distinct padded totems.
pub proof fn lemma_padded_injective(a: nat, b: nat)
    ensures
        a != b ==> padded_decimal(a) != padded_decimal(b),
{
    lemma_padded_value(a);
    lemma_padded_value(b);
}

/// Relies on std's `format!` with the `{:06}` specification: the decimal
/// digits of an unsigned number, with leading zeros up to six characters.
#[verifier::external_body]
pub(crate) fn format_padded(n: u32) -> (r: String)
    ensures
        r@ == padded_decimal(n as nat),
{
    format!("{:06}", n)
}

} // verus!
