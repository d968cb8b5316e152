//! Decimal notation: what it is, that it can be read back, and how it is
//! written out.

use crate::config::pow10;
use crate::text::{
    all_digits, append_chars, decimal, digit_char, digit_value, digits_value, is_digit, pad_left,
    pad_right, zero_padded,
};
use vstd::prelude::*;

verus! {

/// Every digit character is the digit of its value, and the other way round.
pub proof fn lemma_digit_roundtrip()
    ensures
        forall|d: nat| d < 10 ==> is_digit(#[trigger] digit_char(d)) && digit_value(digit_char(d)) == d,
        forall|c: char| is_digit(c) ==> digit_value(c) < 10 && #[trigger] digit_char(digit_value(c)) == c,
{
}

/// The value of a row of digits with one more digit at its end.
pub proof fn lemma_digits_value_push(s: Seq<char>, c: char)
    ensures
        digits_value(s.push(c)) == digits_value(s) * 10 + digit_value(c),
{
    assert(s.push(c).drop_last() =~= s);
}

/// The decimal notation of `n` is made of digits, is not empty, and reads
/// back as `n`.
pub proof fn lemma_decimal_reads_back(n: nat)
    ensures
        decimal(n).len() >= 1,
        all_digits(decimal(n)),
        digits_value(decimal(n)) == n,
    decreases n,
{
    lemma_digit_roundtrip();
    if n < 10 {
        let s = seq![digit_char(n)];
        assert(digits_value(s.drop_last()) == 0);
    } else {
        lemma_decimal_reads_back(n / 10);
        lemma_digits_value_push(decimal(n / 10), digit_char(n % 10));
    }
}

/// A number below ten to the `w` takes at most `w` digits.
pub proof fn lemma_decimal_len(n: nat, w: nat)
    requires
        w >= 1,
        n < pow10(w),
    ensures
        decimal(n).len() <= w,
    decreases w,
{
    if n >= 10 {
        reveal_with_fuel(pow10, 2);
        lemma_decimal_len(n / 10, (w - 1) as nat);
    }
}

/// A row of `w` digits writes a number below ten to the `w`.
pub proof fn lemma_digits_value_bound(s: Seq<char>)
    requires
        all_digits(s),
    ensures
        digits_value(s) < pow10(s.len()),
    decreases s.len(),
{
    if s.len() > 0 {
        lemma_digit_roundtrip();
        let t = s.drop_last();
        assert(all_digits(t));
        lemma_digits_value_bound(t);
    }
}

/// Zeros in front do not change the number that a row of digits writes.
pub proof fn lemma_leading_zeros(k: nat, s: Seq<char>)
    ensures
        digits_value(Seq::new(k, |i: int| '0') + s) == digits_value(s),
    decreases s.len(), k,
{
    let z = Seq::new(k, |i: int| '0');
    if s.len() == 0 {
        if k > 0 {
            let shorter = Seq::new((k - 1) as nat, |i: int| '0');
            assert(z.drop_last() =~= shorter + s);
            lemma_leading_zeros((k - 1) as nat, s);
        }
    } else {
        assert((z + s).drop_last() =~= z + s.drop_last());
        lemma_leading_zeros(k, s.drop_last());
    }
}

/// Two rows of digits of one length that write the same number are the same
/// row.
pub proof fn lemma_digits_injective(a: Seq<char>, b: Seq<char>)
    requires
        a.len() == b.len(),
        all_digits(a),
        all_digits(b),
        digits_value(a) == digits_value(b),
    ensures
        a == b,
    decreases a.len(),
{
    if a.len() > 0 {
        lemma_digit_roundtrip();
        let ta = a.drop_last();
        let tb = b.drop_last();
        assert(all_digits(ta));
        assert(all_digits(tb));
        lemma_digits_injective(ta, tb);
        assert(b =~= tb.push(b.last()));
    }
}

/// The zero-padded notation of a number below ten to the `w` is a row of
/// exactly `w` digits that reads back as the number.
pub proof fn lemma_zero_padded(n: nat, w: nat)
    requires
        w >= 1,
        n < pow10(w),
    ensures
        zero_padded(n, w).len() == w,
        all_digits(zero_padded(n, w)),
        digits_value(zero_padded(n, w)) == n,
{
    lemma_decimal_reads_back(n);
    lemma_decimal_len(n, w);
    let digits = decimal(n);
    if digits.len() < w {
        lemma_leading_zeros((w - digits.len()) as nat, digits);
    }
}

/// A row of `w` digits is the zero-padded notation of the number it writes.
pub proof fn lemma_zero_padded_of_digits(s: Seq<char>)
    requires
        s.len() >= 1,
        all_digits(s),
    ensures
        digits_value(s) < pow10(s.len()),
        zero_padded(digits_value(s), s.len()) == s,
{
    lemma_digits_value_bound(s);
    lemma_zero_padded(digits_value(s), s.len());
    lemma_digits_injective(zero_padded(digits_value(s), s.len()), s);
}

/// The digit character of `d`.
pub(crate) fn digit_of(d: u8) -> (c: char)
    requires
        d < 10,
    ensures
        c == digit_char(d as nat),
{
    (48u8 + d) as char
}

/// The decimal notation of `n`.
pub(crate) fn decimal_chars(n: u128) -> (v: Vec<char>)
    ensures
        v@ == decimal(n as nat),
    decreases n,
{
    if n < 10 {
        let mut v: Vec<char> = Vec::new();
        v.push(digit_of(n as u8));
        v
    } else {
        let mut v = decimal_chars(n / 10);
        v.push(digit_of((n % 10) as u8));
        v
    }
}

/// `s` with copies of `fill` in front up to `width` characters.
pub(crate) fn padded_left(s: &[char], width: usize, fill: char) -> (v: Vec<char>)
    ensures
        v@ == pad_left(s@, width as nat, fill),
{
    let mut v: Vec<char> = Vec::new();
    let mut i: usize = s.len();
    while i < width
        invariant
            s.len() <= i,
            i <= width || i == s.len(),
            v@ == Seq::new((i - s.len()) as nat, |j: int| fill),
        decreases width - i,
    {
        v.push(fill);
        i += 1;
    }
    append_chars(&mut v, s);
    v
}

/// `s` with copies of `fill` behind it up to `width` characters.
pub(crate) fn padded_right(s: &[char], width: usize, fill: char) -> (v: Vec<char>)
    ensures
        v@ == pad_right(s@, width as nat, fill),
{
    let mut v: Vec<char> = Vec::new();
    append_chars(&mut v, s);
    let mut i: usize = s.len();
    while i < width
        invariant
            s.len() <= i,
            i <= width || i == s.len(),
            v@ == s@ + Seq::new((i - s.len()) as nat, |j: int| fill),
        decreases width - i,
    {
        v.push(fill);
        i += 1;
    }
    v
}

} // verus!
