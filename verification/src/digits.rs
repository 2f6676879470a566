//! Decimal numerals: rendering an unsigned number as its decimal digit
//! string, and the value of a digit string read back. The renderer and the
//! codec both build on this module.

use vstd::prelude::*;

verus! {

/// Whether `c` is a decimal digit.
pub open spec fn is_digit(c: char) -> bool {
    48 <= c as int <= 57
}

/// The numeric value of the digit `c`.
pub open spec fn digit_val(c: char) -> int {
    c as int - 48
}

/// The one-character numeral of the digit `d`.
pub open spec fn digit_chars(d: int) -> Seq<char> {
    if d == 0 {
        "0"@
    } else if d == 1 {
        "1"@
    } else if d == 2 {
        "2"@
    } else if d == 3 {
        "3"@
    } else if d == 4 {
        "4"@
    } else if d == 5 {
        "5"@
    } else if d == 6 {
        "6"@
    } else if d == 7 {
        "7"@
    } else if d == 8 {
        "8"@
    } else {
        "9"@
    }
}

/// The decimal numeral of `n`: most significant digit first, no sign, no
/// leading zeros (a single zero for zero itself).
pub open spec fn dec_digits(n: int) -> Seq<char>
    recommends
        n >= 0,
    decreases n,
{
    if n < 10 {
        digit_chars(n)
    } else {
        dec_digits(n / 10) + digit_chars(n % 10)
    }
}

/// Whether every character of `s` is a decimal digit.
pub open spec fn all_digits(s: Seq<char>) -> bool {
    forall|i: int| 0 <= i < s.len() ==> is_digit(#[trigger] s[i])
}

/// The number a digit string denotes, most significant digit first. An empty
/// string denotes zero; leading zeros are allowed and carry no value.
pub open spec fn digits_value(s: Seq<char>) -> int
    recommends
        all_digits(s),
    decreases s.len(),
{
    if s.len() == 0 {
        0
    } else {
        digits_value(s.drop_last()) * 10 + digit_val(s.last())
    }
}

/// Each one-digit numeral is a single digit character denoting its digit.
pub proof fn lemma_digit_chars(d: int)
    requires
        0 <= d < 10,
    ensures
        digit_chars(d).len() == 1,
        is_digit(digit_chars(d)[0]),
        digit_val(digit_chars(d)[0]) == d,
{
    reveal_strlit("0");
    reveal_strlit("1");
    reveal_strlit("2");
    reveal_strlit("3");
    reveal_strlit("4");
    reveal_strlit("5");
    reveal_strlit("6");
    reveal_strlit("7");
    reveal_strlit("8");
    reveal_strlit("9");
}

/// A decimal numeral is never empty, consists of digits alone, and denotes
/// the number it was rendered from.
pub proof fn lemma_dec_digits(n: int)
    requires
        n >= 0,
    ensures
        dec_digits(n).len() >= 1,
        all_digits(dec_digits(n)),
        digits_value(dec_digits(n)) == n,
    decreases n,
{
    if n < 10 {
        lemma_digit_chars(n);
        assert(dec_digits(n).drop_last() =~= Seq::<char>::empty());
        assert(digits_value(dec_digits(n).drop_last()) == 0);
        assert(dec_digits(n).last() == digit_chars(n)[0]);
    } else {
        lemma_dec_digits(n / 10);
        lemma_digit_chars(n % 10);
        let s = dec_digits(n);
        let hi = dec_digits(n / 10);
        let lo = digit_chars(n % 10);
        assert(s.drop_last() =~= hi);
        assert(s.last() == lo[0]);
        assert(digits_value(s) == (n / 10) * 10 + n % 10);
    }
}

/// Reading one more digit multiplies the value read so far by ten and adds
/// the digit.
pub proof fn lemma_digits_value_step(s: Seq<char>, i: int)
    requires
        0 <= i < s.len(),
    ensures
        digits_value(s.subrange(0, i + 1)) == digits_value(s.subrange(0, i)) * 10 + digit_val(
            s[i],
        ),
{
    let t = s.subrange(0, i + 1);
    assert(t.drop_last() =~= s.subrange(0, i));
    assert(t.last() == s[i]);
}

/// Of a digit string, every prefix denotes at most what a longer prefix
/// denotes: reading further digits never shrinks the value.
pub proof fn lemma_digits_value_prefix_le(s: Seq<char>, i: int, j: int)
    requires
        0 <= i <= j <= s.len(),
        all_digits(s),
        digits_value(s.subrange(0, i)) >= 0,
    ensures
        digits_value(s.subrange(0, i)) <= digits_value(s.subrange(0, j)),
        digits_value(s.subrange(0, j)) >= 0,
    decreases j - i,
{
    if i < j {
        lemma_digits_value_step(s, i);
        lemma_digits_value_prefix_le(s, i + 1, j);
    }
}

/// The one-character numeral of the digit `d`, as text.
pub fn digit_str(d: u64) -> (r: &'static str)
    requires
        d < 10,
    ensures
        r@ == digit_chars(d as int),
{
    match d {
        0 => "0",
        1 => "1",
        2 => "2",
        3 => "3",
        4 => "4",
        5 => "5",
        6 => "6",
        7 => "7",
        8 => "8",
        _ => "9",
    }
}

/// Render `n` as its decimal numeral.
pub fn u64_decimal(n: u64) -> (r: String)
    ensures
        r@ == dec_digits(n as int),
    decreases n,
{
    if n < 10 {
        String::from_str(digit_str(n))
    } else {
        let mut s = u64_decimal(n / 10);
        s.append(digit_str(n % 10));
        s
    }
}

} // verus!
