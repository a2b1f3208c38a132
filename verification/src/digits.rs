//! Digit characters and positional notation, shared by the validated
//! value types: decimal strings for signal percentages and base-6
//! strings for diagnostic codes.

use vstd::prelude::*;

verus! {

/// The digit character for `d`, for `0 <= d <= 9`.
pub open spec fn digit_char(d: int) -> char {
    if d == 0 {
        '0'
    } else if d == 1 {
        '1'
    } else if d == 2 {
        '2'
    } else if d == 3 {
        '3'
    } else if d == 4 {
        '4'
    } else if d == 5 {
        '5'
    } else if d == 6 {
        '6'
    } else if d == 7 {
        '7'
    } else if d == 8 {
        '8'
    } else {
        '9'
    }
}

/// The numeric value of a digit character, counted from `'0'`.
pub open spec fn digit_value(c: char) -> int {
    c as u32 - '0' as u32
}

/// `c` is a decimal digit, `'0'` through `'9'`.
pub open spec fn is_dec_digit(c: char) -> bool {
    '0' as u32 <= c as u32 <= '9' as u32
}

/// `c` is a base-6 digit, `'0'` through `'5'`.
pub open spec fn is_base6_digit(c: char) -> bool {
    '0' as u32 <= c as u32 <= '5' as u32
}

/// Every character of `s` is a decimal digit.
pub open spec fn all_dec_digits(s: Seq<char>) -> bool {
    forall|i: int| 0 <= i < s.len() ==> is_dec_digit(#[trigger] s[i])
}

/// The number denoted by a string of decimal digits, most significant
/// digit first. Empty strings denote zero; leading zeros are allowed.
pub open spec fn dec_digits_value(s: Seq<char>) -> int
    decreases s.len(),
{
    if s.len() == 0 {
        0
    } else {
        dec_digits_value(s.drop_last()) * 10 + digit_value(s.last())
    }
}

/// The canonical decimal string of `n >= 0`: no sign, no leading
/// zeros, and `"0"` for zero itself.
pub open spec fn dec_string(n: int) -> Seq<char>
    decreases n,
{
    if n < 10 {
        seq![digit_char(n)]
    } else {
        dec_string(n / 10).push(digit_char(n % 10))
    }
}

/// The canonical base-6 string of `n >= 0`: no leading zeros, and
/// `"0"` for zero itself.
pub open spec fn base6_string(n: int) -> Seq<char>
    decreases n,
{
    if n < 6 {
        seq![digit_char(n)]
    } else {
        base6_string(n / 6).push(digit_char(n % 6))
    }
}

/// Reading the digit character of `d` back as a number gives `d`.
pub proof fn lemma_digit_char_value(d: int)
    requires
        0 <= d <= 9,
    ensures
        digit_value(digit_char(d)) == d,
        is_dec_digit(digit_char(d)),
        d <= 5 ==> is_base6_digit(digit_char(d)),
{
}

/// The canonical decimal string of `n` is made of decimal digits and
/// denotes `n` again: parsing inverts printing.
pub proof fn lemma_dec_string_value(n: int)
    requires
        n >= 0,
    ensures
        dec_string(n).len() >= 1,
        all_dec_digits(dec_string(n)),
        dec_digits_value(dec_string(n)) == n,
    decreases n,
{
    if n < 10 {
        lemma_digit_char_value(n);
        let s = dec_string(n);
        assert(s =~= seq![digit_char(n)]);
        assert(s.last() == digit_char(n));
        assert(s.drop_last() =~= Seq::<char>::empty());
        assert(dec_digits_value(Seq::<char>::empty()) == 0);
        assert(dec_digits_value(s) == 0 * 10 + digit_value(digit_char(n)));
    } else {
        lemma_dec_string_value(n / 10);
        lemma_digit_char_value(n % 10);
        let prefix = dec_string(n / 10);
        let whole = prefix.push(digit_char(n % 10));
        assert(whole.drop_last() =~= prefix);
        assert(whole.last() == digit_char(n % 10));
        assert(dec_digits_value(whole) == (n / 10) * 10 + n % 10);
        assert((n / 10) * 10 + n % 10 == n) by (nonlinear_arith)
            requires n >= 0;
        assert(forall|i: int| 0 <= i < whole.len() ==> is_dec_digit(#[trigger] whole[i]));
    }
}

/// A digit string always denotes a number that is not negative.
pub proof fn lemma_dec_digits_value_nonneg(s: Seq<char>)
    requires
        all_dec_digits(s),
    ensures
        dec_digits_value(s) >= 0,
    decreases s.len(),
{
    if s.len() > 0 {
        assert(all_dec_digits(s.drop_last()));
        lemma_dec_digits_value_nonneg(s.drop_last());
        assert(dec_digits_value(s.drop_last()) * 10 >= 0) by (nonlinear_arith)
            requires dec_digits_value(s.drop_last()) >= 0;
    }
}

/// A one-character string slice holding the digit character of `d`.
pub fn digit_str(d: u8) -> (r: &'static str)
    requires
        d <= 9,
    ensures
        r@ =~= seq![digit_char(d as int)],
{
    proof {
        reveal_strlit("0");
        reveal_strlit("1");
        reveal_strlit("2");
        reveal_strlit("3");
        reveal_strlit("4");
        reveal_strlit("5");
        reveal_strlit("6");
        reveal_strlit("7");
        reveal_strlit("8");
        reveal_strlit("9");
    }
    match d {
        0 => "0",
        1 => "1",
        2 => "2",
        3 => "3",
        4 => "4",
        5 => "5",
        6 => "6",
        7 => "7",
        8 => "8",
        _ => "9",
    }
}

} // verus!
