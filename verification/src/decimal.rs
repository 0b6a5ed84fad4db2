//! Decimal notation of type tags.

use vstd::prelude::*;

verus! {

/// The character that stands for one decimal digit.
pub open spec fn digit_char(d: nat) -> char
    recommends
        d < 10,
{
    if d == 0 {
        '0'
    } else if d == 1 {
        '1'
    } else if d == 2 {
        '2'
    } else if d == 3 {
        '3'
    } else if d == 4 {
        '4'
    } else if d == 5 {
        '5'
    } else if d == 6 {
        '6'
    } else if d == 7 {
        '7'
    } else if d == 8 {
        '8'
    } else {
        '9'
    }
}

/// One of the characters `0` to `9`.
pub open spec fn is_decimal_digit(c: char) -> bool {
    '0' <= c && c <= '9'
}

/// The plain decimal notation of `n`: most significant digit first, no sign,
/// no padding, and no leading zero except for `0` itself.
pub open spec fn decimal_string(n: nat) -> Seq<char>
    decreases n,
{
    if n < 10 {
        seq![digit_char(n)]
    } else {
        decimal_string(n / 10).push(digit_char(n % 10))
    }
}

/// A number below ten is written with one digit, any other with more.
pub proof fn lemma_decimal_len(n: nat)
    ensures
        decimal_string(n).len() >= 1,
        decimal_string(n).len() == 1 <==> n < 10,
    decreases n,
{
    if n >= 10 {
        lemma_decimal_len(n / 10);
    }
}

/// Different numbers are written differently.
pub proof fn lemma_decimal_injective(a: nat, b: nat)
    requires
        decimal_string(a) == decimal_string(b),
    ensures
        a == b,
    decreases a,
{
    lemma_decimal_len(a);
    lemma_decimal_len(b);
    if a < 10 {
        assert(decimal_string(a)[0] == digit_char(a));
        assert(decimal_string(b)[0] == digit_char(b));
    } else {
        assert(decimal_string(a).drop_last() =~= decimal_string(a / 10));
        assert(decimal_string(b).drop_last() =~= decimal_string(b / 10));
        assert(decimal_string(a).last() == digit_char(a % 10));
        assert(decimal_string(b).last() == digit_char(b % 10));
        lemma_decimal_injective(a / 10, b / 10);
    }
}

/// Only zero is written with a leading `0`.
pub proof fn lemma_decimal_leading_digit(n: nat)
    ensures
        decimal_string(n)[0] == '0' <==> n == 0,
    decreases n,
{
    if n >= 10 {
        lemma_decimal_len(n / 10);
        lemma_decimal_leading_digit(n / 10);
        assert(decimal_string(n)[0] == decimal_string(n / 10)[0]);
    }
}

/// A decimal notation holds decimal digits only.
pub proof fn lemma_decimal_digits(n: nat, i: int)
    requires
        0 <= i < decimal_string(n).len(),
    ensures
        is_decimal_digit(decimal_string(n)[i]),
    decreases n,
{
    if n >= 10 && i < decimal_string(n / 10).len() {
        lemma_decimal_digits(n / 10, i);
    }
}

/// One decimal digit as a string slice.
fn digit_str(d: u64) -> (s: &'static str)
    requires
        d < 10,
    ensures
        s@ == seq![digit_char(d as nat)],
{
    proof {
        reveal_strlit("0");
        reveal_strlit("1");
        reveal_strlit("2");
        reveal_strlit("3");
        reveal_strlit("4");
        reveal_strlit("5");
        reveal_strlit("6");
        reveal_strlit("7");
        reveal_strlit("8");
        reveal_strlit("9");
    }
    let s = if d == 0 {
        "0"
    } else if d == 1 {
        "1"
    } else if d == 2 {
        "2"
    } else if d == 3 {
        "3"
    } else if d == 4 {
        "4"
    } else if d == 5 {
        "5"
    } else if d == 6 {
        "6"
    } else if d == 7 {
        "7"
    } else if d == 8 {
        "8"
    } else {
        "9"
    };
    assert(s@ =~= seq![digit_char(d as nat)]);
    s
}

/// Writes a tag in plain decimal notation.
pub fn tag_string(tag: u64) -> (s: String)
    ensures
        s@ == decimal_string(tag as nat),
    decreases tag,
{
    if tag < 10 {
        String::from_str(digit_str(tag))
    } else {
        let mut s = tag_string(tag / 10);
        s.append(digit_str(tag % 10));
        assert(s@ =~= decimal_string(tag as nat));
        s
    }
}

} // verus!
