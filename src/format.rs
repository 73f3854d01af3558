//! Decimal formatting of counts with `_` between groups of three digits,
//! as in `1_234_567`.
use vstd::prelude::*;

verus! {

/// The character of decimal digit `d`.
pub open spec fn digit_char(d: nat) -> char {
    (d + 48) as char
}

/// The decimal digits of `n`, most significant first, with no leading zero.
pub open spec fn decimal(n: nat) -> Seq<char>
    decreases n,
{
    if n < 10 {
        seq![digit_char(n)]
    } else {
        decimal(n / 10).push(digit_char(n % 10))
    }
}

/// `n < 1000` written with exactly three digits.
pub open spec fn three_digits(n: nat) -> Seq<char> {
    seq![digit_char(n / 100), digit_char(n / 10 % 10), digit_char(n % 10)]
}

/// The decimal digits of `n` with `_` before each group of three digits
/// that is counted from the right and has more digits to its left.
pub open spec fn grouped(n: nat) -> Seq<char>
    decreases n,
{
    if n < 1000 {
        decimal(n)
    } else {
        grouped(n / 1000) + seq!['_'] + three_digits(n % 1000)
    }
}

/// Relies on `String::push`: appends `c` to `s`.
#[verifier::external_body]
fn push_char(s: &mut String, c: char)
    ensures
        final(s)@ == old(s)@.push(c),
{
    s.push(c)
}

fn digit(d: usize) -> (r: char)
    requires
        d < 10,
    ensures
        r == digit_char(d as nat),
{
    (d as u8 + 48) as char
}

fn push_decimal(n: usize, s: &mut String)
    ensures
        final(s)@ == old(s)@ + decimal(n as nat),
    decreases n,
{
    if n >= 10 {
        push_decimal(n / 10, s);
    }
    push_char(s, digit(n % 10));
    assert(final(s)@ =~= old(s)@ + decimal(n as nat));
}

fn push_grouped(n: usize, s: &mut String)
    ensures
        final(s)@ == old(s)@ + grouped(n as nat),
    decreases n,
{
    if n < 1000 {
        push_decimal(n, s);
    } else {
        push_grouped(n / 1000, s);
        push_char(s, '_');
        let m = n % 1000;
        push_char(s, digit(m / 100));
        push_char(s, digit(m / 10 % 10));
        push_char(s, digit(m % 10));
        assert(final(s)@ =~= old(s)@ + grouped(n as nat));
    }
}

/// `value` in decimal with `_` between groups of three digits, counted from
/// the right: `1234567` gives `1_234_567`, `999` gives `999`.
pub fn fmt_usize_separator(value: usize) -> (r: String)
    ensures
        r@ == grouped(value as nat),
{
    let mut s = String::new();
    push_grouped(value, &mut s);
    assert(s@ =~= grouped(value as nat));
    s
}

} // verus!
