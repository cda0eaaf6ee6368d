//! Characters, strings and decimal numerals.

use vstd::prelude::*;

verus! {

/// `String::push` appends one character to the end of the string and leaves
/// the characters before it as they were.
pub assume_specification[ std::string::String::push ](s: &mut std::string::String, c: char)
    ensures
        final(s)@ == old(s)@.push(c),
;

/// The characters of `s`, in order.
pub fn chars_of(s: &str) -> (chars: Vec<char>)
    ensures
        chars@ == s@,
{
    let mut chars: Vec<char> = Vec::new();
    for c in it: s.chars()
        invariant
            chars@ == it.seq().take(it.index() as int),
    {
        chars.push(c);
    }
    chars
}

/// The string made of `chars`, in order.
pub fn string_of(chars: &Vec<char>) -> (s: String)
    ensures
        s@ == chars@,
{
    let mut s = String::new();
    let mut i: usize = 0;
    while i < chars.len()
        invariant
            i <= chars.len(),
            s@ == chars@.take(i as int),
        decreases chars.len() - i,
    {
        s.push(chars[i]);
        i = i + 1;
    }
    s
}

/// The character that writes the digit `d`.
pub open spec fn digit(d: nat) -> char
    recommends
        d < 10,
{
    (48 + d) as char
}

/// The decimal numeral of `n`: no sign, no padding, no leading zero but for
/// zero itself.
pub open spec fn decimal(n: nat) -> Seq<char>
    decreases n,
{
    if n < 10 {
        seq![digit(n)]
    } else {
        decimal(n / 10).push(digit(n % 10))
    }
}

fn digit_char(d: u8) -> (c: char)
    requires
        d < 10,
    ensures
        c == digit(d as nat),
{
    (48u8 + d) as char
}

/// Appends the decimal numeral of `n` to `out`.
pub fn push_decimal(out: &mut String, n: u64)
    ensures
        final(out)@ == old(out)@ + decimal(n as nat),
{
    // The digits come out of the division lowest first.
    let mut low_first: Vec<char> = Vec::new();
    let mut rest: u64 = n;
    while rest >= 10
        invariant
            decimal(n as nat) == decimal(rest as nat) + low_first@.reverse(),
        decreases rest,
    {
        let d = (rest % 10) as u8;
        low_first.push(digit_char(d));
        rest = rest / 10;
    }
    out.push(digit_char(rest as u8));
    let mut i: usize = low_first.len();
    while i > 0
        invariant
            i <= low_first.len(),
            rest < 10,
            out@ == old(out)@ + decimal(rest as nat) + low_first@.reverse().take(
                low_first.len() - i,
            ),
        decreases i,
    {
        i = i - 1;
        out.push(low_first[i]);
    }
}

/// The decimal numeral of `n`.
pub fn decimal_string(n: u64) -> (s: String)
    ensures
        s@ == decimal(n as nat),
{
    let mut s = String::new();
    push_decimal(&mut s, n);
    s
}

/// Appends the characters of `tail` to `out`.
pub fn push_chars(out: &mut String, tail: &str)
    ensures
        final(out)@ == old(out)@ + tail@,
{
    out.append(tail);
}

} // verus!
