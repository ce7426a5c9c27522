//! Building text: single characters, decimal numbers and padding.

use vstd::prelude::*;
use vstd::string::*;

verus! {

/// Appends one character to a string.
///
/// Trusted: `String::push` puts the character after those already there and
/// changes none of them.
#[verifier::external_body]
pub(crate) fn push_char(text: &mut String, c: char)
    ensures
        final(text)@ == old(text)@.push(c),
{
    text.push(c)
}

/// The character that writes the digit `d`.
pub open spec fn digit(d: nat) -> char {
    if d == 0 {
        '0'
    } else if d == 1 {
        '1'
    } else if d == 2 {
        '2'
    } else if d == 3 {
        '3'
    } else if d == 4 {
        '4'
    } else if d == 5 {
        '5'
    } else if d == 6 {
        '6'
    } else if d == 7 {
        '7'
    } else if d == 8 {
        '8'
    } else {
        '9'
    }
}

/// A number written in base ten, without leading zeros.
pub open spec fn decimal(n: nat) -> Seq<char>
    decreases n,
{
    if n < 10 {
        seq![digit(n)]
    } else {
        decimal(n / 10).push(digit(n % 10))
    }
}

/// `count` copies of one character.
pub open spec fn repeated(c: char, count: nat) -> Seq<char> {
    Seq::new(count, |i: int| c)
}

/// A number written in base ten with zeros in front up to `width` characters;
/// a number that needs more is written in full.
pub open spec fn zero_padded(n: nat, width: nat) -> Seq<char> {
    let digits = decimal(n);
    if digits.len() < width {
        repeated('0', (width - digits.len()) as nat) + digits
    } else {
        digits
    }
}

/// A text with spaces behind it up to `width` characters; a longer text is
/// left as it is.
pub open spec fn space_padded(text: Seq<char>, width: nat) -> Seq<char> {
    if text.len() < width {
        text + repeated(' ', (width - text.len()) as nat)
    } else {
        text
    }
}

/// A number written with `zero_padded` begins with a digit.
pub proof fn zero_padded_starts_with_digit(n: nat, width: nat)
    ensures
        zero_padded(n, width).len() >= 1,
        '0' <= zero_padded(n, width)[0] <= '9',
{
    decimal_starts_with_digit(n);
}

/// A number written with `decimal` begins with a digit.
pub proof fn decimal_starts_with_digit(n: nat)
    ensures
        decimal(n).len() >= 1,
        '0' <= decimal(n)[0] <= '9',
    decreases n,
{
    if n >= 10 {
        decimal_starts_with_digit(n / 10);
    }
}

fn digit_char(d: u64) -> (c: char)
    requires
        d < 10,
    ensures
        c == digit(d as nat),
{
    if d == 0 {
        '0'
    } else if d == 1 {
        '1'
    } else if d == 2 {
        '2'
    } else if d == 3 {
        '3'
    } else if d == 4 {
        '4'
    } else if d == 5 {
        '5'
    } else if d == 6 {
        '6'
    } else if d == 7 {
        '7'
    } else if d == 8 {
        '8'
    } else {
        '9'
    }
}

/// The string made of the given characters.
pub fn string_of(chars: &Vec<char>) -> (text: String)
    ensures
        text@ == chars@,
{
    let mut text = String::new();
    let mut done: usize = 0;
    while done < chars.len()
        invariant
            done <= chars.len(),
            text@ == chars@.take(done as int),
        decreases chars.len() - done,
    {
        push_char(&mut text, chars[done]);
        done = done + 1;
    }
    text
}

/// Appends a number in base ten.
pub fn push_decimal(text: &mut String, n: u64)
    ensures
        final(text)@ == old(text)@ + decimal(n as nat),
    decreases n,
{
    if n >= 10 {
        push_decimal(text, n / 10);
    }
    push_char(text, digit_char(n % 10));
}

/// The number of characters that `decimal` writes for a number below 2^64.
fn decimal_width(n: u64) -> (width: usize)
    ensures
        width == decimal(n as nat).len(),
        1 <= width <= 20,
{
    proof {
        reveal_with_fuel(decimal, 21);
    }
    if n < 10 {
        1
    } else if n < 100 {
        2
    } else if n < 1_000 {
        3
    } else if n < 10_000 {
        4
    } else if n < 100_000 {
        5
    } else if n < 1_000_000 {
        6
    } else if n < 10_000_000 {
        7
    } else if n < 100_000_000 {
        8
    } else if n < 1_000_000_000 {
        9
    } else if n < 10_000_000_000 {
        10
    } else if n < 100_000_000_000 {
        11
    } else if n < 1_000_000_000_000 {
        12
    } else if n < 10_000_000_000_000 {
        13
    } else if n < 100_000_000_000_000 {
        14
    } else if n < 1_000_000_000_000_000 {
        15
    } else if n < 10_000_000_000_000_000 {
        16
    } else if n < 100_000_000_000_000_000 {
        17
    } else if n < 1_000_000_000_000_000_000 {
        18
    } else if n < 10_000_000_000_000_000_000 {
        19
    } else {
        20
    }
}

/// Appends `count` copies of one character.
pub fn push_repeated(text: &mut String, c: char, count: usize)
    ensures
        final(text)@ == old(text)@ + repeated(c, count as nat),
{
    let mut done: usize = 0;
    while done < count
        invariant
            done <= count,
            text@ == old(text)@ + repeated(c, done as nat),
        decreases count - done,
    {
        push_char(text, c);
        done = done + 1;
    }
}

/// Appends a number in base ten, with zeros in front up to `width` characters.
pub fn push_zero_padded(text: &mut String, n: u64, width: usize)
    ensures
        final(text)@ == old(text)@ + zero_padded(n as nat, width as nat),
{
    let digits = decimal_width(n);
    if digits < width {
        push_repeated(text, '0', width - digits);
    }
    push_decimal(text, n);
}

/// Appends a text, with spaces behind it up to `width` characters.
pub fn push_space_padded(text: &mut String, word: &str, width: usize)
    ensures
        final(text)@ == old(text)@ + space_padded(word@, width as nat),
{
    text.append(word);
    let length = word.unicode_len();
    if length < width {
        push_repeated(text, ' ', width - length);
    }
}

} // verus!
