//! Conversions between strings and symbol sequences, and the small text
//! builders the frame layout is made of.

use vstd::prelude::*;

verus! {

/// `String::push` appends one character to the end of the string.
pub assume_specification[ String::push ](s: &mut String, ch: char)
    ensures
        final(s)@ == old(s)@.push(ch),
;

/// The symbols of `s`, in order.
pub fn chars_of(s: &str) -> (symbols: Vec<char>)
    ensures
        symbols@ == s@,
{
    let mut symbols: Vec<char> = Vec::new();
    for c in it: s.chars()
        invariant
            symbols@ == it.seq().take(it.index()),
    {
        symbols.push(c);
    }
    symbols
}

/// The string spelled by `symbols`.
pub fn string_of(symbols: &Vec<char>) -> (s: String)
    ensures
        s@ == symbols@,
{
    let mut s = String::new();
    let mut i: usize = 0;
    while i < symbols.len()
        invariant
            i <= symbols.len(),
            s@ == symbols@.take(i as int),
        decreases symbols.len() - i,
    {
        s.push(symbols[i]);
        i += 1;
    }
    s
}

/// The symbol of a decimal digit.
pub open spec fn digit(d: nat) -> char {
    if d == 0 {
        '0'
    } else if d == 1 {
        '1'
    } else if d == 2 {
        '2'
    } else if d == 3 {
        '3'
    } else if d == 4 {
        '4'
    } else if d == 5 {
        '5'
    } else if d == 6 {
        '6'
    } else if d == 7 {
        '7'
    } else if d == 8 {
        '8'
    } else {
        '9'
    }
}

/// A number in decimal notation, without leading zeros.
pub open spec fn decimal(n: nat) -> Seq<char>
    decreases n,
{
    if n < 10 {
        seq![digit(n)]
    } else {
        decimal(n / 10).push(digit(n % 10))
    }
}

/// The symbol of the decimal digit `d`.
pub fn digit_symbol(d: usize) -> (symbol: char)
    requires
        d < 10,
    ensures
        symbol == digit(d as nat),
{
    if d == 0 {
        '0'
    } else if d == 1 {
        '1'
    } else if d == 2 {
        '2'
    } else if d == 3 {
        '3'
    } else if d == 4 {
        '4'
    } else if d == 5 {
        '5'
    } else if d == 6 {
        '6'
    } else if d == 7 {
        '7'
    } else if d == 8 {
        '8'
    } else {
        '9'
    }
}

/// `n` in decimal notation.
pub fn decimal_string(n: usize) -> (text: String)
    ensures
        text@ == decimal(n as nat),
    decreases n,
{
    if n < 10 {
        let mut text = String::new();
        text.push(digit_symbol(n));
        text
    } else {
        let mut text = decimal_string(n / 10);
        text.push(digit_symbol(n % 10));
        text
    }
}

} // verus!
