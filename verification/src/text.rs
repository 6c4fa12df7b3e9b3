//! Helpers that build strings from characters and numbers.
use vstd::prelude::*;

verus! {

/// `String::push` appends the given character to the end of the string.
pub assume_specification[ std::string::String::push ](text: &mut std::string::String, c: char)
    ensures
        final(text)@ == old(text)@.push(c),
;

/// Whether a string and a string slice hold the same characters.
pub fn same_text(text: &String, other: &str) -> (same: bool)
    ensures
        same == (text@ == other@),
{
    let other = other.to_owned();
    *text == other
}

/// The characters of `text` from `from` up to, not including, `to`.
pub(crate) fn substring(text: &Vec<char>, from: usize, to: usize) -> (part: String)
    requires
        from <= to <= text@.len(),
    ensures
        part@ == text@.subrange(from as int, to as int),
{
    let mut part = String::new();
    let mut i: usize = from;
    while i < to
        invariant
            from <= i <= to <= text@.len(),
            part@ == text@.subrange(from as int, i as int),
        decreases to - i,
    {
        part.push(text[i]);
        i += 1;
    }
    part
}

/// The characters of a string, one by one.
pub(crate) fn characters(text: &str) -> (chars: Vec<char>)
    ensures
        chars@ == text@,
{
    let mut chars: Vec<char> = Vec::new();
    for c in it: text.chars()
        invariant
            it.seq() == text@,
            chars@ == it.seq().subrange(0, it.index() as int),
    {
        chars.push(c);
    }
    assert(chars@ == text@);
    chars
}

/// The character that stands for a digit below ten.
pub open spec fn digit_char(d: int) -> char {
    if d == 0 {
        '0'
    } else if d == 1 {
        '1'
    } else if d == 2 {
        '2'
    } else if d == 3 {
        '3'
    } else if d == 4 {
        '4'
    } else if d == 5 {
        '5'
    } else if d == 6 {
        '6'
    } else if d == 7 {
        '7'
    } else if d == 8 {
        '8'
    } else {
        '9'
    }
}

/// The decimal digits of a natural number, without leading zeros.
pub open spec fn natural_text(n: nat) -> Seq<char>
    decreases n,
{
    if n < 10 {
        seq![digit_char(n as int)]
    } else {
        natural_text(n / 10).push(digit_char((n % 10) as int))
    }
}

/// The decimal notation of an integer, with a minus sign where it is negative.
pub open spec fn integer_text(v: int) -> Seq<char> {
    if v < 0 {
        seq!['-'] + natural_text((-v) as nat)
    } else {
        natural_text(v as nat)
    }
}

fn digit(d: u64) -> (c: char)
    requires
        d < 10,
    ensures
        c == digit_char(d as int),
{
    if d == 0 {
        '0'
    } else if d == 1 {
        '1'
    } else if d == 2 {
        '2'
    } else if d == 3 {
        '3'
    } else if d == 4 {
        '4'
    } else if d == 5 {
        '5'
    } else if d == 6 {
        '6'
    } else if d == 7 {
        '7'
    } else if d == 8 {
        '8'
    } else {
        '9'
    }
}

/// Appends the decimal digits of `n` to `text`.
pub fn push_natural(text: &mut String, n: u64)
    ensures
        final(text)@ == old(text)@ + natural_text(n as nat),
    decreases n,
{
    if n < 10 {
        text.push(digit(n));
    } else {
        push_natural(text, n / 10);
        text.push(digit(n % 10));
    }
}

/// Appends the decimal notation of `v` to `text`.
pub fn push_integer(text: &mut String, v: i64)
    ensures
        final(text)@ == old(text)@ + integer_text(v as int),
{
    if v < 0 {
        text.push('-');
        let magnitude: u64 = if v == i64::MIN {
            0x8000_0000_0000_0000u64
        } else {
            (-v) as u64
        };
        push_natural(text, magnitude);
    } else {
        push_natural(text, v as u64);
    }
}

/// The notation of a length: its whole units and, where it has a fraction, a point and
/// the three digits of its thousandths.
pub open spec fn scalar_text(v: int) -> Seq<char> {
    let magnitude = if v < 0 {
        -v
    } else {
        v
    };
    let sign = if v < 0 {
        seq!['-']
    } else {
        Seq::<char>::empty()
    };
    let whole = natural_text((magnitude / 1000) as nat);
    let fraction = magnitude % 1000;
    if fraction == 0 {
        sign + whole
    } else {
        sign + whole + seq![
            '.',
            digit_char(fraction / 100),
            digit_char((fraction / 10) % 10),
            digit_char(fraction % 10),
        ]
    }
}

/// Appends the notation of the length `v` to `text`.
pub fn push_scalar(text: &mut String, v: i64)
    ensures
        final(text)@ == old(text)@ + scalar_text(v as int),
{
    let ghost before = text@;
    let magnitude: u64 = if v == i64::MIN {
        0x8000_0000_0000_0000u64
    } else if v < 0 {
        (-v) as u64
    } else {
        v as u64
    };
    if v < 0 {
        text.push('-');
    }
    push_natural(text, magnitude / 1000);
    let fraction: u64 = magnitude % 1000;
    if fraction != 0 {
        text.push('.');
        text.push(digit(fraction / 100));
        text.push(digit((fraction / 10) % 10));
        text.push(digit(fraction % 10));
    }
    assert(text@ == before + scalar_text(v as int));
}

} // verus!
