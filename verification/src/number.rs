//! Numbers as text: decimal numbers, hundredths and hexadecimal bytes.

use vstd::prelude::*;
use vstd::string::StringExecFns;

verus! {

/// The character for a digit below sixteen, lower case.
pub open spec fn digit_char(digit: int) -> char {
    if digit == 0 {
        '0'
    } else if digit == 1 {
        '1'
    } else if digit == 2 {
        '2'
    } else if digit == 3 {
        '3'
    } else if digit == 4 {
        '4'
    } else if digit == 5 {
        '5'
    } else if digit == 6 {
        '6'
    } else if digit == 7 {
        '7'
    } else if digit == 8 {
        '8'
    } else if digit == 9 {
        '9'
    } else if digit == 10 {
        'a'
    } else if digit == 11 {
        'b'
    } else if digit == 12 {
        'c'
    } else if digit == 13 {
        'd'
    } else if digit == 14 {
        'e'
    } else {
        'f'
    }
}

/// The decimal digits of `value`, without leading zeros.
pub open spec fn decimal(value: int) -> Seq<char>
    decreases value,
{
    if value < 10 {
        seq![digit_char(value)]
    } else {
        decimal(value / 10).push(digit_char(value % 10))
    }
}

/// A number given in hundredths, written with two decimal places.
pub open spec fn hundredths(value: int) -> Seq<char> {
    decimal(value / 100) + seq!['.', digit_char(value / 10 % 10), digit_char(value % 10)]
}

/// The two hexadecimal digits of a byte, lower case.
pub open spec fn hex_byte(byte: u8) -> Seq<char> {
    seq![digit_char(byte as int / 16), digit_char(byte as int % 16)]
}

fn digit_text(digit: usize) -> (text: &'static str)
    requires
        digit < 16,
    ensures
        text@ == seq![digit_char(digit as int)],
{
    proof {
        reveal_strlit("0");
        reveal_strlit("1");
        reveal_strlit("2");
        reveal_strlit("3");
        reveal_strlit("4");
        reveal_strlit("5");
        reveal_strlit("6");
        reveal_strlit("7");
        reveal_strlit("8");
        reveal_strlit("9");
        reveal_strlit("a");
        reveal_strlit("b");
        reveal_strlit("c");
        reveal_strlit("d");
        reveal_strlit("e");
        reveal_strlit("f");
    }
    let text = match digit {
        0 => "0",
        1 => "1",
        2 => "2",
        3 => "3",
        4 => "4",
        5 => "5",
        6 => "6",
        7 => "7",
        8 => "8",
        9 => "9",
        10 => "a",
        11 => "b",
        12 => "c",
        13 => "d",
        14 => "e",
        _ => "f",
    };
    assert(text@ =~= seq![digit_char(digit as int)]);
    text
}

/// Appends the decimal digits of `value` to `out`.
pub fn push_decimal(out: &mut String, value: usize)
    ensures
        final(out)@ == old(out)@ + decimal(value as int),
    decreases value,
{
    if value >= 10 {
        push_decimal(out, value / 10);
    }
    out.append(digit_text(value % 10));
    assert(out@ =~= old(out)@ + decimal(value as int));
}

/// Appends a number given in hundredths to `out`, with two decimal places.
pub fn push_hundredths(out: &mut String, value: usize)
    ensures
        final(out)@ == old(out)@ + hundredths(value as int),
{
    proof {
        reveal_strlit(".");
    }
    push_decimal(out, value / 100);
    out.append(".");
    out.append(digit_text(value / 10 % 10));
    out.append(digit_text(value % 10));
    assert(out@ =~= old(out)@ + hundredths(value as int));
}

/// Appends the two hexadecimal digits of `byte` to `out`.
pub fn push_hex(out: &mut String, byte: u8)
    ensures
        final(out)@ == old(out)@ + hex_byte(byte),
{
    out.append(digit_text(byte as usize / 16));
    out.append(digit_text(byte as usize % 16));
    assert(out@ =~= old(out)@ + hex_byte(byte));
}

/// Two numbers as text, each followed by a piece of text.
pub open spec fn pair_text(x: int, after_x: Seq<char>, y: int, after_y: Seq<char>) -> Seq<char> {
    decimal(x) + after_x + decimal(y) + after_y
}

/// Appends two numbers to `out`, each followed by a piece of text.
pub fn push_pair(out: &mut String, x: usize, after_x: &str, y: usize, after_y: &str)
    ensures
        final(out)@ == old(out)@ + pair_text(x as int, after_x@, y as int, after_y@),
{
    push_decimal(out, x);
    out.append(after_x);
    push_decimal(out, y);
    out.append(after_y);
    assert(out@ =~= old(out)@ + pair_text(x as int, after_x@, y as int, after_y@));
}

} // verus!
