use vstd::prelude::*;

use crate::time::Date;

verus! {

/// The character that writes a digit.
pub open spec fn digit_char(digit: int) -> char {
    if digit == 0 {
        '0'
    } else if digit == 1 {
        '1'
    } else if digit == 2 {
        '2'
    } else if digit == 3 {
        '3'
    } else if digit == 4 {
        '4'
    } else if digit == 5 {
        '5'
    } else if digit == 6 {
        '6'
    } else if digit == 7 {
        '7'
    } else if digit == 8 {
        '8'
    } else {
        '9'
    }
}

/// The decimal digits of a number, without leading zeros.
pub open spec fn number_text(n: nat) -> Seq<char>
    decreases n,
{
    if n < 10 {
        seq![digit_char(n as int)]
    } else {
        number_text(n / 10).push(digit_char((n % 10) as int))
    }
}

/// The decimal digits of a number, with a zero in front where it has only one.
pub open spec fn two_digits(n: nat) -> Seq<char> {
    if n < 10 {
        seq!['0'] + number_text(n)
    } else {
        number_text(n)
    }
}

/// The decimal digits of a number, with zeros in front where it has fewer than four.
pub open spec fn four_digits(n: nat) -> Seq<char> {
    if n < 10 {
        seq!['0', '0', '0'] + number_text(n)
    } else if n < 100 {
        seq!['0', '0'] + number_text(n)
    } else if n < 1000 {
        seq!['0'] + number_text(n)
    } else {
        number_text(n)
    }
}

/// A date as it is shown: the day and the month with two digits, the year with four, points
/// between them, and a minus sign before a year before the year zero.
pub open spec fn date_text(date: Date) -> Seq<char> {
    two_digits(date.day as nat) + seq!['.'] + two_digits(date.month as nat) + seq!['.'] + (
    if date.year < 0 {
        seq!['-'] + four_digits((-date.year) as nat)
    } else {
        four_digits(date.year as nat)
    })
}

/// The text of one digit.
fn digit_text(digit: u32) -> (r: &'static str)
    requires
        digit < 10,
    ensures
        r@ == seq![digit_char(digit as int)],
{
    proof {
        reveal_strlit("0");
        reveal_strlit("1");
        reveal_strlit("2");
        reveal_strlit("3");
        reveal_strlit("4");
        reveal_strlit("5");
        reveal_strlit("6");
        reveal_strlit("7");
        reveal_strlit("8");
        reveal_strlit("9");
    }
    let text = match digit {
        0 => "0",
        1 => "1",
        2 => "2",
        3 => "3",
        4 => "4",
        5 => "5",
        6 => "6",
        7 => "7",
        8 => "8",
        _ => "9",
    };
    assert(text@ =~= seq![digit_char(digit as int)]);
    text
}

/// Writes a number in decimal digits behind the text.
fn push_number(text: &mut String, n: u32)
    ensures
        final(text)@ == old(text)@ + number_text(n as nat),
    decreases n,
{
    if n < 10 {
        text.append(digit_text(n));
    } else {
        push_number(text, n / 10);
        text.append(digit_text(n % 10));
        assert(text@ =~= old(text)@ + number_text(n as nat));
    }
}

/// Writes a number with at least two digits behind the text.
fn push_two_digits(text: &mut String, n: u32)
    ensures
        final(text)@ == old(text)@ + two_digits(n as nat),
{
    proof {
        reveal_strlit("0");
    }
    if n < 10 {
        text.append("0");
    }
    push_number(text, n);
    assert(text@ =~= old(text)@ + two_digits(n as nat));
}

/// Writes a number with at least four digits behind the text.
fn push_four_digits(text: &mut String, n: u32)
    ensures
        final(text)@ == old(text)@ + four_digits(n as nat),
{
    proof {
        reveal_strlit("0");
        reveal_strlit("00");
        reveal_strlit("000");
    }
    if n < 10 {
        text.append("000");
    } else if n < 100 {
        text.append("00");
    } else if n < 1000 {
        text.append("0");
    }
    push_number(text, n);
    assert(text@ =~= old(text)@ + four_digits(n as nat));
}

/// Writes a date as it is shown behind the text.
pub fn push_date(text: &mut String, date: Date)
    ensures
        final(text)@ == old(text)@ + date_text(date),
{
    proof {
        reveal_strlit(".");
        reveal_strlit("-");
    }
    push_two_digits(text, date.day);
    text.append(".");
    push_two_digits(text, date.month);
    text.append(".");
    if date.year < 0 {
        text.append("-");
        push_four_digits(text, (-(date.year as i64)) as u32);
    } else {
        push_four_digits(text, date.year as u32);
    }
    assert(text@ =~= old(text)@ + date_text(date));
}

/// A date as it is shown.
pub fn format_date(date: Date) -> (r: String)
    ensures
        r@ == date_text(date),
{
    let mut text = String::new();
    push_date(&mut text, date);
    assert(text@ =~= date_text(date));
    text
}

} // verus!
